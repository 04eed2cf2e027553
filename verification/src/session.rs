//! One step of an entry point: from where it stands and what came back, to what it does next.
use crate::calls::{Ask, Call, Module};
use crate::depinit::{reply_ok, says_ok};
use crate::flow::{
    answer_with, answers_with, sound, standing, task_at, timely, Flow, Moment, Move, Place, Step,
};
use crate::json::Tree;
use crate::reads::{
    accounts_after_list, accounts_wallets, add_courtesy, balances_after_offered,
    catalogue_after_native, catalogue_after_page, catalogue_native, catalogue_token_list,
    networks_after_deployments, networks_after_registry, networks_registry, pass_on, read_assets,
    read_balances, read_deployments, read_labels, read_native, read_offered, read_page,
    read_registry, read_wallets, seed_for_catalogue, seed_for_tokens, start_token_list,
    startup_token_list, status_from, swaps_after_history, tell_networks, tell_page, tell_status,
    tell_swaps, tell_tokens, tell_verdict, tokens_after_assets, tokens_after_offered,
    tokens_offered, tokens_token_list, with_courtesy,
};
use crate::replies::{read_reply, relayed, verdict_from, word_of, Reply, Word};
use crate::swapping::{
    after_build, after_prepare, after_send, check_scope, resolve_side, side_after_listed,
    side_after_offered, side_after_resolve, swap_after_registry, swap_registry, take_asset,
    take_build, take_listed, take_price, take_registry, tell_swap,
};
use crate::wire::json_read;
use vstd::prelude::*;

verus! {

/// What an entry point does once a call is answered. What `init_defaults` answered only decides
/// whether it is asked again another time.
pub open spec fn after(place: Place, word: Word, now: Moment) -> Move {
    match place {
        Place::StartupEthRpc => startup_token_list(now),
        Place::StartupTokenList => Move::Done,
        Place::NetworksEthRpc => networks_registry(now),
        Place::NetworksRegistry => networks_after_registry(word, now),
        Place::NetworksDeployments { scope, records } => networks_after_deployments(
            scope,
            records,
            word,
        ),
        Place::Verdict { chain } => answers_with(verdict_from(chain, word)),
        Place::TokensEthRpc { chain_id } => tokens_token_list(chain_id, now),
        Place::TokensTokenList { chain_id } => tokens_offered(chain_id, now),
        Place::TokensOffered { chain_id } => tokens_after_offered(chain_id, word, now),
        Place::TokensAssets => tokens_after_assets(word),
        Place::CatalogueEthRpc { picker } => catalogue_token_list(picker, now),
        Place::CatalogueTokenList { picker } => catalogue_native(picker, now),
        Place::CatalogueNative { picker } => catalogue_after_native(picker, word, now),
        Place::CataloguePage { picker, native, matches } => catalogue_after_page(
            picker,
            native,
            matches,
            word,
        ),
        Place::BalancesOffered { chain_id, address, extra } => balances_after_offered(
            chain_id,
            address,
            extra,
            word,
            now,
        ),
        Place::BalancesRead => Move::Answer(relayed(word, "evm_assets_module"@)),
        Place::FeeTiers => Move::Answer(relayed(word, "fee_module"@)),
        Place::AccountsList => accounts_after_list(word, now),
        Place::AccountsLabels { out } => accounts_wallets(
            with_courtesy(out, word, "labels"@),
            now,
        ),
        Place::AccountsWallets { out } => answers_with(with_courtesy(out, word, "wallets"@)),
        Place::SwapEthRpc { job } => swap_registry(job, now),
        Place::SwapRegistry { job } => swap_after_registry(job, word, now),
        Place::SideOffered { job, side } => side_after_offered(job, side, word, now),
        Place::SideResolve { job, side } => side_after_resolve(job, side, word, now),
        Place::SideListed { job, side } => side_after_listed(job, side, word, now),
        Place::Build { job, deadline } => after_build(job, deadline, word, now),
        Place::Prepare { job, built } => after_prepare(job, built, word),
        Place::Send { job, built, words, deadline } => after_send(
            job,
            built,
            words,
            deadline,
            word,
        ),
        Place::Status => answers_with(status_from(word)),
        Place::Cancel => Move::Answer(relayed(word, "tx_sender_module"@)),
        Place::Swaps { address, chain_id } => swaps_after_history(address, chain_id, word),
    }
}

/// Go on once a call is answered, and its answer read.
pub fn resume(flow: Flow, word: Reply, now: &Moment) -> (r: Step)
    requires
        standing(flow@),
        task_at(flow@) matches Some(task) ==> timely(task.wish, *now),
    ensures
        r@ == after(flow@, word@, *now),
        sound(r@),
{
    match flow {
        Flow::StartupEthRpc => start_token_list(now),
        Flow::StartupTokenList => Step::Done,
        Flow::NetworksEthRpc => read_registry(now),
        Flow::NetworksRegistry => read_deployments(word, now),
        Flow::NetworksDeployments { scope, records } => tell_networks(scope, records, word),
        Flow::Verdict { chain } => tell_verdict(chain, word),
        Flow::TokensEthRpc { chain_id } => seed_for_tokens(chain_id, now),
        Flow::TokensTokenList { chain_id } => read_offered(chain_id, now),
        Flow::TokensOffered { chain_id } => read_assets(chain_id, word, now),
        Flow::TokensAssets => tell_tokens(word),
        Flow::CatalogueEthRpc { picker } => seed_for_catalogue(picker, now),
        Flow::CatalogueTokenList { picker } => read_native(picker, now),
        Flow::CatalogueNative { picker } => read_page(picker, word, now),
        Flow::CataloguePage { picker, native, matches } => tell_page(
            picker,
            native,
            matches,
            word,
        ),
        Flow::BalancesOffered { chain_id, address, extra } => read_balances(
            chain_id,
            address,
            extra,
            word,
            now,
        ),
        Flow::BalancesRead => pass_on(word, "evm_assets_module"),
        Flow::FeeTiers => pass_on(word, "fee_module"),
        Flow::AccountsList => read_labels(word, now),
        Flow::AccountsLabels { out } => read_wallets(add_courtesy(out, word, "labels"), now),
        Flow::AccountsWallets { out } => answer_with(add_courtesy(out, word, "wallets")),
        Flow::SwapEthRpc { job } => check_scope(job, now),
        Flow::SwapRegistry { job } => take_registry(job, word, now),
        Flow::SideOffered { job, side } => resolve_side(job, side, word, now),
        Flow::SideResolve { job, side } => take_asset(job, side, word, now),
        Flow::SideListed { job, side } => take_listed(job, side, word, now),
        Flow::Build { job, deadline } => take_build(job, deadline, word, now),
        Flow::Prepare { job, built } => take_price(job, built, word),
        Flow::Send { job, built, words, deadline } => tell_swap(job, built, words, deadline, word),
        Flow::Status => tell_status(word),
        Flow::Cancel => pass_on(word, "tx_sender_module"),
        Flow::Swaps { address, chain_id } => tell_swaps(address, chain_id, word),
    }
}

/// Go on once a call is answered: with a text, or with what the transport said of its failure.
pub fn advance(flow: Flow, raw: Result<String, String>, now: &Moment) -> (r: Step)
    requires
        standing(flow@),
        task_at(flow@) matches Some(task) ==> timely(task.wish, *now),
    ensures
        r@ == after(flow@, word_of(raw), *now),
        sound(r@),
{
    resume(flow, read_reply(raw), now)
}

/// Whether a module was asked for its defaults and said yes.
pub open spec fn defaults_said_yes(ask: Ask, raw: Result<String, String>) -> Option<Module> {
    let yes = raw matches Ok(text) && json_read(text@) matches Ok(v) && says_ok(v);
    match ask {
        Ask::EthRpcInitDefaults if yes => Some(Module::EthRpc),
        Ask::TokenListInitDefaults if yes => Some(Module::TokenList),
        _ => None,
    }
}

/// The module whose defaults are settled by what it answered, so that it is not asked for them
/// again: only by a yes to `init_defaults`. Anything else, silence included, is asked again.
pub fn defaults_landed(call: &Call, raw: &Result<String, String>) -> (r: Option<Module>)
    ensures
        r == defaults_said_yes(call@, *raw),
{
    let module = match call {
        Call::EthRpcInitDefaults => Module::EthRpc,
        Call::TokenListInitDefaults => Module::TokenList,
        _ => {
            return None;
        },
    };
    match raw {
        Ok(text) => if reply_ok(text.as_str()) {
            Some(module)
        } else {
            None
        },
        Err(_) => None,
    }
}

/// A module's defaults are settled by a yes to the call that asked for them, and by nothing else:
/// by no other call, by no refusal, by no text that cannot be read and by no silence.
pub proof fn law_whose_defaults_are_settled(ask: Ask, raw: Result<String, String>)
    ensures
        ({
            let yes = raw matches Ok(text) && json_read(text@) matches Ok(v) && v.get("ok"@) == Some(
                Tree::Bool(true),
            );
            &&& defaults_said_yes(ask, raw) == Some(Module::EthRpc) <==> yes && ask
                is EthRpcInitDefaults
            &&& defaults_said_yes(ask, raw) == Some(Module::TokenList) <==> yes && ask
                is TokenListInitDefaults
            &&& !yes ==> defaults_said_yes(ask, raw) is None
            &&& !(ask is EthRpcInitDefaults) && !(ask is TokenListInitDefaults)
                ==> defaults_said_yes(ask, raw) is None
        }),
{
}

} // verus!
