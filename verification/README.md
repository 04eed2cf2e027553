# uniswap_backend

The Uniswap app's backend: what a swap request means, which modules are asked for it and in which
order, what the human is told, and how the sender's history groups into swaps. Written in Verus;
every function of the library is verified against its contract.

## Layout

| Where | What |
| --- | --- |
| `src/units.rs`, `src/unit_laws.rs`, `src/digits.rs`, `src/rate.rs` | Amounts as strings of digits, exact at any size |
| `src/json.rs`, `src/wire.rs`, `src/floats.rs` | JSON values, and `serde_json`, which reads and writes their text; whole numbers as floats |
| `src/form.rs` | A swap request, validated and scaled |
| `src/requests.rs` | What `uniswap_module` and the sender are asked; the purpose; the quote |
| `src/history.rs`, `src/history_laws.rs`, `src/order.rs` | The app's swaps out of the sender's rows |
| `src/networks.rs`, `src/tokens.rs`, `src/verified.rs`, `src/depinit.rs` | Chains, token rows and the picker's pages, verdicts, defaults |
| `src/budget.rs` | One allowance of time per entry point |
| `src/calls.rs`, `src/replies.rs`, `src/flow.rs` | Outbound calls, their answers, and where an entry point stands between two of them |
| `src/reads.rs`, `src/swapping.rs`, `src/session.rs`, `src/session_laws.rs` | The entry points as steps, and what holds of all of them |
| `src/feeds.rs` | What is announced when another module announces something |
| `app/` | The clock, the calls, the listening threads, and the floats: the rate line's, and those that a value is written with |

## Steps

An entry point starts with a function of `reads` or `swapping`, which returns a `Step`: a call to
make and how long to wait for it, or the answer. `session::advance` takes what came back and returns
the next `Step`. The library never calls another module itself, and holds nothing between two steps
but the `Flow` it handed out.

## Trusted

`serde_json` (reading, writing, and the float it reads a whole number as), `std::time::Instant` and
`String::push`. Each stands behind an item of its own, whose doc comment says what is claimed.

## Budgets

Each entry point spends one allowance across all its calls. A quote gets 58 s and a swap 60 s: the
build (40 s) and then the sender, which is told what is left. The view waits 62 s for those two and
20 s for everything else.
