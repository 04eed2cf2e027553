//! JSON values: the tree that a text spells, read and changed field by field.
//!
//! `serde_json` reads the text and writes it. What it read is held here as plain values, so that
//! every look into a value is proved against the tree that the value stands for.
use crate::text::same;
use vstd::prelude::*;

verus! {

/// What a JSON value is. A number is a whole one from zero up, a whole one below zero, or a float,
/// by its IEEE 754 bits.
#[verifier::ext_equal]
pub enum Tree {
    Null,
    Bool(bool),
    Unsigned(u64),
    Negative(i64),
    Float(u64),
    Text(Seq<char>),
    Array(Seq<Tree>),
    Object(Map<Seq<char>, Tree>),
}

/// A JSON value. An object lists its fields; where a name is listed twice the later field counts.
#[derive(Debug, PartialEq)]
pub enum Json {
    Null,
    Bool(bool),
    /// A whole number from zero up.
    Unsigned(u64),
    /// A whole number below zero.
    Negative(i64),
    /// Any other number, by its IEEE 754 bits.
    Float(u64),
    Text(String),
    Array(Vec<Json>),
    Object(Vec<(String, Json)>),
}

/// The tree that a value stands for.
pub open spec fn tree(j: Json) -> Tree
    decreases j,
{
    match j {
        Json::Null => Tree::Null,
        Json::Bool(b) => Tree::Bool(b),
        Json::Unsigned(n) => Tree::Unsigned(n),
        Json::Negative(n) => Tree::Negative(n),
        Json::Float(bits) => Tree::Float(bits),
        Json::Text(s) => Tree::Text(s@),
        Json::Array(a) => Tree::Array(
            Seq::new(
                a@.len(),
                |i: int|
                    if 0 <= i < a@.len() {
                        tree(a@[i])
                    } else {
                        Tree::Null
                    },
            ),
        ),
        Json::Object(o) => Tree::Object(fields(o@)),
    }
}

/// The fields of an object, from the list of them.
pub open spec fn fields(o: Seq<(String, Json)>) -> Map<Seq<char>, Tree>
    decreases o,
{
    if o.len() == 0 {
        Map::empty()
    } else {
        fields(o.drop_last()).insert(o.last().0@, tree(o.last().1))
    }
}

impl View for Json {
    type V = Tree;

    open spec fn view(&self) -> Tree {
        tree(*self)
    }
}

/// The trees that a list of values stands for.
pub open spec fn trees(s: Seq<Json>) -> Seq<Tree> {
    Seq::new(s.len(), |i: int| s[i]@)
}

/// The tree that an optional value stands for.
pub open spec fn tree_of(j: Option<&Json>) -> Option<Tree> {
    match j {
        Some(j) => Some(j@),
        None => None,
    }
}

/// The characters of an optional text.
pub open spec fn text_in(s: Option<&str>) -> Option<Seq<char>> {
    match s {
        Some(s) => Some(s@),
        None => None,
    }
}

impl Tree {
    /// The field of that name, of an object that has it.
    pub open spec fn get(self, key: Seq<char>) -> Option<Tree> {
        match self {
            Tree::Object(m) => if m.dom().contains(key) {
                Some(m[key])
            } else {
                None
            },
            _ => None,
        }
    }

    pub open spec fn as_text(self) -> Option<Seq<char>> {
        match self {
            Tree::Text(s) => Some(s),
            _ => None,
        }
    }

    pub open spec fn as_bool(self) -> Option<bool> {
        match self {
            Tree::Bool(b) => Some(b),
            _ => None,
        }
    }

    pub open spec fn as_unsigned(self) -> Option<u64> {
        match self {
            Tree::Unsigned(n) => Some(n),
            _ => None,
        }
    }

    pub open spec fn as_signed(self) -> Option<i64> {
        match self {
            Tree::Unsigned(n) => if n <= i64::MAX {
                Some(n as i64)
            } else {
                None
            },
            Tree::Negative(n) => Some(n),
            _ => None,
        }
    }

    pub open spec fn as_array(self) -> Option<Seq<Tree>> {
        match self {
            Tree::Array(a) => Some(a),
            _ => None,
        }
    }

    /// The text under that name, or nothing.
    pub open spec fn text_at(self, key: Seq<char>) -> Seq<char> {
        match self.get(key) {
            Some(Tree::Text(s)) => s,
            _ => Seq::empty(),
        }
    }

    /// The truth value under that name, if there is one.
    pub open spec fn bool_at(self, key: Seq<char>) -> Option<bool> {
        match self.get(key) {
            Some(v) => v.as_bool(),
            None => None,
        }
    }

    /// The whole number from zero up under that name, if there is one.
    pub open spec fn unsigned_at(self, key: Seq<char>) -> Option<u64> {
        match self.get(key) {
            Some(v) => v.as_unsigned(),
            None => None,
        }
    }

    /// The whole number under that name, if there is one that 64 bits hold with a sign.
    pub open spec fn signed_at(self, key: Seq<char>) -> Option<i64> {
        match self.get(key) {
            Some(v) => v.as_signed(),
            None => None,
        }
    }

    /// The list under that name; nothing where there is none.
    pub open spec fn list_at(self, key: Seq<char>) -> Seq<Tree> {
        match self.get(key) {
            Some(Tree::Array(a)) => a,
            _ => Seq::empty(),
        }
    }

    /// An object with one field or more.
    pub open spec fn has_fields(self) -> bool {
        match self {
            Tree::Object(m) => m != Map::<Seq<char>, Tree>::empty(),
            _ => false,
        }
    }

    /// Whether a field can be put into it: an object, or a null, which becomes one.
    pub open spec fn takes_fields(self) -> bool {
        self is Object || self is Null
    }

    /// The same value with `value` under that name.
    pub open spec fn with(self, key: Seq<char>, value: Tree) -> Tree {
        match self {
            Tree::Object(m) => Tree::Object(m.insert(key, value)),
            Tree::Null => Tree::Object(Map::empty().insert(key, value)),
            _ => self,
        }
    }
}

/// An object without fields.
pub open spec fn empty_object() -> Tree {
    Tree::Object(Map::empty())
}

/// A whole number as JSON holds it.
pub open spec fn number(n: int) -> Tree {
    if n < 0 {
        Tree::Negative(n as i64)
    } else {
        Tree::Unsigned(n as u64)
    }
}

/// Whether no number in it is a float.
pub open spec fn floatless(t: Tree) -> bool
    decreases t,
{
    match t {
        Tree::Float(_) => false,
        Tree::Array(a) => forall|i: int| 0 <= i < a.len() ==> floatless(#[trigger] a[i]),
        Tree::Object(m) => m.dom().finite() && forall|k: Seq<char>|
            m.dom().contains(k) ==> floatless(#[trigger] m[k]),
        _ => true,
    }
}

/// Whether arrays and objects stand in one another at most that deep.
pub open spec fn nested_within(t: Tree, depth: nat) -> bool
    decreases depth,
{
    match t {
        Tree::Array(a) => depth > 0 && forall|i: int|
            0 <= i < a.len() ==> nested_within(#[trigger] a[i], (depth - 1) as nat),
        Tree::Object(m) => depth > 0 && forall|k: Seq<char>|
            m.dom().contains(k) ==> nested_within(#[trigger] m[k], (depth - 1) as nat),
        _ => true,
    }
}

/// No two fields of the list have one name.
pub open spec fn names_differ(o: Seq<(String, Json)>) -> bool {
    forall|i: int, j: int|
        0 <= i < j < o.len() ==> (#[trigger] o[i]).0@ != (#[trigger] o[j]).0@
}

/// Whether a value is spelled in one way and without a float: its numbers are whole, those below
/// zero and those from zero up told apart, and no object names a field twice.
pub open spec fn plain(j: Json) -> bool
    decreases j,
{
    match j {
        Json::Float(_) => false,
        Json::Negative(n) => n < 0,
        Json::Array(a) => forall|i: int| 0 <= i < a@.len() ==> plain(#[trigger] a@[i]),
        Json::Object(o) => names_differ(o@) && forall|i: int|
            0 <= i < o@.len() ==> plain((#[trigger] o@[i]).1),
        _ => true,
    }
}

/// Putting a field into the list where its name already stands last.
proof fn lemma_fields_update(o: Seq<(String, Json)>, i: int, e: (String, Json))
    requires
        0 <= i < o.len(),
        o[i].0@ == e.0@,
        forall|j: int| i < j < o.len() ==> (#[trigger] o[j]).0@ != e.0@,
    ensures
        fields(o.update(i, e)) == fields(o).insert(e.0@, tree(e.1)),
    decreases o.len(),
{
    let u = o.update(i, e);
    if i == o.len() - 1 {
        assert(u.drop_last() =~= o.drop_last());
        assert(fields(u) =~= fields(o).insert(e.0@, tree(e.1)));
    } else {
        lemma_fields_update(o.drop_last(), i, e);
        assert(u.drop_last() =~= o.drop_last().update(i, e));
        assert(o.last() == o[o.len() - 1]);
        assert(fields(u) =~= fields(o).insert(e.0@, tree(e.1)));
    }
}

/// A name that the list does not hold is no field; one that it holds last at `i` is that entry's.
proof fn lemma_fields_find(o: Seq<(String, Json)>, key: Seq<char>, i: int)
    requires
        -1 <= i < o.len(),
        i >= 0 ==> o[i].0@ == key,
        forall|j: int| i < j < o.len() ==> (#[trigger] o[j]).0@ != key,
    ensures
        i < 0 ==> !fields(o).dom().contains(key),
        i >= 0 ==> fields(o).dom().contains(key) && fields(o)[key] == tree(o[i].1),
    decreases o.len(),
{
    if o.len() > 0 && i < o.len() - 1 {
        assert(o.last() == o[o.len() - 1]);
        lemma_fields_find(o.drop_last(), key, i);
    }
}

/// The place of the last entry of that name, if there is one.
fn find(o: &Vec<(String, Json)>, key: &str) -> (r: Option<usize>)
    ensures
        match r {
            Some(i) => i < o@.len() && o@[i as int].0@ == key@ && (forall|j: int|
                i < j < o@.len() ==> (#[trigger] o@[j]).0@ != key@),
            None => forall|j: int| 0 <= j < o@.len() ==> (#[trigger] o@[j]).0@ != key@,
        },
{
    let mut i: usize = o.len();
    while i > 0
        invariant
            i <= o@.len(),
            forall|j: int| i <= j < o@.len() ==> (#[trigger] o@[j]).0@ != key@,
        decreases i,
    {
        i -= 1;
        if same(o[i].0.as_str(), key) {
            return Some(i);
        }
    }
    None
}

impl Json {
    pub fn object() -> (r: Json)
        ensures
            r@ == empty_object(),
            plain(r),
    {
        let o: Vec<(String, Json)> = Vec::new();
        assert(fields(o@) == Map::<Seq<char>, Tree>::empty());
        Json::Object(o)
    }

    pub fn text(s: &str) -> (r: Json)
        ensures
            r@ == Tree::Text(s@),
            plain(r),
    {
        Json::Text(s.to_owned())
    }

    pub fn signed(n: i64) -> (r: Json)
        ensures
            r@ == number(n as int),
            plain(r),
    {
        if n < 0 {
            Json::Negative(n)
        } else {
            Json::Unsigned(n as u64)
        }
    }

    /// The field of that name, of an object that has it.
    pub fn get(&self, key: &str) -> (r: Option<&Json>)
        ensures
            tree_of(r) == self@.get(key@),
            plain(*self) ==> (r matches Some(v) ==> plain(*v)),
    {
        match self {
            Json::Object(o) => match find(o, key) {
                Some(i) => {
                    proof {
                        lemma_fields_find(o@, key@, i as int);
                    }
                    Some(&o[i].1)
                },
                None => {
                    proof {
                        lemma_fields_find(o@, key@, -1);
                    }
                    None
                },
            },
            _ => None,
        }
    }

    pub fn as_str(&self) -> (r: Option<&str>)
        ensures
            text_in(r) == self@.as_text(),
    {
        match self {
            Json::Text(s) => Some(s.as_str()),
            _ => None,
        }
    }

    pub fn as_bool(&self) -> (r: Option<bool>)
        ensures
            r == self@.as_bool(),
    {
        match self {
            Json::Bool(b) => Some(*b),
            _ => None,
        }
    }

    pub fn as_u64(&self) -> (r: Option<u64>)
        ensures
            r == self@.as_unsigned(),
    {
        match self {
            Json::Unsigned(n) => Some(*n),
            _ => None,
        }
    }

    pub fn as_i64(&self) -> (r: Option<i64>)
        ensures
            r == self@.as_signed(),
    {
        match self {
            Json::Unsigned(n) => if *n <= i64::MAX as u64 {
                Some(*n as i64)
            } else {
                None
            },
            Json::Negative(n) => Some(*n),
            _ => None,
        }
    }

    pub fn as_array(&self) -> (r: Option<&Vec<Json>>)
        ensures
            match r {
                Some(a) => self@.as_array() == Some(trees(a@)),
                None => self@.as_array() is None,
            },
    {
        match self {
            Json::Array(a) => {
                assert(self@->Array_0 =~= trees(a@));
                Some(a)
            },
            _ => None,
        }
    }

    pub fn is_object(&self) -> (r: bool)
        ensures
            r == (self@ is Object),
    {
        match self {
            Json::Object(_) => true,
            _ => false,
        }
    }

    pub fn has_fields(&self) -> (r: bool)
        ensures
            r == self@.has_fields(),
    {
        match self {
            Json::Object(o) => {
                proof {
                    if o@.len() > 0 {
                        assert(fields(o@).dom().contains(o@.last().0@));
                    } else {
                        assert(fields(o@) == Map::<Seq<char>, Tree>::empty());
                    }
                }
                o.len() > 0
            },
            _ => false,
        }
    }

    pub fn takes_fields(&self) -> (r: bool)
        ensures
            r == self@.takes_fields(),
    {
        match self {
            Json::Object(_) => true,
            Json::Null => true,
            _ => false,
        }
    }

    /// The text under that name, or nothing.
    pub fn str_of(&self, key: &str) -> (r: &str)
        ensures
            r@ == self@.text_at(key@),
    {
        proof {
            reveal_strlit("");
            assert(""@ =~= Seq::<char>::empty());
        }
        match self.get(key) {
            Some(v) => match v.as_str() {
                Some(s) => s,
                None => "",
            },
            None => "",
        }
    }

    pub fn bool_of(&self, key: &str) -> (r: Option<bool>)
        ensures
            r == self@.bool_at(key@),
    {
        match self.get(key) {
            Some(v) => v.as_bool(),
            None => None,
        }
    }

    pub fn u64_of(&self, key: &str) -> (r: Option<u64>)
        ensures
            r == self@.unsigned_at(key@),
    {
        match self.get(key) {
            Some(v) => v.as_u64(),
            None => None,
        }
    }

    pub fn i64_of(&self, key: &str) -> (r: Option<i64>)
        ensures
            r == self@.signed_at(key@),
    {
        match self.get(key) {
            Some(v) => v.as_i64(),
            None => None,
        }
    }

    /// The list under that name; `None` where there is none.
    pub fn array_of(&self, key: &str) -> (r: Option<&Vec<Json>>)
        ensures
            match r {
                Some(a) => self@.list_at(key@) == trees(a@),
                None => self@.list_at(key@) == Seq::<Tree>::empty(),
            },
    {
        match self.get(key) {
            Some(v) => v.as_array(),
            None => None,
        }
    }

    /// A copy of the list under that name; nothing where there is none.
    pub fn list_of(&self, key: &str) -> (r: Vec<Json>)
        ensures
            trees(r@) == self@.list_at(key@),
    {
        match self.array_of(key) {
            Some(a) => copies(a),
            None => {
                let none: Vec<Json> = Vec::new();
                assert(trees(none@) =~= Seq::<Tree>::empty());
                none
            },
        }
    }

    /// A list of values as one.
    pub fn array(list: Vec<Json>) -> (r: Json)
        ensures
            r@ == Tree::Array(trees(list@)),
            plain(r) <==> forall|i: int| 0 <= i < list@.len() ==> plain(#[trigger] list@[i]),
    {
        let r = Json::Array(list);
        assert(r@->Array_0 =~= trees(list@));
        r
    }

    /// The same value with `value` under that name.
    pub fn with(self, key: &str, value: Json) -> (r: Json)
        requires
            self@.takes_fields(),
        ensures
            r@ == self@.with(key@, value@),
            plain(self) && plain(value) ==> plain(r),
    {
        match self {
            Json::Object(o) => {
                let mut o = o;
                match find(&o, key) {
                    Some(i) => {
                        let ghost before = o@;
                        let e = (key.to_owned(), value);
                        proof {
                            lemma_fields_update(before, i as int, e);
                        }
                        o[i] = e;
                        assert(o@ =~= before.update(i as int, e));
                    },
                    None => {
                        let ghost before = o@;
                        o.push((key.to_owned(), value));
                        assert(o@.drop_last() =~= before);
                        assert(fields(o@) == fields(before).insert(key@, value@));
                    },
                }
                Json::Object(o)
            },
            _ => {
                let mut o: Vec<(String, Json)> = Vec::new();
                o.push((key.to_owned(), value));
                assert(o@.drop_last() =~= Seq::<(String, Json)>::empty());
                assert(fields(o@.drop_last()) == Map::<Seq<char>, Tree>::empty());
                assert(fields(o@) == fields(o@.drop_last()).insert(key@, value@));
                Json::Object(o)
            },
        }
    }
}

/// A copy of each value of a list.
pub fn copies(list: &[Json]) -> (r: Vec<Json>)
    ensures
        trees(r@) == trees(list@),
{
    let mut out: Vec<Json> = Vec::new();
    let mut i: usize = 0;
    while i < list.len()
        invariant
            i <= list@.len(),
            out@.len() == i,
            forall|k: int| 0 <= k < i ==> (#[trigger] out@[k])@ == list@[k]@,
        decreases list@.len() - i,
    {
        out.push(list[i].clone());
        i += 1;
    }
    assert(trees(out@) =~= trees(list@));
    out
}

impl Clone for Json {
    fn clone(&self) -> (r: Self)
        ensures
            r@ == self@,
            plain(*self) ==> plain(r),
        decreases self,
    {
        match self {
            Json::Null => Json::Null,
            Json::Bool(b) => Json::Bool(*b),
            Json::Unsigned(n) => Json::Unsigned(*n),
            Json::Negative(n) => Json::Negative(*n),
            Json::Float(bits) => Json::Float(*bits),
            Json::Text(s) => Json::Text(s.clone()),
            Json::Array(a) => {
                let mut out: Vec<Json> = Vec::new();
                let mut i: usize = 0;
                while i < a.len()
                    invariant
                        i <= a@.len(),
                        out@.len() == i,
                        forall|k: int| 0 <= k < i ==> (#[trigger] out@[k])@ == a@[k]@,
                        forall|k: int| 0 <= k < i && plain(a@[k]) ==> plain(#[trigger] out@[k]),
                        decreases_to!(self => a),
                    decreases a@.len() - i,
                {
                    out.push(a[i].clone());
                    i += 1;
                }
                let r = Json::Array(out);
                assert(r@->Array_0 =~= self@->Array_0);
                r
            },
            Json::Object(o) => {
                let mut out: Vec<(String, Json)> = Vec::new();
                let mut i: usize = 0;
                while i < o.len()
                    invariant
                        i <= o@.len(),
                        fields(out@) == fields(o@.take(i as int)),
                        out@.len() == i,
                        forall|k: int| 0 <= k < i ==> (#[trigger] out@[k]).0@ == o@[k].0@,
                        forall|k: int|
                            0 <= k < i && plain(o@[k].1) ==> plain((#[trigger] out@[k]).1),
                        decreases_to!(self => o),
                    decreases o@.len() - i,
                {
                    assert(decreases_to!(o@[i as int] => o@[i as int].1));
                    let ghost before = out@;
                    out.push((o[i].0.clone(), o[i].1.clone()));
                    i += 1;
                    assert(out@.drop_last() =~= before);
                    assert(o@.take(i as int).drop_last() =~= o@.take(i - 1));
                }
                assert(o@.take(o@.len() as int) =~= o@);
                Json::Object(out)
            },
        }
    }
}

/// A value is spoken of as it is: a number, a text or a truth value as itself, a list item by item,
/// and an object field by field, where the later of two fields of one name counts.
pub proof fn law_a_value_is_spoken_of_as_it_is(
    j: Json,
    i: int,
    o: Seq<(String, Json)>,
    name: String,
)
    ensures
        match j {
            Json::Null => j@ is Null,
            Json::Bool(b) => j@ == Tree::Bool(b),
            Json::Unsigned(n) => j@ == Tree::Unsigned(n),
            Json::Negative(n) => j@ == Tree::Negative(n),
            Json::Float(bits) => j@ == Tree::Float(bits),
            Json::Text(s) => j@ == Tree::Text(s@),
            Json::Array(a) => j@ matches Tree::Array(items) && items.len() == a@.len() && (0 <= i
                < a@.len() ==> items[i] == a@[i]@),
            Json::Object(o) => j@ == Tree::Object(fields(o@)),
        },
        fields(Seq::empty()) == Map::<Seq<char>, Tree>::empty(),
        fields(o.push((name, j))) == fields(o).insert(name@, j@),
{
    assert(o.push((name, j)).drop_last() =~= o);
}

} // verus!
