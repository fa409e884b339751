//! JSON values: the tree that a text is read into, and the text that a tree
//! is written as.
use crate::names::{find_entry, lemma_find_entry, lemma_found_entry, lookup, Duplicate};
use crate::number::{self, number_kind, real_bits, real_eq, single_bits, NumberKind, Real};
use crate::text;
use vstd::prelude::*;
use vstd::std_specs::cmp::PartialEqSpec;

verus! {

/// The value of a JSON text.
pub enum JsonTree {
    /// `null`.
    Null,
    /// `true` or `false`.
    Bool(bool),
    /// A number.
    Number(NumberKind),
    /// A string.
    String(Seq<char>),
    /// An array.
    Array(Seq<JsonTree>),
    /// An object: its members in order, no two with the same key.
    Object(Seq<(Seq<char>, JsonTree)>),
}

/// The value type of `serde_json`.
#[verifier::external_type_specification]
#[verifier::external_body]
pub struct ExValue(serde_json::Value);

/// What a value of `serde_json` holds.
pub uninterp spec fn value_tree(value: serde_json::Value) -> JsonTree;

/// What `serde_json::from_str` gives for a text: the value, or the words of
/// its error.
pub uninterp spec fn json_read(text: Seq<char>) -> Result<JsonTree, Seq<char>>;

/// The compact text that `serde_json` writes for a value.
pub uninterp spec fn json_text(tree: JsonTree) -> Seq<char>;

/// A JSON value.
#[derive(Debug)]
pub enum Json {
    /// `null`.
    Null,
    /// `true` or `false`.
    Bool(bool),
    /// A number.
    Number(serde_json::Number),
    /// A string.
    String(String),
    /// An array.
    Array(Vec<Json>),
    /// An object.
    Object(Object),
}

/// The members of a JSON object, in the order in which their keys were first
/// inserted. No key occurs twice.
#[derive(Debug)]
pub struct Object {
    entries: Vec<(String, Json)>,
}

impl View for Json {
    type V = JsonTree;

    open spec fn view(&self) -> JsonTree {
        self.tree()
    }
}

impl View for Object {
    type V = Seq<(Seq<char>, JsonTree)>;

    open spec fn view(&self) -> Seq<(Seq<char>, JsonTree)> {
        self.members()
    }
}

/// The trees of a sequence of values.
pub open spec fn trees(items: Seq<Json>) -> Seq<JsonTree> {
    items.map_values(|j: Json| j@)
}

impl Json {
    /// The tree of the value.
    pub closed spec fn tree(&self) -> JsonTree
        decreases self, 1nat,
    {
        match self {
            Json::Null => JsonTree::Null,
            Json::Bool(b) => JsonTree::Bool(*b),
            Json::Number(n) => JsonTree::Number(number_kind(*n)),
            Json::String(s) => JsonTree::String(s@),
            Json::Array(items) => JsonTree::Array(
                Seq::new(
                    items@.len(),
                    |i: int|
                        if 0 <= i < items@.len() {
                            items@[i].tree()
                        } else {
                            JsonTree::Null
                        },
                ),
            ),
            Json::Object(o) => JsonTree::Object(o.members()),
        }
    }

    /// The tree of a value, by its kind.
    pub broadcast proof fn lemma_tree(self)
        ensures
            (#[trigger] self.tree()) == match self {
                Json::Null => JsonTree::Null,
                Json::Bool(b) => JsonTree::Bool(b),
                Json::Number(n) => JsonTree::Number(number_kind(n)),
                Json::String(s) => JsonTree::String(s@),
                Json::Array(items) => JsonTree::Array(trees(items@)),
                Json::Object(o) => JsonTree::Object(o@),
            },
    {
        match self {
            Json::Array(items) => {
                let shown = self.tree()->Array_0;
                assert(shown =~= trees(items@));
            },
            _ => {},
        }
    }
}

impl Object {
    /// The members of the object.
    pub closed spec fn members(&self) -> Seq<(Seq<char>, JsonTree)>
        decreases self, 0nat,
    {
        Seq::new(
            self.entries@.len(),
            |i: int|
                if 0 <= i < self.entries@.len() {
                    (self.entries@[i].0@, self.entries@[i].1.tree())
                } else {
                    (Seq::empty(), JsonTree::Null)
                },
        )
    }

    #[verifier::type_invariant]
    spec fn distinct(&self) -> bool {
        forall|i: int, j: int|
            0 <= i < j < self.entries@.len() ==> self.entries@[i].0@ != self.entries@[j].0@
    }
}

/// Whether no key occurs twice.
pub open spec fn distinct_keys<T>(s: Seq<(Seq<char>, T)>) -> bool {
    forall|i: int, j: int| 0 <= i < j < s.len() ==> s[i].0 != s[j].0
}

/// `s` with `value` for `key`: in place of the value that it had, or at the
/// end.
pub open spec fn with_member<T>(s: Seq<(Seq<char>, T)>, key: Seq<char>, value: T) -> Seq<
    (Seq<char>, T),
> {
    let i = find_entry(s, key);
    if 0 <= i < s.len() {
        s.update(i, (key, value))
    } else {
        s.push((key, value))
    }
}

/// An object gives back what was put last under a key, and keeps what it
/// holds under every other key.
pub proof fn law_member_is_read_back<T>(
    s: Seq<(Seq<char>, T)>,
    key: Seq<char>,
    value: T,
    asked: Seq<char>,
)
    ensures
        lookup(with_member(s, key, value), asked) == if asked == key {
            Some(value)
        } else {
            lookup(s, asked)
        },
{
    let r = with_member(s, key, value);
    lemma_found_entry(s, key);
    lemma_found_entry(s, asked);
    let at = find_entry(s, key);
    if asked == key {
        lemma_find_entry(r, asked, at);
    } else {
        let i = find_entry(s, asked);
        if i < s.len() || at < s.len() {
            lemma_find_entry(r, asked, i);
        } else {
            lemma_find_entry(r, asked, i + 1);
        }
    }
}

/// The member of an object with a key; `None` of anything but an object.
pub open spec fn member(tree: JsonTree, key: Seq<char>) -> Option<JsonTree> {
    match tree {
        JsonTree::Object(members) => lookup(members, key),
        _ => None,
    }
}

/// What the step `0` of a JSON pointer leads to: the first item of an array,
/// or the member of an object with that key.
pub open spec fn first_item(tree: JsonTree) -> Option<JsonTree> {
    match tree {
        JsonTree::Object(members) => lookup(members, "0"@),
        JsonTree::Array(items) => if items.len() > 0 {
            Some(items[0])
        } else {
            None
        },
        _ => None,
    }
}

/// The characters of a string value.
pub open spec fn string_of(tree: JsonTree) -> Option<Seq<char>> {
    match tree {
        JsonTree::String(s) => Some(s),
        _ => None,
    }
}

/// The items of an array value.
pub open spec fn items_of(tree: JsonTree) -> Option<Seq<JsonTree>> {
    match tree {
        JsonTree::Array(items) => Some(items),
        _ => None,
    }
}

/// The members of an object value.
pub open spec fn members_of(tree: JsonTree) -> Option<Seq<(Seq<char>, JsonTree)>> {
    match tree {
        JsonTree::Object(members) => Some(members),
        _ => None,
    }
}

/// The bits of a number value read as a double.
pub open spec fn real_of(tree: JsonTree) -> Option<u64> {
    match tree {
        JsonTree::Number(kind) => Some(real_bits(kind)),
        _ => None,
    }
}

/// The bits of a number value read in single precision.
pub open spec fn single_of(tree: JsonTree) -> Option<u64> {
    match tree {
        JsonTree::Number(kind) => Some(single_bits(kind)),
        _ => None,
    }
}

/// A number value that is an integer of zero or more.
pub open spec fn unsigned_of(tree: JsonTree) -> Option<u64> {
    match tree {
        JsonTree::Number(NumberKind::PosInt(n)) => Some(n),
        _ => None,
    }
}

/// The tree of a double: its number, or `null` where it is not finite.
pub open spec fn real_tree(bits: u64) -> JsonTree {
    if crate::number::is_finite_bits(bits) {
        JsonTree::Number(NumberKind::Float(bits))
    } else {
        JsonTree::Null
    }
}

/// One level of a value of `serde_json`, moved into plain parts.
enum Node {
    Null,
    Bool(bool),
    Number(serde_json::Number),
    String(String),
    Array(Vec<serde_json::Value>),
    Object(Vec<(String, serde_json::Value)>),
}

/// The tree of one level.
spec fn node_tree(node: Node) -> JsonTree {
    match node {
        Node::Null => JsonTree::Null,
        Node::Bool(b) => JsonTree::Bool(b),
        Node::Number(n) => JsonTree::Number(number_kind(n)),
        Node::String(s) => JsonTree::String(s@),
        Node::Array(items) => JsonTree::Array(
            items@.map_values(|v: serde_json::Value| value_tree(v)),
        ),
        Node::Object(members) => JsonTree::Object(
            members@.map_values(|m: (String, serde_json::Value)| (m.0@, value_tree(m.1))),
        ),
    }
}

/// Whether the keys of one level are distinct.
spec fn node_distinct(node: Node) -> bool {
    match node {
        Node::Object(members) => forall|i: int, j: int|
            0 <= i < j < members@.len() ==> members@[i].0@ != members@[j].0@,
        _ => true,
    }
}

/// Reads a text with `serde_json::from_str`.
#[verifier::external_body]
fn read(text: &str) -> (r: Result<serde_json::Value, String>)
    ensures
        match r {
            Ok(v) => json_read(text@) == Ok::<JsonTree, Seq<char>>(value_tree(v)),
            Err(e) => json_read(text@) == Err::<JsonTree, Seq<char>>(e@),
        },
{
    serde_json::from_str(text).map_err(|e| e.to_string())
}

/// Writes a value with the `Display` of `serde_json::Value`, which is its
/// compact text.
#[verifier::external_body]
fn write(value: &serde_json::Value) -> (r: String)
    ensures
        r@ == json_text(value_tree(*value)),
{
    value.to_string()
}

/// Takes one level of a `serde_json::Value` apart, variant by variant. A
/// `serde_json::Map` gives its entries in its order, and has no key twice.
#[verifier::external_body]
fn open(value: serde_json::Value) -> (r: Node)
    ensures
        node_tree(r) == value_tree(value),
        node_distinct(r),
{
    match value {
        serde_json::Value::Null => Node::Null,
        serde_json::Value::Bool(b) => Node::Bool(b),
        serde_json::Value::Number(n) => Node::Number(n),
        serde_json::Value::String(s) => Node::String(s),
        serde_json::Value::Array(items) => Node::Array(items),
        serde_json::Value::Object(map) => Node::Object(map.into_iter().collect()),
    }
}

/// Puts one level of a `serde_json::Value` together, variant by variant. A
/// `serde_json::Map` keeps the order in which distinct keys are inserted.
#[verifier::external_body]
fn close(node: Node) -> (r: serde_json::Value)
    requires
        node_distinct(node),
    ensures
        value_tree(r) == node_tree(node),
{
    match node {
        Node::Null => serde_json::Value::Null,
        Node::Bool(b) => serde_json::Value::Bool(b),
        Node::Number(n) => serde_json::Value::Number(n),
        Node::String(s) => serde_json::Value::String(s),
        Node::Array(items) => serde_json::Value::Array(items),
        Node::Object(members) => serde_json::Value::Object(members.into_iter().collect()),
    }
}

/// Moves a value of `serde_json` into a tree of plain parts.
pub fn lift(value: serde_json::Value) -> (r: Json)
    ensures
        r@ == value_tree(value),
    decreases value_tree(value),
{
    broadcast use Json::lemma_tree;

    let ghost whole = value_tree(value);
    match open(value) {
        Node::Null => Json::Null,
        Node::Bool(b) => Json::Bool(b),
        Node::Number(n) => Json::Number(n),
        Node::String(s) => Json::String(s),
        Node::Array(items) => {
            let ghost all = items@.map_values(|v: serde_json::Value| value_tree(v));
            let ghost start = items@;
            let mut out: Vec<Json> = Vec::new();
            for item in it: items
                invariant
                    it.seq() == start,
                    whole == value_tree(value),
                    whole == JsonTree::Array(all),
                    all == start.map_values(|v: serde_json::Value| value_tree(v)),
                    out@.len() == it.index(),
                    forall|j: int| 0 <= j < out@.len() ==> (#[trigger] out@[j])@ == all[j],
            {
                assert(decreases_to!(whole => whole->Array_0[it.index() as int]));
                out.push(lift(item));
            }
            assert(trees(out@) =~= all);
            Json::Array(out)
        },
        Node::Object(members) => {
            let ghost all = members@.map_values(
                |m: (String, serde_json::Value)| (m.0@, value_tree(m.1)),
            );
            let ghost start = members@;
            let mut out: Vec<(String, Json)> = Vec::new();
            for entry in it: members
                invariant
                    it.seq() == start,
                    whole == value_tree(value),
                    whole == JsonTree::Object(all),
                    all == start.map_values(
                        |m: (String, serde_json::Value)| (m.0@, value_tree(m.1)),
                    ),
                    out@.len() == it.index(),
                    forall|j: int|
                        0 <= j < out@.len() ==> (#[trigger] out@[j]).0@ == all[j].0 && out@[j].1@
                            == all[j].1,
            {
                assert(decreases_to!(whole => whole->Object_0[it.index() as int].1));
                out.push((entry.0, lift(entry.1)));
            }
            let o = Object { entries: out };
            assert(o@ =~= all);
            Json::Object(o)
        },
    }
}

/// Copies a tree into a value of `serde_json`.
pub fn lower(json: &Json) -> (r: serde_json::Value)
    ensures
        value_tree(r) == json@,
    decreases json,
{
    broadcast use Json::lemma_tree;

    match json {
        Json::Null => close(Node::Null),
        Json::Bool(b) => close(Node::Bool(*b)),
        Json::Number(n) => close(Node::Number(number::copy_number(n))),
        Json::String(s) => close(Node::String(s.clone())),
        Json::Array(items) => {
            let mut out: Vec<serde_json::Value> = Vec::new();
            let mut i: usize = 0;
            while i < items.len()
                invariant
                    i <= items@.len(),
                    *json == Json::Array(*items),
                    out@.len() == i,
                    forall|j: int|
                        0 <= j < i ==> value_tree(#[trigger] out@[j]) == trees(items@)[j],
                decreases items@.len() - i,
            {
                assert(decreases_to!(json => json->Array_0@[i as int]));
                out.push(lower(&items[i]));
                i += 1;
            }
            assert(out@.map_values(|v: serde_json::Value| value_tree(v)) =~= trees(items@));
            close(Node::Array(out))
        },
        Json::Object(object) => {
            proof {
                use_type_invariant(object);
            }
            let mut out: Vec<(String, serde_json::Value)> = Vec::new();
            let mut i: usize = 0;
            while i < object.entries.len()
                invariant
                    i <= object.entries@.len(),
                    *json == Json::Object(*object),
                    out@.len() == i,
                    forall|j: int|
                        0 <= j < i ==> (#[trigger] out@[j]).0@ == object@[j].0 && value_tree(
                            out@[j].1,
                        ) == object@[j].1,
                decreases object.entries@.len() - i,
            {
                assert(decreases_to!(json => json->Object_0.entries@[i as int].1));
                out.push((object.entries[i].0.clone(), lower(&object.entries[i].1)));
                i += 1;
            }
            proof {
                assert(out@.map_values(
                    |m: (String, serde_json::Value)| (m.0@, value_tree(m.1)),
                ) =~= object@);
            }
            close(Node::Object(out))
        },
    }
}

/// Reads a JSON text.
pub fn parse(text: &str) -> (r: Result<Json, String>)
    ensures
        match r {
            Ok(v) => json_read(text@) == Ok::<JsonTree, Seq<char>>(v@),
            Err(e) => json_read(text@) == Err::<JsonTree, Seq<char>>(e@),
        },
{
    match read(text) {
        Ok(value) => Ok(lift(value)),
        Err(words) => Err(words),
    }
}

/// Writes a JSON value as compact text.
pub fn render(json: &Json) -> (r: String)
    ensures
        r@ == json_text(json@),
{
    let value = lower(json);
    write(&value)
}

/// Whether two numbers are equal: integers as integers, doubles as doubles,
/// and never one as the other.
pub open spec fn number_eq(a: NumberKind, b: NumberKind) -> bool {
    match (a, b) {
        (NumberKind::PosInt(x), NumberKind::PosInt(y)) => x == y,
        (NumberKind::NegInt(x), NumberKind::NegInt(y)) => x == y,
        (NumberKind::Float(x), NumberKind::Float(y)) => real_eq(x, y),
        _ => false,
    }
}

/// Whether two values are equal. The order of an object's members does not
/// count.
pub open spec fn tree_eq(a: JsonTree, b: JsonTree) -> bool
    decreases a,
{
    match (a, b) {
        (JsonTree::Null, JsonTree::Null) => true,
        (JsonTree::Bool(x), JsonTree::Bool(y)) => x == y,
        (JsonTree::Number(x), JsonTree::Number(y)) => number_eq(x, y),
        (JsonTree::String(x), JsonTree::String(y)) => x == y,
        (JsonTree::Array(x), JsonTree::Array(y)) => x.len() == y.len() && forall|i: int|
            0 <= i < x.len() ==> tree_eq(#[trigger] a->Array_0[i], y[i]),
        (JsonTree::Object(x), JsonTree::Object(y)) => x.len() == y.len() && forall|i: int|
            0 <= i < x.len() ==> {
                let other = lookup(y, (#[trigger] a->Object_0[i]).0);
                other is Some && tree_eq(a->Object_0[i].1, other->0)
            },
        _ => false,
    }
}

/// Whether two objects are equal. The order of their members does not count.
pub open spec fn members_eq(
    a: Seq<(Seq<char>, JsonTree)>,
    b: Seq<(Seq<char>, JsonTree)>,
) -> bool {
    tree_eq(JsonTree::Object(a), JsonTree::Object(b))
}

impl Object {
    /// An object without members.
    pub fn new() -> (r: Self)
        ensures
            r@ == Seq::<(Seq<char>, JsonTree)>::empty(),
    {
        let r = Object { entries: Vec::new() };
        r
    }

    /// The number of members; no two have the same key.
    pub fn len(&self) -> (r: usize)
        ensures
            r == self@.len(),
            distinct_keys(self@),
    {
        proof {
            use_type_invariant(self);
        }
        self.entries.len()
    }

    /// Whether there is no member.
    pub fn is_empty(&self) -> (r: bool)
        ensures
            r == (self@.len() == 0),
    {
        self.entries.len() == 0
    }

    /// The key of the member at a place.
    pub fn key(&self, i: usize) -> (r: &str)
        requires
            i < self@.len(),
        ensures
            r@ == self@[i as int].0,
    {
        self.entries[i].0.as_str()
    }

    /// The value of the member at a place.
    pub fn value(&self, i: usize) -> (r: &Json)
        requires
            i < self@.len(),
        ensures
            r@ == self@[i as int].1,
    {
        &self.entries[i].1
    }

    fn place(&self, key: &str) -> (r: usize)
        ensures
            r == find_entry(self@, key@),
            r <= self@.len(),
    {
        let mut i: usize = 0;
        while i < self.entries.len()
            invariant
                i <= self.entries@.len(),
                forall|j: int| 0 <= j < i ==> (#[trigger] self@[j]).0 != key@,
            decreases self.entries@.len() - i,
        {
            if text::same(self.entries[i].0.as_str(), key) {
                proof {
                    lemma_find_entry(self@, key@, i as int);
                }
                return i;
            }
            i += 1;
        }
        proof {
            lemma_find_entry(self@, key@, i as int);
        }
        i
    }

    /// The value of the member with a key.
    pub fn get(&self, key: &str) -> (r: Option<&Json>)
        ensures
            r is Some == (lookup(self@, key@) is Some),
            r matches Some(v) ==> lookup(self@, key@) == Some(v@),
    {
        let i = self.place(key);
        if i < self.entries.len() {
            Some(&self.entries[i].1)
        } else {
            None
        }
    }

    /// Inserts a member, in place of the value that its key had, or at the
    /// end.
    pub fn insert(&mut self, key: String, value: Json)
        ensures
            final(self)@ == with_member(old(self)@, key@, value@),
    {
        proof {
            use_type_invariant(&*self);
        }
        let i = self.place(key.as_str());
        let ghost before = self@;
        proof {
            lemma_found_entry(before, key@);
        }
        let mut entries: Vec<(String, Json)> = Vec::new();
        std::mem::swap(&mut entries, &mut self.entries);
        let ghost start = entries@;
        if i < entries.len() {
            let _ = entries.remove(i);
            entries.insert(i, (key, value));
        } else {
            entries.push((key, value));
        }
        proof {
            assert forall|a: int, b: int| 0 <= a < b < entries@.len() implies entries@[a].0@
                != entries@[b].0@ by {
                if b == start.len() {
                    assert(before[a].0 == start[a].0@);
                }
            }
        }
        self.entries = entries;
    }

    /// Inserts a member under a key.
    pub fn put(&mut self, key: &str, value: Json)
        ensures
            final(self)@ == with_member(old(self)@, key@, value@),
    {
        self.insert(key.to_owned(), value);
    }

    /// Appends a member whose key is new.
    pub(crate) fn put_new(&mut self, key: &str, value: Json)
        requires
            forall|i: int| 0 <= i < old(self)@.len() ==> (#[trigger] old(self)@[i]).0 != key@,
        ensures
            final(self)@ == old(self)@.push((key@, value@)),
    {
        proof {
            lemma_find_entry(self@, key@, self@.len() as int);
        }
        self.insert(key.to_owned(), value);
    }
}

impl Json {
    /// A string value.
    pub fn text(s: &str) -> (r: Json)
        ensures
            r@ == JsonTree::String(s@),
    {
        broadcast use Json::lemma_tree;

        Json::String(s.to_owned())
    }

    /// An integer value.
    pub fn unsigned(n: u64) -> (r: Json)
        ensures
            r@ == JsonTree::Number(NumberKind::PosInt(n)),
    {
        broadcast use Json::lemma_tree;

        Json::Number(number::integer(n))
    }

    /// The value of a double: its number, or `null` where it is not finite.
    pub fn of_real(x: &Real) -> (r: Json)
        ensures
            r@ == real_tree(x@),
    {
        broadcast use Json::lemma_tree;

        match x.number() {
            Some(n) => Json::Number(n),
            None => Json::Null,
        }
    }

    /// A string value, or `null` where there is no string.
    pub fn text_or_null(s: &Option<String>) -> (r: Json)
        ensures
            r@ == match s {
                Some(v) => JsonTree::String(v@),
                None => JsonTree::Null,
            },
    {
        broadcast use Json::lemma_tree;

        match s {
            Some(v) => Json::String(v.clone()),
            None => Json::Null,
        }
    }

    /// The member of an object with a key.
    pub fn get(&self, key: &str) -> (r: Option<&Json>)
        ensures
            r is Some == (member(self@, key@) is Some),
            r matches Some(v) ==> member(self@, key@) == Some(v@),
    {
        broadcast use Json::lemma_tree;

        match self {
            Json::Object(o) => o.get(key),
            _ => None,
        }
    }

    /// What the step `0` of a JSON pointer leads to.
    pub fn first(&self) -> (r: Option<&Json>)
        ensures
            r is Some == (first_item(self@) is Some),
            r matches Some(v) ==> first_item(self@) == Some(v@),
    {
        broadcast use Json::lemma_tree;

        match self {
            Json::Object(o) => o.get("0"),
            Json::Array(items) => if items.len() > 0 {
                Some(&items[0])
            } else {
                None
            },
            _ => None,
        }
    }

    /// Whether this is `null`.
    pub fn is_null(&self) -> (r: bool)
        ensures
            r == (self@ == JsonTree::Null),
    {
        broadcast use Json::lemma_tree;

        match self {
            Json::Null => true,
            _ => false,
        }
    }

    /// The characters of a string value.
    pub fn as_str(&self) -> (r: Option<&str>)
        ensures
            r is Some == (string_of(self@) is Some),
            r matches Some(v) ==> string_of(self@) == Some(v@),
    {
        broadcast use Json::lemma_tree;

        match self {
            Json::String(s) => Some(s.as_str()),
            _ => None,
        }
    }

    /// The items of an array value.
    pub fn as_array(&self) -> (r: Option<&Vec<Json>>)
        ensures
            r is Some == (items_of(self@) is Some),
            r matches Some(v) ==> items_of(self@) == Some(trees(v@)),
    {
        broadcast use Json::lemma_tree;

        match self {
            Json::Array(items) => Some(items),
            _ => None,
        }
    }

    /// The members of an object value.
    pub fn as_object(&self) -> (r: Option<&Object>)
        ensures
            r is Some == (members_of(self@) is Some),
            r matches Some(v) ==> members_of(self@) == Some(v@),
    {
        broadcast use Json::lemma_tree;

        match self {
            Json::Object(o) => Some(o),
            _ => None,
        }
    }

    /// A number value read as a double.
    pub fn as_real(&self) -> (r: Option<Real>)
        ensures
            r is Some == (real_of(self@) is Some),
            r matches Some(v) ==> real_of(self@) == Some(v@),
    {
        broadcast use Json::lemma_tree;

        match self {
            Json::Number(n) => Some(Real::finite(n)),
            _ => None,
        }
    }

    /// A number value read in single precision.
    pub fn as_single(&self) -> (r: Option<Real>)
        ensures
            r is Some == (single_of(self@) is Some),
            r matches Some(v) ==> single_of(self@) == Some(v@),
    {
        broadcast use Json::lemma_tree;

        match self {
            Json::Number(n) => Some(Real::single(n)),
            _ => None,
        }
    }

    /// A number value that is an integer of zero or more.
    pub fn as_unsigned(&self) -> (r: Option<u64>)
        ensures
            r == unsigned_of(self@),
    {
        broadcast use Json::lemma_tree;

        match self {
            Json::Number(n) => match number::kind_of(n) {
                NumberKind::PosInt(v) => Some(v),
                _ => None,
            },
            _ => None,
        }
    }

    /// Whether two values are equal.
    pub fn equals(&self, other: &Json) -> (r: bool)
        ensures
            r == tree_eq(self@, other@),
        decreases self,
    {
        broadcast use Json::lemma_tree;

        match (self, other) {
            (Json::Null, Json::Null) => true,
            (Json::Bool(x), Json::Bool(y)) => *x == *y,
            (Json::Number(x), Json::Number(y)) => match (number::kind_of(x), number::kind_of(y)) {
                (NumberKind::PosInt(p), NumberKind::PosInt(q)) => p == q,
                (NumberKind::NegInt(p), NumberKind::NegInt(q)) => p == q,
                (NumberKind::Float(_), NumberKind::Float(_)) => Real::finite(x).equals(
                    &Real::finite(y),
                ),
                _ => false,
            },
            (Json::String(x), Json::String(y)) => text::same(x.as_str(), y.as_str()),
            (Json::Array(x), Json::Array(y)) => {
                if x.len() != y.len() {
                    return false;
                }
                let mut i: usize = 0;
                while i < x.len()
                    invariant
                        i <= x@.len(),
                        x@.len() == y@.len(),
                        *self == Json::Array(*x),
                        *other == Json::Array(*y),
                        self@ == JsonTree::Array(trees(x@)),
                        other@ == JsonTree::Array(trees(y@)),
                        forall|j: int|
                            0 <= j < i ==> tree_eq(#[trigger] trees(x@)[j], trees(y@)[j]),
                    decreases x@.len() - i,
                {
                    assert(trees(x@)[i as int] == x@[i as int]@);
                    if !x[i].equals(&y[i]) {
                        return false;
                    }
                    i += 1;
                }
                true
            },
            (Json::Object(x), Json::Object(y)) => x.equals(y),
            _ => false,
        }
    }
}

impl Object {
    /// Whether two objects are equal. The order of their members does not
    /// count.
    pub fn equals(&self, other: &Object) -> (r: bool)
        ensures
            r == members_eq(self@, other@),
        decreases self,
    {
        if self.entries.len() != other.entries.len() {
            return false;
        }
        let ghost a = JsonTree::Object(self@);
        let mut i: usize = 0;
        while i < self.entries.len()
            invariant
                i <= self.entries@.len(),
                self@.len() == other@.len(),
                a == JsonTree::Object(self@),
                forall|j: int|
                    0 <= j < i ==> {
                        let found = lookup(other@, (#[trigger] a->Object_0[j]).0);
                        found is Some && tree_eq(a->Object_0[j].1, found->0)
                    },
            decreases self.entries@.len() - i,
        {
            assert(a->Object_0[i as int] == self@[i as int]);
            match other.get(self.entries[i].0.as_str()) {
                Some(v) => {
                    if !self.entries[i].1.equals(v) {
                        return false;
                    }
                },
                None => {
                    return false;
                },
            }
            i += 1;
        }
        true
    }
}

impl Json {
    fn copied(&self) -> (r: Json)
        ensures
            r@ == self@,
        decreases self,
    {
        broadcast use Json::lemma_tree;

        match self {
            Json::Null => Json::Null,
            Json::Bool(b) => Json::Bool(*b),
            Json::Number(n) => Json::Number(number::copy_number(n)),
            Json::String(s) => Json::String(s.clone()),
            Json::Array(items) => {
                let mut out: Vec<Json> = Vec::new();
                let mut i: usize = 0;
                while i < items.len()
                    invariant
                        i <= items@.len(),
                        *self == Json::Array(*items),
                        out@.len() == i,
                        forall|j: int| 0 <= j < i ==> (#[trigger] out@[j])@ == items@[j]@,
                    decreases items@.len() - i,
                {
                    assert(decreases_to!(self => self->Array_0@[i as int]));
                    out.push(items[i].copied());
                    i += 1;
                }
                assert(trees(out@) =~= trees(items@));
                Json::Array(out)
            },
            Json::Object(o) => Json::Object(o.copied()),
        }
    }
}

impl Object {
    fn copied(&self) -> (r: Object)
        ensures
            r@ == self@,
        decreases self,
    {
        proof {
            use_type_invariant(self);
        }
        let mut out: Vec<(String, Json)> = Vec::new();
        let mut i: usize = 0;
        while i < self.entries.len()
            invariant
                i <= self.entries@.len(),
                out@.len() == i,
                forall|j: int|
                    0 <= j < i ==> (#[trigger] out@[j]).0@ == self.entries@[j].0@ && out@[j].1@
                        == self.entries@[j].1@,
            decreases self.entries@.len() - i,
        {
            out.push((self.entries[i].0.clone(), self.entries[i].1.copied()));
            i += 1;
        }
        let r = Object { entries: out };
        r
    }
}

impl Clone for Json {
    fn clone(&self) -> (r: Self)
        ensures
            r@ == self@,
    {
        self.copied()
    }
}

impl Clone for Object {
    fn clone(&self) -> (r: Self)
        ensures
            r@ == self@,
    {
        self.copied()
    }
}

impl Duplicate for Json {
    fn duplicate(&self) -> (r: Self) {
        self.copied()
    }
}

impl Duplicate for Object {
    fn duplicate(&self) -> (r: Self) {
        self.copied()
    }
}

impl vstd::std_specs::cmp::PartialEqSpecImpl for Json {
    open spec fn obeys_eq_spec() -> bool {
        true
    }

    open spec fn eq_spec(&self, other: &Json) -> bool {
        tree_eq(self@, other@)
    }
}

impl PartialEq for Json {
    fn eq(&self, other: &Json) -> (r: bool) {
        self.equals(other)
    }
}

impl vstd::std_specs::cmp::PartialEqSpecImpl for Object {
    open spec fn obeys_eq_spec() -> bool {
        true
    }

    open spec fn eq_spec(&self, other: &Object) -> bool {
        members_eq(self@, other@)
    }
}

impl PartialEq for Object {
    fn eq(&self, other: &Object) -> (r: bool) {
        self.equals(other)
    }
}

/// The members that some pairs of a key and a value are.
pub open spec fn entry_trees(entries: Seq<(&str, Json)>) -> Seq<(Seq<char>, JsonTree)> {
    entries.map_values(|e: (&str, Json)| (e.0@, e.1@))
}

/// The object with these members, no two of which have the same key.
pub(crate) fn object(entries: Vec<(&str, Json)>) -> (r: Json)
    requires
        distinct_keys(entry_trees(entries@)),
    ensures
        r@ == JsonTree::Object(entry_trees(entries@)),
{
    broadcast use Json::lemma_tree;

    let ghost start = entries@;
    let ghost all = entry_trees(start);
    let mut out = Object::new();
    for entry in it: entries
        invariant
            it.seq() == start,
            all == entry_trees(start),
            distinct_keys(all),
            out@ == all.take(it.index() as int),
    {
        proof {
            let i = it.index() as int;
            assert(all[i] == (entry.0@, entry.1@));
        }
        out.put_new(entry.0, entry.1);
    }
    assert(all.take(all.len() as int) =~= all);
    Json::Object(out)
}

/// A member of an object is found by its key.
pub proof fn law_member_is_found_by_its_key<T>(s: Seq<(Seq<char>, T)>, i: int)
    requires
        distinct_keys(s),
        0 <= i < s.len(),
    ensures
        lookup(s, s[i].0) == Some(s[i].1),
{
    lemma_find_entry(s, s[i].0, i);
}

/// Putting a value keeps the keys of an object distinct, and every key where it
/// stood; a new one comes last.
pub proof fn law_member_keeps_its_place<T>(s: Seq<(Seq<char>, T)>, key: Seq<char>, value: T)
    requires
        distinct_keys(s),
    ensures
        distinct_keys(with_member(s, key, value)),
        forall|i: int|
            0 <= i < s.len() ==> (#[trigger] with_member(s, key, value)[i]).0 == s[i].0,
        lookup(s, key) is None ==> with_member(s, key, value) == s.push((key, value)),
        lookup(s, key) is Some ==> with_member(s, key, value).len() == s.len(),
{
    lemma_found_entry(s, key);
}

/// What a value of each type is read as: nothing but a string has characters,
/// nothing but an array items, nothing but an object members, nothing but a
/// number a double, and nothing but an integer from zero up a count.
pub proof fn law_values_are_read_by_their_type(tree: JsonTree, key: Seq<char>, n: u64)
    ensures
        string_of(tree) == match tree {
            JsonTree::String(s) => Some(s),
            _ => None,
        },
        items_of(tree) is Some <==> tree is Array,
        tree matches JsonTree::Array(items) ==> items_of(tree) == Some(items),
        members_of(tree) is Some <==> tree is Object,
        tree matches JsonTree::Object(members) ==> members_of(tree) == Some(members) && member(
            tree,
            key,
        ) == lookup(members, key),
        !(tree is Object) ==> member(tree, key) is None,
        real_of(tree) is Some <==> tree is Number,
        tree matches JsonTree::Number(kind) ==> real_of(tree) == Some(real_bits(kind)) && single_of(
            tree,
        ) == Some(single_bits(kind)),
        single_of(tree) is Some <==> tree is Number,
        unsigned_of(tree) == Some(n) <==> tree == JsonTree::Number(NumberKind::PosInt(n)),
{
}

/// The first item of an array is what its place `0` leads to, and in an object
/// the member of that name.
pub proof fn law_first_item(tree: JsonTree)
    ensures
        tree matches JsonTree::Array(items) ==> items.len() > 0 ==> first_item(tree) == Some(
            items[0],
        ),
        tree matches JsonTree::Array(items) ==> items.len() == 0 ==> first_item(tree) is None,
        tree matches JsonTree::Object(members) ==> first_item(tree) == lookup(members, "0"@),
        !(tree is Array) && !(tree is Object) ==> first_item(tree) is None,
{
}

/// A finite double is written as itself and read back as itself; an infinity
/// and a NaN are written as `null`.
pub proof fn law_double_is_read_back(bits: u64)
    ensures
        crate::number::is_finite_bits(bits) ==> real_tree(bits) == JsonTree::Number(
            NumberKind::Float(bits),
        ) && real_of(real_tree(bits)) == Some(bits),
        !crate::number::is_finite_bits(bits) ==> real_tree(bits) is Null,
{
}

/// Values are equal where they are of one type and hold the same: arrays item
/// by item, objects key by key in whatever order, integers as integers and
/// doubles as doubles.
pub proof fn law_values_are_equal_where_they_hold_the_same(a: JsonTree, b: JsonTree)
    ensures
        a is Null && b is Null ==> tree_eq(a, b),
        a matches JsonTree::Bool(x) ==> (b matches JsonTree::Bool(y) ==> tree_eq(a, b) == (x == y)),
        a matches JsonTree::String(x) ==> (b matches JsonTree::String(y) ==> tree_eq(a, b) == (x
            == y)),
        a matches JsonTree::Number(x) ==> (b matches JsonTree::Number(y) ==> {
            &&& x matches NumberKind::PosInt(m) ==> (tree_eq(a, b) <==> y == NumberKind::PosInt(m))
            &&& x matches NumberKind::NegInt(m) ==> (tree_eq(a, b) <==> y == NumberKind::NegInt(m))
            &&& x matches NumberKind::Float(m) ==> (tree_eq(a, b) <==> (y
                matches NumberKind::Float(n) && real_eq(m, n)))
        }),
        a matches JsonTree::Array(x) ==> (b matches JsonTree::Array(y) ==> (tree_eq(a, b) <==> {
            &&& x.len() == y.len()
            &&& forall|i: int| 0 <= i < x.len() ==> tree_eq(#[trigger] x[i], y[i])
        })),
        a matches JsonTree::Object(x) ==> (b matches JsonTree::Object(y) ==> {
            &&& members_eq(x, y) == tree_eq(a, b)
            &&& tree_eq(a, b) <==> {
                &&& x.len() == y.len()
                &&& forall|i: int|
                    0 <= i < x.len() ==> {
                        &&& lookup(y, (#[trigger] x[i]).0) is Some
                        &&& tree_eq(x[i].1, lookup(y, x[i].0)->0)
                    }
            }
        }),
        a is Null != b is Null ==> !tree_eq(a, b),
        a is Bool != b is Bool ==> !tree_eq(a, b),
        a is String != b is String ==> !tree_eq(a, b),
        a is Number != b is Number ==> !tree_eq(a, b),
        a is Array != b is Array ==> !tree_eq(a, b),
        a is Object != b is Object ==> !tree_eq(a, b),
{
}

/// `==` on values and on objects is their equality.
pub proof fn law_equality_is_that_of_the_trees(a: Json, b: Json, x: Object, y: Object)
    ensures
        a.eq_spec(&b) == tree_eq(a@, b@),
        x.eq_spec(&y) == tree_eq(JsonTree::Object(x@), JsonTree::Object(y@)),
        trees(seq![a, b]) == seq![a@, b@],
{
    assert(trees(seq![a, b]) =~= seq![a@, b@]);
}

/// A value equals itself unless it holds a NaN, which no JSON text does.
pub proof fn law_value_equals_itself(tree: JsonTree)
    requires
        sound(tree),
    ensures
        tree_eq(tree, tree),
    decreases tree,
{
    match tree {
        JsonTree::Array(items) => {
            assert forall|i: int| 0 <= i < items.len() implies tree_eq(
                #[trigger] tree->Array_0[i],
                items[i],
            ) by {
                law_value_equals_itself(tree->Array_0[i]);
            }
        },
        JsonTree::Object(members) => {
            assert forall|i: int| 0 <= i < members.len() implies {
                let other = lookup(members, (#[trigger] tree->Object_0[i]).0);
                other is Some && tree_eq(tree->Object_0[i].1, other->0)
            } by {
                law_member_is_found_by_its_key(members, i);
                law_value_equals_itself(tree->Object_0[i].1);
            }
        },
        _ => {},
    }
}

/// Whether no object in a value has a key twice, and no number in it is a NaN.
pub open spec fn sound(tree: JsonTree) -> bool
    decreases tree,
{
    match tree {
        JsonTree::Number(NumberKind::Float(bits)) => !number::is_nan_bits(bits),
        JsonTree::Array(items) => forall|i: int|
            0 <= i < items.len() ==> sound(#[trigger] tree->Array_0[i]),
        JsonTree::Object(members) => distinct_keys(members) && forall|i: int|
            0 <= i < members.len() ==> sound((#[trigger] tree->Object_0[i]).1),
        _ => true,
    }
}

} // verus!
