//! JSON values as plain data, and the way between them and `serde_json`.
//!
//! The rest of the library reads and builds [`Json`] values. Reading JSON text and
//! writing it is `serde_json`'s work: [`parse_str`], [`parse_slice`] and
//! [`to_bytes`] hand the data over and take it back.

use crate::text::{
    chars_of, decimal, law_written_once, law_written_reads_back, lemma_decimal_digits, parse_u64,
    written,
};
use vstd::prelude::*;

verus! {

/// A JSON value.
///
/// An object is the list of its fields. Where a key stands more than once, the
/// last one counts.
#[derive(Debug)]
pub enum Json {
    Null,
    Bool(bool),
    /// A number that is an integer from zero to `u64::MAX`.
    Natural(u64),
    /// A number as `serde_json` holds it.
    Number(serde_json::Number),
    Text(String),
    Array(Vec<Json>),
    Object(Vec<(String, Json)>),
}

/// What a JSON value is: two values are the same JSON where their trees are equal.
pub enum Tree {
    Null,
    Bool(bool),
    /// An integer from zero to `u64::MAX`.
    Natural(u64),
    /// Any other number.
    Number(serde_json::Number),
    Text(Seq<char>),
    Array(Seq<Tree>),
    Object(Map<Seq<char>, Tree>),
}

impl View for Json {
    type V = Tree;

    open spec fn view(&self) -> Tree {
        tree_of(*self)
    }
}

/// The tree of a value.
pub open spec fn tree_of(j: Json) -> Tree
    decreases j,
{
    match j {
        Json::Null => Tree::Null,
        Json::Bool(b) => Tree::Bool(b),
        Json::Natural(n) => Tree::Natural(n),
        Json::Number(n) => number_tree(n),
        Json::Text(s) => Tree::Text(s@),
        Json::Array(items) => Tree::Array(trees_of(items@)),
        Json::Object(fields) => Tree::Object(fields_of(fields@)),
    }
}

/// The trees of a list of values, in order.
pub open spec fn trees_of(items: Seq<Json>) -> Seq<Tree>
    decreases items,
{
    if items.len() == 0 {
        Seq::empty()
    } else {
        trees_of(items.drop_last()).push(tree_of(items.last()))
    }
}

/// The fields of an object, a later one over an earlier one of the same key.
pub open spec fn fields_of(fields: Seq<(String, Json)>) -> Map<Seq<char>, Tree>
    decreases fields,
{
    if fields.len() == 0 {
        Map::empty()
    } else {
        fields_of(fields.drop_last()).insert(fields.last().0@, tree_of(fields.last().1))
    }
}

/// The tree of a number: an integer from zero to `u64::MAX` is a natural, and any
/// other number stands for itself.
pub open spec fn number_tree(n: serde_json::Number) -> Tree {
    match number_natural(n) {
        Some(u) => Tree::Natural(u),
        None => Tree::Number(n),
    }
}

/// The field of an object, `None` where there is no such field or no object.
pub open spec fn tree_get(t: Tree, key: Seq<char>) -> Option<Tree> {
    match t {
        Tree::Object(fields) => if fields.contains_key(key) {
            Some(fields[key])
        } else {
            None
        },
        _ => None,
    }
}

/// The place in an array that a path's token names: a decimal number without a
/// sign and without a zero before other digits.
pub open spec fn array_place(token: Seq<char>) -> Option<nat> {
    if token.len() > 1 && token.first() == '0' {
        None
    } else {
        decimal(token)
    }
}

/// The child that a path's token names: a field of an object by its key, an item of
/// an array by its place.
pub open spec fn tree_child(t: Tree, token: Seq<char>) -> Option<Tree> {
    match t {
        Tree::Array(items) => match array_place(token) {
            Some(i) if i < items.len() => Some(items[i as int]),
            _ => None,
        },
        _ => tree_get(t, token),
    }
}

/// What a path of tokens leads to.
pub open spec fn tree_at(t: Tree, path: Seq<Seq<char>>) -> Option<Tree>
    decreases path.len(),
{
    if path.len() == 0 {
        Some(t)
    } else {
        match tree_at(t, path.drop_last()) {
            Some(parent) => tree_child(parent, path.last()),
            None => None,
        }
    }
}

/// The text that an optional tree is.
pub open spec fn tree_text(t: Option<Tree>) -> Option<Seq<char>> {
    match t {
        Some(Tree::Text(s)) => Some(s),
        _ => None,
    }
}

/// The natural number that an optional tree is.
pub open spec fn tree_natural(t: Option<Tree>) -> Option<u64> {
    match t {
        Some(Tree::Natural(n)) => Some(n),
        _ => None,
    }
}

/// The tree of an optional value.
pub open spec fn found(o: Option<&Json>) -> Option<Tree> {
    match o {
        Some(j) => Some(j@),
        None => None,
    }
}

/// The views of a list of strings.
pub open spec fn tokens(path: Seq<&str>) -> Seq<Seq<char>> {
    path.map_values(|s: &str| s@)
}

/// The trees of a list are those of its items, one by one.
pub proof fn lemma_trees_of(items: Seq<Json>)
    ensures
        trees_of(items).len() == items.len(),
        forall|i: int|
            0 <= i < items.len() ==> #[trigger] trees_of(items)[i] == tree_of(items[i]),
    decreases items.len(),
{
    if items.len() > 0 {
        lemma_trees_of(items.drop_last());
        assert forall|i: int| 0 <= i < items.len() implies #[trigger] trees_of(items)[i] == tree_of(
            items[i],
        ) by {
            if i < items.len() - 1 {
                assert(trees_of(items.drop_last())[i] == tree_of(items.drop_last()[i]));
            }
        }
    }
}

/// A path whose start leads nowhere leads nowhere.
proof fn lemma_tree_at_lost(t: Tree, path: Seq<Seq<char>>, k: int)
    requires
        0 <= k <= path.len(),
        tree_at(t, path.take(k)) is None,
    ensures
        tree_at(t, path) is None,
    decreases path.len(),
{
    if k == path.len() {
        assert(path.take(k) == path);
    } else {
        assert(path.drop_last().take(k) == path.take(k));
        lemma_tree_at_lost(t, path.drop_last(), k);
    }
}

impl Json {
    /// The field of an object.
    pub fn get(&self, key: &str) -> (r: Option<&Json>)
        ensures
            found(r) == tree_get(self@, key@),
    {
        match self {
            Json::Object(fields) => {
                let k = key.to_owned();
                let mut i: usize = fields.len();
                assert(fields@.take(i as int) == fields@);
                while i > 0
                    invariant
                        i <= fields@.len(),
                        k@ == key@,
                        *self == Json::Object(*fields),
                        tree_get(Tree::Object(fields_of(fields@)), key@) == tree_get(
                            Tree::Object(fields_of(fields@.take(i as int))),
                            key@,
                        ),
                    decreases i,
                {
                    i -= 1;
                    assert(fields@.take(i + 1).drop_last() == fields@.take(i as int));
                    if fields[i].0 == k {
                        return Some(&fields[i].1);
                    }
                }
                None
            },
            _ => None,
        }
    }

    /// The child that a path's token names.
    fn child(&self, token: &str) -> (r: Option<&Json>)
        ensures
            found(r) == tree_child(self@, token@),
    {
        match self {
            Json::Array(items) => {
                proof {
                    lemma_trees_of(items@);
                    lemma_decimal_digits(token@);
                }
                let t = chars_of(token);
                let len: usize = items.len();
                if t.len() == 0 || t[0] == '+' || (t[0] == '0' && t.len() != 1) {
                    return None;
                }
                match parse_u64(t.as_slice()) {
                    Some(n) if n < len as u64 => Some(&items[n as usize]),
                    _ => None,
                }
            },
            _ => self.get(token),
        }
    }

    /// What a path of tokens leads to.
    pub fn at(&self, path: &[&str]) -> (r: Option<&Json>)
        ensures
            found(r) == tree_at(self@, tokens(path@)),
    {
        let mut here: &Json = self;
        let mut i: usize = 0;
        while i < path.len()
            invariant
                i <= path@.len(),
                tree_at(self@, tokens(path@.take(i as int))) == Some(here@),
            decreases path@.len() - i,
        {
            assert(tokens(path@.take(i + 1)).drop_last() =~= tokens(path@.take(i as int)));
            match here.child(path[i]) {
                Some(next) => {
                    here = next;
                },
                None => {
                    proof {
                        assert(tokens(path@).take(i + 1) =~= tokens(path@.take(i + 1)));
                        lemma_tree_at_lost(self@, tokens(path@), i + 1);
                    }
                    return None;
                },
            }
            i += 1;
        }
        assert(path@.take(path@.len() as int) == path@);
        Some(here)
    }

    /// The text of a string value.
    pub fn as_str(&self) -> (r: Option<&String>)
        ensures
            match r {
                Some(s) => tree_text(Some(self@)) == Some(s@),
                None => tree_text(Some(self@)) is None,
            },
    {
        match self {
            Json::Text(s) => Some(s),
            _ => None,
        }
    }

    /// The value of a number that is an integer from zero to `u64::MAX`.
    pub fn as_u64(&self) -> (r: Option<u64>)
        ensures
            r == tree_natural(Some(self@)),
    {
        match self {
            Json::Natural(n) => Some(*n),
            Json::Number(n) => number_as_u64(n),
            _ => None,
        }
    }

    /// The items of an array.
    pub fn as_array(&self) -> (r: Option<&Vec<Json>>)
        ensures
            match r {
                Some(items) => self@ == Tree::Array(trees_of(items@)),
                None => !(self@ is Array),
            },
    {
        match self {
            Json::Array(items) => Some(items),
            _ => None,
        }
    }
}

/// `serde_json::Number`, whose inside is not looked at.
#[verifier::external_type_specification]
#[verifier::external_body]
pub struct ExNumber(serde_json::Number);

/// `serde_json::Value`, whose inside is named by [`value_tree`].
#[verifier::external_type_specification]
#[verifier::external_body]
pub struct ExValue(serde_json::Value);

/// `serde_json::Error`, of which [`error_message`] names what it says.
#[verifier::external_type_specification]
#[verifier::external_body]
pub struct ExError(serde_json::Error);

/// `serde_json::Map`, whose fields are named by [`map_fields`].
#[verifier::external_type_specification]
#[verifier::external_body]
#[verifier::reject_recursive_types(K)]
#[verifier::reject_recursive_types(V)]
pub struct ExMap<K, V>(serde_json::Map<K, V>);

/// The integer from zero to `u64::MAX` that a number is, if it is one. A number that
/// is held as a float, such as 5.0, is none.
pub uninterp spec fn number_natural(n: serde_json::Number) -> Option<u64>;

/// What a `serde_json` value holds.
pub uninterp spec fn value_tree(v: serde_json::Value) -> Tree;

/// What a `serde_json` object holds.
pub uninterp spec fn map_fields(m: serde_json::Map<String, serde_json::Value>) -> Map<Seq<char>, Tree>;

/// The value that a JSON text writes, `None` where the text is no JSON.
pub uninterp spec fn text_tree(s: Seq<char>) -> Option<Tree>;

/// The value that JSON bytes write, or what the error says where the bytes are no
/// JSON.
pub uninterp spec fn bytes_read(b: Seq<u8>) -> Result<Tree, Seq<char>>;

/// What an error of `serde_json` says.
pub uninterp spec fn error_message(e: serde_json::Error) -> Seq<char>;

/// The bytes that write a value.
pub uninterp spec fn tree_bytes(t: Tree) -> Seq<u8>;

/// One level of a `serde_json` value.
enum Node {
    Null,
    Bool(bool),
    Number(serde_json::Number),
    Text(String),
    Array(Vec<serde_json::Value>),
    Object(serde_json::Map<String, serde_json::Value>),
}

/// The trees of a list of `serde_json` values.
spec fn value_trees(items: Seq<serde_json::Value>) -> Seq<Tree> {
    items.map_values(|v: serde_json::Value| value_tree(v))
}

/// The fields that a list of entries makes, a later one over an earlier one of the
/// same key.
spec fn entry_fields(entries: Seq<(String, serde_json::Value)>) -> Map<Seq<char>, Tree>
    decreases entries.len(),
{
    if entries.len() == 0 {
        Map::empty()
    } else {
        entry_fields(entries.drop_last()).insert(
            entries.last().0@,
            value_tree(entries.last().1),
        )
    }
}

/// What one level of a value stands for.
spec fn node_tree(node: Node) -> Tree {
    match node {
        Node::Null => Tree::Null,
        Node::Bool(b) => Tree::Bool(b),
        Node::Number(n) => number_tree(n),
        Node::Text(s) => Tree::Text(s@),
        Node::Array(items) => Tree::Array(value_trees(items@)),
        Node::Object(map) => Tree::Object(map_fields(map)),
    }
}

/// `serde_json::Number::as_u64`: the integer from zero to `u64::MAX` that the number
/// is, and `None` for a negative number or one that is held as a float, though it be
/// 5.0.
#[verifier::external_body]
fn number_as_u64(n: &serde_json::Number) -> (r: Option<u64>)
    ensures
        r == number_natural(*n),
{
    n.as_u64()
}

/// `serde_json::Number::from` on a `u64`: the number that is this integer.
#[verifier::external_body]
fn number_from_u64(n: u64) -> (r: serde_json::Number)
    ensures
        number_natural(r) == Some(n),
{
    serde_json::Number::from(n)
}

/// Takes a `serde_json::Value` apart by one level: each variant hands its contents
/// over as they are.
#[verifier::external_body]
fn open_value(v: serde_json::Value) -> (r: Node)
    ensures
        node_tree(r) == value_tree(v),
{
    match v {
        serde_json::Value::Null => Node::Null,
        serde_json::Value::Bool(b) => Node::Bool(b),
        serde_json::Value::Number(n) => Node::Number(n),
        serde_json::Value::String(s) => Node::Text(s),
        serde_json::Value::Array(items) => Node::Array(items),
        serde_json::Value::Object(map) => Node::Object(map),
    }
}

/// Puts a `serde_json::Value` together from one level: each variant takes its
/// contents as they are.
#[verifier::external_body]
fn close_value(node: Node) -> (r: serde_json::Value)
    ensures
        value_tree(r) == node_tree(node),
{
    match node {
        Node::Null => serde_json::Value::Null,
        Node::Bool(b) => serde_json::Value::Bool(b),
        Node::Number(n) => serde_json::Value::Number(n),
        Node::Text(s) => serde_json::Value::String(s),
        Node::Array(items) => serde_json::Value::Array(items),
        Node::Object(map) => serde_json::Value::Object(map),
    }
}

/// `serde_json::Map::new`: an object without fields.
#[verifier::external_body]
fn map_new() -> (r: serde_json::Map<String, serde_json::Value>)
    ensures
        map_fields(r) == entry_fields(Seq::empty()),
{
    serde_json::Map::new()
}

/// `serde_json::Map::insert`: sets the field of this key, whether or not the object
/// had one, and leaves the others.
#[verifier::external_body]
fn map_insert(map: &mut serde_json::Map<String, serde_json::Value>, k: String, v: serde_json::Value)
    ensures
        map_fields(*final(map)) == map_fields(*old(map)).insert(k@, value_tree(v)),
{
    map.insert(k, v);
}

/// `serde_json::Map::into_iter`: each field of the object once, with its key. The
/// order of the entries is left unsaid.
#[verifier::external_body]
fn map_entries(map: serde_json::Map<String, serde_json::Value>) -> (r: Vec<
    (String, serde_json::Value),
>)
    ensures
        entry_fields(r@) == map_fields(map),
        forall|i: int, j: int| 0 <= i < j < r@.len() ==> r@[i].0@ != r@[j].0@,
{
    map.into_iter().collect()
}

/// `serde_json::from_str` to a `serde_json::Value`: whether the text is JSON, and the
/// value that it writes, depend on the text alone.
#[verifier::external_body]
fn from_str(s: &str) -> (r: Result<serde_json::Value, serde_json::Error>)
    ensures
        r is Ok <==> text_tree(s@) is Some,
        r matches Ok(v) ==> text_tree(s@) == Some(value_tree(v)),
{
    serde_json::from_str(s)
}

/// What reading gave: the value, or what the error says.
spec fn outcome_of(r: Result<serde_json::Value, serde_json::Error>) -> Result<Tree, Seq<char>> {
    match r {
        Ok(v) => Ok(value_tree(v)),
        Err(e) => Err(error_message(e)),
    }
}

/// `serde_json::from_slice` to a `serde_json::Value`: whether the bytes are JSON, the
/// value that they write, and what the error says where they are none, depend on the
/// bytes alone.
#[verifier::external_body]
fn from_slice(b: &[u8]) -> (r: Result<serde_json::Value, serde_json::Error>)
    ensures
        outcome_of(r) == bytes_read(b@),
{
    serde_json::from_slice(b)
}

/// `serde_json::Error`'s `to_string`: what the error says.
#[verifier::external_body]
fn error_string(e: &serde_json::Error) -> (r: String)
    ensures
        r@ == error_message(*e),
{
    e.to_string()
}

/// `serde_json::to_vec` of a `serde_json::Value`: it succeeds, since a value has no
/// keys but strings and the bytes go to a `Vec`, and the bytes depend on what the
/// value holds alone, since the crate is built without its feature that keeps fields
/// in the order in which they came.
#[verifier::external_body]
fn to_vec(v: &serde_json::Value) -> (r: Result<Vec<u8>, serde_json::Error>)
    ensures
        r is Ok,
        r matches Ok(b) ==> b@ == tree_bytes(value_tree(*v)),
{
    serde_json::to_vec(v)
}

/// Where no key stands twice, the entries are the fields.
proof fn lemma_entry_fields(entries: Seq<(String, serde_json::Value)>)
    requires
        forall|i: int, j: int| 0 <= i < j < entries.len() ==> entries[i].0@ != entries[j].0@,
    ensures
        entry_fields(entries).dom().finite(),
        forall|k: Seq<char>| #[trigger]
            entry_fields(entries).contains_key(k) ==> exists|i: int|
                0 <= i < entries.len() && #[trigger] entries[i].0@ == k,
        forall|i: int|
            0 <= i < entries.len() ==> entry_fields(entries).contains_key(#[trigger] entries[i].0@)
                && entry_fields(entries)[entries[i].0@] == value_tree(entries[i].1),
    decreases entries.len(),
{
    if entries.len() > 0 {
        let front = entries.drop_last();
        lemma_entry_fields(front);
        assert forall|k: Seq<char>| #[trigger]
            entry_fields(entries).contains_key(k) implies exists|i: int|
            0 <= i < entries.len() && #[trigger] entries[i].0@ == k by {
            if k != entries.last().0@ {
                assert(entry_fields(front).contains_key(k));
                let i = choose|i: int| 0 <= i < front.len() && #[trigger] front[i].0@ == k;
                assert(entries[i].0@ == k);
            } else {
                assert(entries[entries.len() - 1].0@ == k);
            }
        }
        assert forall|i: int| 0 <= i < entries.len() implies entry_fields(entries).contains_key(
            #[trigger] entries[i].0@,
        ) && entry_fields(entries)[entries[i].0@] == value_tree(entries[i].1) by {
            if i < entries.len() - 1 {
                assert(front[i] == entries[i]);
                assert(entries[i].0@ != entries[entries.len() - 1].0@);
            }
        }
    }
}

/// The plain data that a `serde_json::Value` holds.
fn json_of(v: serde_json::Value) -> (r: Json)
    ensures
        r@ == value_tree(v),
    decreases value_tree(v),
{
    match open_value(v) {
        Node::Null => Json::Null,
        Node::Bool(b) => Json::Bool(b),
        Node::Number(n) => Json::Number(n),
        Node::Text(s) => Json::Text(s),
        Node::Array(items) => {
            let ghost all = items@;
            let mut out: Vec<Json> = Vec::new();
            for item in it: items
                invariant
                    it.seq() == all,
                    value_tree(v) == Tree::Array(value_trees(all)),
                    trees_of(out@) == value_trees(all.take(it.index() as int)),
            {
                let ghost k = it.index();
                let ghost before = out@;
                assert(value_trees(all)[k as int] == value_tree(item));
                assert(decreases_to!(value_tree(v)->Array_0 => value_tree(v)->Array_0[k as int]));
                out.push(json_of(item));
                assert(out@.drop_last() == before);
                assert(trees_of(out@) =~= value_trees(all.take(k + 1)));
            }
            assert(all.take(all.len() as int) == all);
            Json::Array(out)
        },
        Node::Object(map) => {
            let entries = map_entries(map);
            let ghost all = entries@;
            proof {
                lemma_entry_fields(all);
            }
            let mut out: Vec<(String, Json)> = Vec::new();
            for entry in it: entries
                invariant
                    it.seq() == all,
                    value_tree(v) == Tree::Object(entry_fields(all)),
                    entry_fields(all).dom().finite(),
                    forall|i: int|
                        0 <= i < all.len() ==> entry_fields(all).contains_key(
                            #[trigger] all[i].0@,
                        ) && entry_fields(all)[all[i].0@] == value_tree(all[i].1),
                    fields_of(out@) == entry_fields(all.take(it.index() as int)),
            {
                let ghost k = it.index();
                let ghost before = out@;
                assert(entry == all[k as int]);
                assert(decreases_to!(value_tree(v)->Object_0 => value_tree(v)->Object_0[entry.0@]));
                out.push((entry.0, json_of(entry.1)));
                assert(out@.drop_last() == before);
                assert(all.take(k + 1).drop_last() == all.take(k as int));
            }
            assert(all.take(all.len() as int) == all);
            Json::Object(out)
        },
    }
}

/// The `serde_json::Value` that holds the plain data.
fn value_of(j: Json) -> (r: serde_json::Value)
    ensures
        value_tree(r) == j@,
    decreases j,
{
    match j {
        Json::Null => close_value(Node::Null),
        Json::Bool(b) => close_value(Node::Bool(b)),
        Json::Natural(n) => close_value(Node::Number(number_from_u64(n))),
        Json::Number(n) => close_value(Node::Number(n)),
        Json::Text(s) => close_value(Node::Text(s)),
        Json::Array(items) => {
            let ghost all = items@;
            let mut out: Vec<serde_json::Value> = Vec::new();
            for item in it: items
                invariant
                    it.seq() == all,
                    j == Json::Array(items),
                    items@ == all,
                    value_trees(out@) == trees_of(all.take(it.index() as int)),
            {
                let ghost k = it.index();
                assert(item == items@[k as int]);
                assert(decreases_to!(j => j->Array_0));
                assert(decreases_to!(items@ => items@[k as int]));
                out.push(value_of(item));
                assert(all.take(k + 1).drop_last() == all.take(k as int));
                assert(value_trees(out@) =~= trees_of(all.take(k + 1)));
            }
            assert(all.take(all.len() as int) == all);
            close_value(Node::Array(out))
        },
        Json::Object(fields) => {
            let ghost all = fields@;
            let mut out = map_new();
            for field in it: fields
                invariant
                    it.seq() == all,
                    j == Json::Object(fields),
                    fields@ == all,
                    map_fields(out) == fields_of(all.take(it.index() as int)),
            {
                let ghost k = it.index();
                assert(field == fields@[k as int]);
                assert(decreases_to!(j => j->Object_0));
                assert(decreases_to!(fields@ => fields@[k as int]));
                map_insert(&mut out, field.0, value_of(field.1));
                assert(all.take(k + 1).drop_last() == all.take(k as int));
            }
            assert(all.take(all.len() as int) == all);
            close_value(Node::Object(out))
        },
    }
}

/// Reads a JSON text; `None` where it is no JSON.
pub fn parse_str(s: &str) -> (r: Option<Json>)
    ensures
        match r {
            Some(j) => text_tree(s@) == Some(j@),
            None => text_tree(s@) is None,
        },
{
    match from_str(s) {
        Ok(v) => Some(json_of(v)),
        Err(_) => None,
    }
}

/// Reads JSON bytes; where they are no JSON, says why.
pub fn parse_slice(b: &[u8]) -> (r: Result<Json, String>)
    ensures
        match bytes_read(b@) {
            Ok(t) => r is Ok && r->Ok_0@ == t,
            Err(message) => r is Err && r->Err_0@ == message,
        },
{
    match from_slice(b) {
        Ok(v) => Ok(json_of(v)),
        Err(e) => Err(error_string(&e)),
    }
}

/// Writes a value as JSON. Every value can be written; `Err` would hold what an error
/// of the writer says.
pub fn to_bytes(j: Json) -> (r: Result<Vec<u8>, String>)
    ensures
        r is Ok,
        r->Ok_0@ == tree_bytes(j@),
{
    match to_vec(&value_of(j)) {
        Ok(b) => Ok(b),
        Err(e) => Err(error_string(&e)),
    }
}

// -- Laws --

/// A field is what an object holds under its key. Where it holds nothing there, and in
/// whatever is no object, there is none.
pub proof fn law_get(fields: Map<Seq<char>, Tree>, t: Tree, key: Seq<char>)
    ensures
        fields.contains_key(key) ==> tree_get(Tree::Object(fields), key) == Some(fields[key]),
        !fields.contains_key(key) ==> tree_get(Tree::Object(fields), key) is None,
        !(t is Object) ==> tree_get(t, key) is None,
{
}

/// The text of a text is the text itself, and the number of a natural the number; of
/// anything else there is none.
pub proof fn law_scalars(s: Seq<char>, n: u64, t: Option<Tree>)
    ensures
        tree_text(Some(Tree::Text(s))) == Some(s),
        tree_natural(Some(Tree::Natural(n))) == Some(n),
        t is None || !(t->0 is Text) ==> tree_text(t) is None,
        t is None || !(t->0 is Natural) ==> tree_natural(t) is None,
{
}

/// A path is followed from its first token on.
proof fn lemma_path_from_front(t: Tree, token: Seq<char>, path: Seq<Seq<char>>)
    ensures
        tree_at(t, seq![token] + path) == match tree_child(t, token) {
            Some(child) => tree_at(child, path),
            None => None,
        },
    decreases path.len(),
{
    let whole = seq![token] + path;
    if path.len() == 0 {
        assert(whole.drop_last() =~= Seq::<Seq<char>>::empty());
        assert(whole.last() == token);
    } else {
        assert(whole.drop_last() =~= seq![token] + path.drop_last());
        assert(whole.last() == path.last());
        lemma_path_from_front(t, token, path.drop_last());
    }
}

/// The token that names a place in an array is the place, written in decimal digits.
proof fn lemma_array_place(token: Seq<char>, i: nat)
    ensures
        array_place(token) == Some(i) <==> token == written(i),
{
    law_written_reads_back(i);
    law_written_once(token, i);
}

/// An empty path leads to where it starts. Through an object a path goes by its first
/// token as a key, and leads nowhere where there is no such key.
pub proof fn law_path_through_object(
    t: Tree,
    fields: Map<Seq<char>, Tree>,
    key: Seq<char>,
    path: Seq<Seq<char>>,
)
    ensures
        tree_at(t, Seq::empty()) == Some(t),
        fields.contains_key(key) ==> tree_at(Tree::Object(fields), seq![key] + path) == tree_at(
            fields[key],
            path,
        ),
        !fields.contains_key(key) ==> tree_at(Tree::Object(fields), seq![key] + path) is None,
{
    lemma_path_from_front(Tree::Object(fields), key, path);
}

/// Through an array a path goes by its first token as a place, counted from zero and
/// written in decimal digits. Any other token leads nowhere, and so does every token
/// where there is neither an object nor an array.
pub proof fn law_path_through_array(
    items: Seq<Tree>,
    i: nat,
    t: Tree,
    token: Seq<char>,
    path: Seq<Seq<char>>,
)
    ensures
        i < items.len() ==> tree_at(Tree::Array(items), seq![written(i)] + path) == tree_at(
            items[i as int],
            path,
        ),
        (forall|k: nat| k < items.len() ==> token != #[trigger] written(k)) ==> tree_at(
            Tree::Array(items),
            seq![token] + path,
        ) is None,
        !(t is Object) && !(t is Array) ==> tree_at(t, seq![token] + path) is None,
{
    lemma_path_from_front(Tree::Array(items), written(i), path);
    lemma_array_place(written(i), i);
    lemma_path_from_front(Tree::Array(items), token, path);
    if let Some(k) = array_place(token) {
        lemma_array_place(token, k);
    }
    lemma_path_from_front(t, token, path);
}

/// What a value is, kind by kind: the same constant, the same number, the same text, the
/// items in their order, and the fields.
pub proof fn law_value(b: bool, n: u64, s: String, items: Vec<Json>, fields: Vec<(String, Json)>)
    ensures
        Json::Null@ == Tree::Null,
        Json::Bool(b)@ == Tree::Bool(b),
        Json::Natural(n)@ == Tree::Natural(n),
        Json::Text(s)@ == Tree::Text(s@),
        Json::Array(items)@ matches Tree::Array(trees) && trees.len() == items@.len() && (forall|
            i: int,
        |
            0 <= i < items@.len() ==> #[trigger] trees[i] == items@[i]@),
        Json::Object(fields)@ == Tree::Object(fields_of(fields@)),
{
    lemma_trees_of(items@);
}

/// A number is the natural that it is, or else itself.
pub proof fn law_number(n: serde_json::Number)
    ensures
        number_natural(n) matches Some(u) ==> Json::Number(n)@ == Tree::Natural(u),
        number_natural(n) is None ==> Json::Number(n)@ == Tree::Number(n),
{
}

/// A field that is added is there and takes the place of one of the same key; all others
/// stay.
pub proof fn law_added_field(fields: Seq<(String, Json)>, key: String, value: Json)
    ensures
        fields_of(Seq::empty()) == Map::<Seq<char>, Tree>::empty(),
        fields_of(fields.push((key, value))) == fields_of(fields).insert(key@, value@),
{
    assert(fields.push((key, value)).drop_last() =~= fields);
}

/// What was found is the value that was found, and a path's tokens are its texts in order.
pub proof fn law_found(j: &Json, path: Seq<&str>, i: int)
    requires
        0 <= i < path.len(),
    ensures
        found(Some(j)) == Some(j@),
        found(None) == None::<Tree>,
        tokens(path).len() == path.len(),
        tokens(path)[i] == path[i]@,
{
}

} // verus!
