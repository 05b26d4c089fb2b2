//! The text of JSON values: `serde_json` reads and writes it.
use crate::json::{object_of, Json, Number, Tree};
use serde_json::Value;
use vstd::prelude::*;

verus! {

/// `serde_json::Value`.
#[verifier::external_type_specification]
#[verifier::external_body]
pub struct ExValue(serde_json::Value);

/// The JSON value that a `serde_json::Value` holds.
pub uninterp spec fn contents(value: Value) -> Tree;

/// What reading a text comes to.
pub enum Reading {
    /// It is this value.
    Whole(Tree),
    /// It is no JSON: whether it ends too early, and what is wrong with it.
    Broken { eof: bool, message: Seq<char> },
}

/// What `serde_json::from_str` makes of a text.
pub uninterp spec fn parsed(text: Seq<char>) -> Reading;

/// The text that `Display for serde_json::Value` writes a value as.
pub uninterp spec fn rendered(value: Tree) -> Seq<char>;

/// How deep arrays and objects may be nested in a text that `serde_json` reads.
pub const MAX_DEPTH: u8 = 127;

/// Whether a value holds no doubles, and arrays and objects nested no deeper than `depth`.
pub open spec fn is_plain(value: Tree, depth: nat) -> bool
    decreases depth,
{
    match value {
        Tree::Number(n) => !(n is Float),
        Tree::Array(items) => depth > 0 && forall|i: int|
            0 <= i < items.len() ==> is_plain(#[trigger] items[i], (depth - 1) as nat),
        Tree::Object(members) => depth > 0 && forall|key: Seq<char>| #[trigger]
            members.contains_key(key) ==> is_plain(members[key], (depth - 1) as nat),
        _ => true,
    }
}

/// Why a text is not JSON.
#[derive(Debug)]
pub struct Fault {
    /// The text ends before the value does.
    pub eof: bool,
    /// What is wrong, and where.
    pub message: String,
}

/// The result of reading a text, seen as a `Reading`.
pub open spec fn reading(r: Result<Json, Fault>) -> Reading {
    match r {
        Ok(value) => Reading::Whole(value@),
        Err(fault) => Reading::Broken { eof: fault.eof, message: fault.message@ },
    }
}

/// What a `serde_json::Value` is, one level deep.
enum Shape<'a> {
    Null,
    Bool(bool),
    Number(Number),
    String(&'a String),
    Array(&'a Vec<Value>),
    Object(Vec<(&'a String, &'a Value)>),
}

/// The object that has these members.
spec fn members_of(members: Seq<(&String, &Value)>) -> Map<Seq<char>, Tree>
    decreases members.len(),
{
    if members.len() == 0 {
        Map::empty()
    } else {
        members_of(members.drop_last()).insert(members.last().0@, contents(*members.last().1))
    }
}

/// Whether no two members have the same key.
spec fn keys_differ(members: Seq<(&String, &Value)>) -> bool {
    forall|i: int, j: int|
        0 <= i < j < members.len() ==> (#[trigger] members[i]).0@ != (#[trigger] members[j]).0@
}

/// Tells the variants of `serde_json::Value` apart. An array holds its items in order, and an
/// object its members under keys that differ. A number is a `u64` if it is an integer that is not
/// negative, an `i64` if it is a negative one, and a finite double otherwise, as `as_u64`, `as_i64`
/// and `as_f64` of `serde_json::Number` tell.
#[verifier::external_body]
fn shape(value: &Value) -> (r: Shape<'_>)
    ensures
        match r {
            Shape::Null => contents(*value) == Tree::Null,
            Shape::Bool(b) => contents(*value) == Tree::Bool(b),
            Shape::Number(n) => contents(*value) == Tree::Number(n),
            Shape::String(s) => contents(*value) == Tree::String(s@),
            Shape::Array(items) => contents(*value) == Tree::Array(
                items@.map_values(|item: Value| contents(item)),
            ),
            Shape::Object(members) => {
                &&& contents(*value) == Tree::Object(members_of(members@))
                &&& keys_differ(members@)
            },
        },
{
    match value {
        Value::Null => Shape::Null,
        Value::Bool(b) => Shape::Bool(*b),
        Value::Number(n) => Shape::Number(match (n.as_u64(), n.as_i64()) {
            (Some(u), _) => Number::PosInt(u),
            (None, Some(i)) => Number::NegInt(i),
            (None, None) => Number::Float(n.as_f64().unwrap_or_default().to_bits()),
        }),
        Value::String(s) => Shape::String(s),
        Value::Array(items) => Shape::Array(items),
        Value::Object(members) => Shape::Object(members.iter().collect()),
    }
}

/// Calls `serde_json::from_str`. An error is an `Err` here, with whether it is one of the kind
/// `Eof`, and its message.
#[verifier::external_body]
fn from_str(text: &str) -> (r: Result<Value, Fault>)
    ensures
        match r {
            Ok(value) => parsed(text@) == Reading::Whole(contents(value)),
            Err(fault) => parsed(text@) == (Reading::Broken {
                eof: fault.eof,
                message: fault.message@,
            }),
        },
{
    serde_json::from_str(text).map_err(|e: serde_json::Error| Fault {
        eof: e.is_eof(),
        message: e.to_string(),
    })
}

/// Under keys that differ, an object has each of its members.
proof fn members_are_kept(members: Seq<(&String, &Value)>, i: int)
    requires
        keys_differ(members),
        0 <= i < members.len(),
    ensures
        members_of(members).dom().finite(),
        members_of(members).contains_key(members[i].0@),
        members_of(members)[members[i].0@] == contents(*members[i].1),
    decreases members.len(),
{
    let init = members.drop_last();
    if init.len() == 0 {
        assert(members_of(init).dom() =~= Set::empty());
    } else {
        let j = if i < init.len() {
            i
        } else {
            0
        };
        assert(init[j] == members[j]);
        members_are_kept(init, j);
    }
}

/// Takes a `serde_json::Value` apart.
fn decode(value: &Value) -> (r: Json)
    ensures
        r@ == contents(*value),
    decreases contents(*value),
{
    match shape(value) {
        Shape::Null => Json::Null,
        Shape::Bool(b) => Json::Bool(b),
        Shape::Number(n) => Json::Number(n),
        Shape::String(s) => Json::String(s.clone()),
        Shape::Array(items) => {
            let mut all: Vec<Json> = Vec::new();
            let mut i: usize = 0;
            while i < items.len()
                invariant
                    contents(*value) == Tree::Array(
                        items@.map_values(|item: Value| contents(item)),
                    ),
                    i <= items@.len(),
                    all@.len() == i,
                    forall|j: int| 0 <= j < i ==> (#[trigger] all@[j])@ == contents(items@[j]),
                decreases items@.len() - i,
            {
                proof {
                    let trees = items@.map_values(|item: Value| contents(item));
                    assert(trees[i as int] == contents(items@[i as int]));
                    assert(decreases_to!(contents(*value) => contents(*value)->Array_0));
                }
                all.push(decode(&items[i]));
                i = i + 1;
            }
            let r = Json::Array(all);
            assert(r@->Array_0 =~= items@.map_values(|item: Value| contents(item)));
            r
        },
        Shape::Object(members) => {
            let mut all: Vec<(String, Json)> = Vec::new();
            let mut i: usize = 0;
            while i < members.len()
                invariant
                    contents(*value) == Tree::Object(members_of(members@)),
                    keys_differ(members@),
                    i <= members@.len(),
                    object_of(all@) == members_of(members@.take(i as int)),
                decreases members@.len() - i,
            {
                proof {
                    members_are_kept(members@, i as int);
                    assert(decreases_to!(contents(*value) => contents(*value)->Object_0));
                }
                let (key, item) = members[i];
                let ghost before = all@;
                all.push((key.clone(), decode(item)));
                proof {
                    assert(all@.drop_last() =~= before);
                    assert(members@.take(i + 1).drop_last() =~= members@.take(i as int));
                }
                i = i + 1;
            }
            assert(members@.take(i as int) =~= members@);
            Json::Object(all)
        },
    }
}

/// Reads a JSON text.
pub fn parse(text: &str) -> (r: Result<Json, Fault>)
    ensures
        reading(r) == parsed(text@),
        match r {
            Ok(value) => parsed(text@) == Reading::Whole(value@),
            Err(fault) => parsed(text@) == (Reading::Broken {
                eof: fault.eof,
                message: fault.message@,
            }),
        },
{
    match from_str(text) {
        Ok(value) => Ok(decode(&value)),
        Err(fault) => Err(fault),
    }
}

/// The object that has these members.
pub open spec fn pairs_of(members: Seq<(String, Value)>) -> Map<Seq<char>, Tree>
    decreases members.len(),
{
    if members.len() == 0 {
        Map::empty()
    } else {
        pairs_of(members.drop_last()).insert(members.last().0@, contents(members.last().1))
    }
}

/// Makes a `serde_json::Value::String`, which holds the string `s`.
#[verifier::external_body]
pub(crate) fn string(s: &str) -> (r: Value)
    ensures
        contents(r) == Tree::String(s@),
{
    Value::String(s.to_owned())
}

/// Makes a `serde_json::Value::Object`, by `FromIterator for serde_json::Map`. The object holds
/// each member under its key, and no others.
#[verifier::external_body]
pub(crate) fn object(members: Vec<(String, Value)>) -> (r: Value)
    requires
        forall|i: int, j: int|
            0 <= i < j < members@.len() ==> (#[trigger] members@[i]).0@ != (
            #[trigger] members@[j]).0@,
    ensures
        contents(r) == Tree::Object(pairs_of(members@)),
{
    Value::Object(members.into_iter().collect())
}

/// Calls `Display for serde_json::Value`, which writes a value as compact JSON. A line feed in a
/// string is escaped, and there is no other one, so the text is one line. `serde_json::from_str`
/// reads the value back from its text, also with a line feed behind it. This is said of values
/// without doubles, which need not be read back as they were, and of the depth that it reads.
#[verifier::external_body]
pub(crate) fn display(value: &Value) -> (r: String)
    ensures
        r@ == rendered(contents(*value)),
        !r@.contains('\n'),
        is_plain(contents(*value), MAX_DEPTH as nat) ==> parsed(r@) == Reading::Whole(
            contents(*value),
        ),
        is_plain(contents(*value), MAX_DEPTH as nat) ==> parsed(r@.push('\n')) == Reading::Whole(
            contents(*value),
        ),
{
    value.to_string()
}

} // verus!
