//! JSON values.
use vstd::prelude::*;

verus! {

/// A JSON number: an integer that is not negative, one that is, or the bits of a finite double.
#[derive(Clone, Copy, Debug)]
pub enum Number {
    PosInt(u64),
    NegInt(i64),
    Float(u64),
}

/// A JSON value. Of two members of an object with the same key, the later one counts.
#[derive(Debug)]
pub enum Json {
    Null,
    Bool(bool),
    Number(Number),
    String(String),
    Array(Vec<Json>),
    Object(Vec<(String, Json)>),
}

/// What a JSON value is.
pub enum Tree {
    Null,
    Bool(bool),
    Number(Number),
    String(Seq<char>),
    Array(Seq<Tree>),
    Object(Map<Seq<char>, Tree>),
}

/// The bits of the double minus zero.
pub const MINUS_ZERO: u64 = 0x8000_0000_0000_0000;

impl Number {
    /// The number, with minus zero as zero: the two doubles are equal.
    pub open spec fn normal(self) -> Number {
        match self {
            Number::Float(bits) if bits == MINUS_ZERO => Number::Float(0),
            _ => self,
        }
    }

    /// Whether two numbers are equal. An integer is not equal to a double.
    fn same(self, other: Number) -> (r: bool)
        ensures
            r == (self.normal() == other.normal()),
    {
        match (self, other) {
            (Number::PosInt(a), Number::PosInt(b)) => a == b,
            (Number::NegInt(a), Number::NegInt(b)) => a == b,
            (Number::Float(a), Number::Float(b)) => {
                a == b || (a == 0 || a == MINUS_ZERO) && (b == 0 || b == MINUS_ZERO)
            },
            _ => false,
        }
    }
}

impl Tree {
    /// The value, with minus zero as zero throughout: two values are equal exactly when this is the
    /// same of both.
    pub open spec fn normal(self) -> Tree
        decreases self,
    {
        match self {
            Tree::Number(n) => Tree::Number(n.normal()),
            Tree::Array(items) => Tree::Array(
                Seq::new(
                    items.len(),
                    |i: int|
                        if 0 <= i < items.len() {
                            items[i].normal()
                        } else {
                            Tree::Null
                        },
                ),
            ),
            Tree::Object(members) => Tree::Object(
                Map::new(
                    |key: Seq<char>| members.contains_key(key),
                    |key: Seq<char>|
                        if members.contains_key(key) {
                            members[key].normal()
                        } else {
                            Tree::Null
                        },
                ),
            ),
            _ => self,
        }
    }
}

impl Json {
    pub open spec fn tree(self) -> Tree
        decreases self,
    {
        match self {
            Json::Null => Tree::Null,
            Json::Bool(b) => Tree::Bool(b),
            Json::Number(n) => Tree::Number(n),
            Json::String(s) => Tree::String(s@),
            Json::Array(items) => Tree::Array(
                Seq::new(
                    items@.len(),
                    |i: int|
                        if 0 <= i < items@.len() {
                            items@[i].tree()
                        } else {
                            Tree::Null
                        },
                ),
            ),
            Json::Object(members) => Tree::Object(object_of(members@)),
        }
    }
}

/// The object that has these members.
pub open spec fn object_of(members: Seq<(String, Json)>) -> Map<Seq<char>, Tree>
    decreases members,
{
    if members.len() == 0 {
        Map::empty()
    } else {
        object_of(members.drop_last()).insert(members.last().0@, members.last().1.tree())
    }
}

impl View for Json {
    type V = Tree;

    open spec fn view(&self) -> Tree {
        self.tree()
    }
}

/// The member `key` of `value`, and null if `value` is no object or has none.
pub open spec fn member(value: Tree, key: Seq<char>) -> Tree {
    match value {
        Tree::Object(members) if members.contains_key(key) => members[key],
        _ => Tree::Null,
    }
}

/// An object has the keys of its members.
proof fn object_keys(members: Seq<(String, Json)>, key: Seq<char>)
    ensures
        object_of(members).contains_key(key) <==> exists|i: int|
            0 <= i < members.len() && (#[trigger] members[i]).0@ == key,
    decreases members.len(),
{
    if members.len() > 0 {
        let init = members.drop_last();
        object_keys(init, key);
        if object_of(members).contains_key(key) {
            if members.last().0@ == key {
                assert(members[members.len() - 1].0@ == key);
            } else {
                let i = choose|i: int| 0 <= i < init.len() && (#[trigger] init[i]).0@ == key;
                assert(members[i].0@ == key);
            }
        }
        if exists|i: int| 0 <= i < members.len() && (#[trigger] members[i]).0@ == key {
            let i = choose|i: int| 0 <= i < members.len() && (#[trigger] members[i]).0@ == key;
            if i < init.len() {
                assert(init[i].0@ == key);
            }
        }
    }
}

/// The index of the member that counts for `key`: the last one with that key.
fn position(members: &Vec<(String, Json)>, key: &String) -> (r: Option<usize>)
    ensures
        match r {
            Some(p) => {
                &&& p < members@.len()
                &&& members@[p as int].0@ == key@
                &&& object_of(members@).contains_key(key@)
                &&& object_of(members@)[key@] == members@[p as int].1@
            },
            None => !object_of(members@).contains_key(key@),
        },
{
    let mut i: usize = members.len();
    proof {
        assert(members@.take(i as int) =~= members@);
    }
    while i > 0
        invariant
            i <= members@.len(),
            ({
                let all = object_of(members@);
                let head = object_of(members@.take(i as int));
                &&& all.contains_key(key@) == head.contains_key(key@)
                &&& all.contains_key(key@) ==> all[key@] == head[key@]
            }),
        decreases i,
    {
        proof {
            let head = members@.take(i as int);
            assert(head.drop_last() =~= members@.take(i - 1));
            assert(head.last() == members@[i - 1]);
        }
        i = i - 1;
        if members[i].0 == *key {
            return Some(i);
        }
    }
    None
}

impl Json {
    /// The member `key`, if this is an object that has it.
    pub fn get(&self, key: &str) -> (r: Option<&Json>)
        ensures
            match r {
                Some(v) => self@ matches Tree::Object(members) && members.contains_key(key@)
                    && members[key@] == v@,
                None => !(self@ matches Tree::Object(members) && members.contains_key(key@)),
            },
    {
        match self {
            Json::Object(members) => match position(members, &key.to_owned()) {
                Some(p) => Some(&members[p].1),
                None => None,
            },
            _ => None,
        }
    }

    /// Whether this is the string `s`.
    pub fn is_string(&self, s: &str) -> (r: bool)
        ensures
            r == (self@ == Tree::String(s@)),
    {
        match self {
            Json::String(own) => *own == s.to_owned(),
            _ => false,
        }
    }

    /// Whether this is equal to `other`.
    pub fn same(&self, other: &Json) -> (r: bool)
        ensures
            r == (self@.normal() == other@.normal()),
        decreases self,
    {
        match (self, other) {
            (Json::Null, Json::Null) => true,
            (Json::Bool(a), Json::Bool(b)) => *a == *b,
            (Json::Number(a), Json::Number(b)) => a.same(*b),
            (Json::String(a), Json::String(b)) => *a == *b,
            (Json::Array(a), Json::Array(b)) => {
                if a.len() != b.len() {
                    assert(self@.normal()->Array_0.len() != other@.normal()->Array_0.len());
                    return false;
                }
                let mut i: usize = 0;
                while i < a.len()
                    invariant
                        *self == Json::Array(*a),
                        *other == Json::Array(*b),
                        a@.len() == b@.len(),
                        i <= a@.len(),
                        forall|j: int|
                            0 <= j < i ==> (#[trigger] a@[j])@.normal() == b@[j]@.normal(),
                    decreases a@.len() - i,
                {
                    if !a[i].same(&b[i]) {
                        assert(self@.normal()->Array_0[i as int] == a@[i as int]@.normal());
                        assert(other@.normal()->Array_0[i as int] == b@[i as int]@.normal());
                        return false;
                    }
                    i = i + 1;
                }
                assert(self@.normal()->Array_0 =~= other@.normal()->Array_0);
                true
            },
            (Json::Object(a), Json::Object(b)) => {
                let mut i: usize = 0;
                while i < a.len()
                    invariant
                        *self == Json::Object(*a),
                        *other == Json::Object(*b),
                        i <= a@.len(),
                        forall|j: int|
                            0 <= j < i ==> object_of(b@).contains_key((#[trigger] a@[j]).0@)
                                && object_of(a@)[a@[j].0@].normal() == object_of(
                                b@,
                            )[a@[j].0@].normal(),
                    decreases a@.len() - i,
                {
                    let ghost (x, y) = (self@.normal()->Object_0, other@.normal()->Object_0);
                    let ghost key = a@[i as int].0@;
                    proof {
                        object_keys(a@, key);
                        assert(x.contains_key(key));
                        assert(x[key] == object_of(a@)[key].normal());
                        assert(y.contains_key(key) == object_of(b@).contains_key(key));
                        assert(y.contains_key(key) ==> y[key] == object_of(b@)[key].normal());
                    }
                    match (position(a, &a[i].0), position(b, &a[i].0)) {
                        (Some(p), Some(q)) => {
                            proof {
                                let entry = a@[p as int];
                                assert(decreases_to!(*self => self->Object_0));
                                assert(decreases_to!(entry => entry.1));
                            }
                            if !a[p].1.same(&b[q].1) {
                                return false;
                            }
                        },
                        _ => {
                            return false;
                        },
                    }
                    i = i + 1;
                }
                let mut i: usize = 0;
                while i < b.len()
                    invariant
                        *self == Json::Object(*a),
                        *other == Json::Object(*b),
                        i <= b@.len(),
                        forall|j: int|
                            0 <= j < i ==> object_of(a@).contains_key((#[trigger] b@[j]).0@),
                    decreases b@.len() - i,
                {
                    if position(a, &b[i].0).is_none() {
                        proof {
                            let key = b@[i as int].0@;
                            object_keys(b@, key);
                            assert(other@.normal()->Object_0.contains_key(key));
                            assert(!self@.normal()->Object_0.contains_key(key));
                        }
                        return false;
                    }
                    i = i + 1;
                }
                proof {
                    let (x, y) = (self@.normal()->Object_0, other@.normal()->Object_0);
                    assert forall|key: Seq<char>| #[trigger] x.dom().contains(key) implies y.dom().contains(
                        key,
                    ) && x[key] == y[key] by {
                        object_keys(a@, key);
                    }
                    assert forall|key: Seq<char>| #[trigger] y.dom().contains(key) implies x.dom().contains(
                        key,
                    ) by {
                        object_keys(b@, key);
                    }
                    assert(x =~= y);
                }
                true
            },
            _ => false,
        }
    }
}

impl Json {
    /// The member `key`, taken out of the object, if this is one that has it.
    pub fn take(self, key: &str) -> (r: Option<Json>)
        ensures
            match r {
                Some(v) => self@ matches Tree::Object(members) && members.contains_key(key@)
                    && members[key@] == v@,
                None => !(self@ matches Tree::Object(members) && members.contains_key(key@)),
            },
    {
        match self {
            Json::Object(mut members) => match position(&members, &key.to_owned()) {
                Some(p) => Some(members.swap_remove(p).1),
                None => None,
            },
            _ => None,
        }
    }
}

impl Clone for Json {
    fn clone(&self) -> (r: Json)
        ensures
            r@ == self@,
        decreases self,
    {
        match self {
            Json::Null => Json::Null,
            Json::Bool(b) => Json::Bool(*b),
            Json::Number(n) => Json::Number(*n),
            Json::String(s) => Json::String(s.clone()),
            Json::Array(items) => {
                let mut all: Vec<Json> = Vec::new();
                let mut i: usize = 0;
                while i < items.len()
                    invariant
                        *self == Json::Array(*items),
                        i <= items@.len(),
                        all@.len() == i,
                        forall|j: int| 0 <= j < i ==> (#[trigger] all@[j])@ == items@[j]@,
                    decreases items@.len() - i,
                {
                    assert(decreases_to!(*self => self->Array_0));
                    all.push(items[i].clone());
                    i = i + 1;
                }
                let r = Json::Array(all);
                assert(r@->Array_0 =~= self@->Array_0);
                r
            },
            Json::Object(members) => {
                let mut all: Vec<(String, Json)> = Vec::new();
                let mut i: usize = 0;
                while i < members.len()
                    invariant
                        *self == Json::Object(*members),
                        i <= members@.len(),
                        object_of(all@) == object_of(members@.take(i as int)),
                    decreases members@.len() - i,
                {
                    let ghost before = all@;
                    proof {
                        assert(decreases_to!(*self => self->Object_0));
                        assert(decreases_to!(members@[i as int] => members@[i as int].1));
                    }
                    all.push((members[i].0.clone(), members[i].1.clone()));
                    proof {
                        assert(all@.drop_last() =~= before);
                        assert(members@.take(i + 1).drop_last() =~= members@.take(i as int));
                    }
                    i = i + 1;
                }
                assert(members@.take(i as int) =~= members@);
                Json::Object(all)
            },
        }
    }
}

/// Each member of an object is found under its key. What is not there is null, and so is a member
/// of anything but an object.
pub proof fn members_are_found(
    members: Map<Seq<char>, Tree>,
    key: Seq<char>,
    value: Tree,
    other: Seq<char>,
)
    ensures
        member(Tree::Object(members.insert(key, value)), key) == value,
        other != key ==> member(Tree::Object(members.insert(key, value)), other) == member(
            Tree::Object(members),
            other,
        ),
        member(Tree::Object(members.remove(key)), key) == Tree::Null,
        !(value is Object) ==> member(value, key) == Tree::Null,
{
}

/// A member behind others counts in place of an earlier one with its key, and leaves the others as
/// they are.
pub proof fn later_members_count(
    members: Seq<(String, Json)>,
    key: String,
    value: Json,
    other: Seq<char>,
)
    ensures
        ({
            let (before, after) = (object_of(members), object_of(members.push((key, value))));
            &&& after.contains_key(key@) && after[key@] == value@
            &&& other != key@ ==> (after.contains_key(other) <==> before.contains_key(other))
            &&& other != key@ ==> after[other] == before[other]
        }),
        object_of(Seq::empty()) == Map::<Seq<char>, Tree>::empty(),
{
    assert(members.push((key, value)).drop_last() =~= members);
}

/// A value is seen as what it is: an array item by item, and an object by its members.
pub proof fn values_are_seen_whole(value: Json)
    ensures
        match value {
            Json::Null => value@ is Null,
            Json::Bool(b) => value@ == Tree::Bool(b),
            Json::Number(n) => value@ == Tree::Number(n),
            Json::String(text) => value@ == Tree::String(text@),
            Json::Array(items) => value@ matches Tree::Array(seen) && seen.len() == items@.len()
                && forall|i: int| 0 <= i < items@.len() ==> (#[trigger] seen[i]) == items@[i]@,
            Json::Object(members) => value@ matches Tree::Object(seen) && forall|key: Seq<char>|
                (#[trigger] seen.contains_key(key)) <==> exists|i: int|
                    0 <= i < members@.len() && (#[trigger] members@[i]).0@ == key,
        },
{
    if let Json::Array(items) = value {
        let seen = value@->Array_0;
        assert forall|i: int| 0 <= i < items@.len() implies (#[trigger] seen[i])
            == items@[i]@ by {}
    }
    if let Json::Object(members) = value {
        assert(value@ == Tree::Object(object_of(members@)));
        assert forall|key: Seq<char>|
            (#[trigger] object_of(members@).contains_key(key)) <==> exists|i: int|
                0 <= i < members@.len() && (#[trigger] members@[i]).0@ == key by {
            object_keys(members@, key);
        }
    }
}

/// Two numbers are equal if they are the same integer or the same double, or if both are a zero
/// double. An integer is not equal to a double.
pub proof fn equal_numbers(a: Number, b: Number)
    ensures
        a.normal() == b.normal() <==> match (a, b) {
            (Number::PosInt(m), Number::PosInt(n)) => m == n,
            (Number::NegInt(m), Number::NegInt(n)) => m == n,
            (Number::Float(m), Number::Float(n)) => m == n || (m == 0 || m
                == 0x8000_0000_0000_0000u64) && (n == 0 || n == 0x8000_0000_0000_0000u64),
            _ => false,
        },
{
}

/// Two values are equal if they are of one kind and equal in what they hold: arrays item by item,
/// objects member by member, whatever the order of the members.
pub proof fn equal_values(a: Tree, b: Tree)
    ensures
        a.normal() == b.normal() <==> match (a, b) {
            (Tree::Null, Tree::Null) => true,
            (Tree::Bool(p), Tree::Bool(q)) => p == q,
            (Tree::Number(m), Tree::Number(n)) => m.normal() == n.normal(),
            (Tree::String(s), Tree::String(t)) => s == t,
            (Tree::Array(s), Tree::Array(t)) => s.len() == t.len() && forall|i: int|
                0 <= i < s.len() ==> (#[trigger] s[i]).normal() == t[i].normal(),
            (Tree::Object(s), Tree::Object(t)) => s.dom() == t.dom() && forall|key: Seq<char>|
                #[trigger] s.contains_key(key) ==> s[key].normal() == t[key].normal(),
            _ => false,
        },
{
    if let (Tree::Array(s), Tree::Array(t)) = (a, b) {
        let (x, y) = (a.normal()->Array_0, b.normal()->Array_0);
        assert(x.len() == s.len() && y.len() == t.len());
        if x == y {
            assert forall|i: int| 0 <= i < s.len() implies (#[trigger] s[i]).normal()
                == t[i].normal() by {
                assert(x[i] == s[i].normal() && y[i] == t[i].normal());
            }
        }
        if s.len() == t.len() && forall|i: int|
            0 <= i < s.len() ==> (#[trigger] s[i]).normal() == t[i].normal() {
            assert(x =~= y);
        }
    }
    if let (Tree::Object(s), Tree::Object(t)) = (a, b) {
        let (x, y) = (a.normal()->Object_0, b.normal()->Object_0);
        assert(x.dom() =~= s.dom());
        assert(y.dom() =~= t.dom());
        if x == y {
            assert forall|key: Seq<char>| #[trigger] s.contains_key(key) implies s[key].normal()
                == t[key].normal() by {
                assert(x.dom().contains(key) && y.dom().contains(key));
                assert(x[key] == s[key].normal() && y[key] == t[key].normal());
            }
        }
        if s.dom() == t.dom() && forall|key: Seq<char>| #[trigger]
            s.contains_key(key) ==> s[key].normal() == t[key].normal() {
            assert forall|key: Seq<char>| #[trigger] x.dom().contains(key) implies x[key]
                == y[key] by {
                assert(s.contains_key(key));
                assert(t.dom().contains(key));
            }
            assert(x =~= y);
        }
    }
}

} // verus!
