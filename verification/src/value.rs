//! The generic structured value that documents are read from and written to.
//!
//! A document is a tree of nulls, booleans, numbers, strings, arrays and
//! objects. [`Value`] is the executable tree and [`Doc`] its mathematical
//! model; every contract of the crate is stated over [`Doc`].
use vstd::prelude::*;
use crate::text::same_text;

verus! {

/// Ceiling on how deeply arrays and objects may nest in a document that is
/// read into a tree.
pub const MAX_DEPTH: usize = 128;

/// A number as the document gave it.
#[derive(Clone, Copy, Debug, PartialEq, Eq, Structural)]
pub enum Number {
    /// A non-negative integer.
    Unsigned(u64),
    /// A signed integer.
    Signed(i64),
    /// A number with a fraction or an exponent, carried as the bits of its
    /// IEEE 754 double and never interpreted here.
    Float(u64),
}

/// A structured value.
#[derive(Debug, PartialEq, Eq)]
pub enum Value {
    Null,
    Bool(bool),
    Number(Number),
    String(String),
    Array(Vec<Value>),
    /// Members in document order.
    Object(Vec<(String, Value)>),
}

/// The mathematical model of a [`Value`].
pub enum Doc {
    Null,
    Bool(bool),
    Number(Number),
    String(Seq<char>),
    Array(Seq<Doc>),
    Object(Seq<(Seq<char>, Doc)>),
}

/// The six shapes a value can have, with the numbers split in two: those
/// that can count or index (`Natural`) and the others.
#[derive(Clone, Copy, Debug, PartialEq, Eq, Structural)]
pub enum Shape {
    Null,
    Bool,
    Natural,
    Number,
    String,
    Array,
    Object,
}

/// The models of a run of values.
pub open spec fn docs_of(items: Seq<Value>) -> Seq<Doc>
    decreases items,
{
    Seq::new(
        items.len(),
        |i: int|
            if 0 <= i < items.len() {
                doc_of(items[i])
            } else {
                Doc::Null
            },
    )
}

/// The models of an object's members.
pub open spec fn members_of(members: Seq<(String, Value)>) -> Seq<(Seq<char>, Doc)>
    decreases members,
{
    Seq::new(
        members.len(),
        |i: int|
            if 0 <= i < members.len() {
                (members[i].0@, doc_of(members[i].1))
            } else {
                (Seq::empty(), Doc::Null)
            },
    )
}

/// The model of a value.
pub open spec fn doc_of(v: Value) -> Doc
    decreases v,
{
    match v {
        Value::Null => Doc::Null,
        Value::Bool(b) => Doc::Bool(b),
        Value::Number(n) => Doc::Number(n),
        Value::String(s) => Doc::String(s@),
        Value::Array(items) => Doc::Array(docs_of(items@)),
        Value::Object(members) => Doc::Object(members_of(members@)),
    }
}

impl View for Value {
    type V = Doc;

    open spec fn view(&self) -> Doc {
        doc_of(*self)
    }
}

/// The model of an optional value.
pub open spec fn opt_doc(o: Option<Value>) -> Option<Doc> {
    match o {
        Some(v) => Some(v@),
        None => None,
    }
}

/// The natural number a number stands for, if it is one that fits `usize`.
pub open spec fn natural_of(n: Number) -> Option<usize> {
    match n {
        Number::Unsigned(u) => if u <= usize::MAX {
            Some(u as usize)
        } else {
            None
        },
        Number::Signed(i) => if 0 <= i <= usize::MAX {
            Some(i as usize)
        } else {
            None
        },
        Number::Float(_) => None,
    }
}

/// The shape of a value.
pub open spec fn shape_of(d: Doc) -> Shape {
    match d {
        Doc::Null => Shape::Null,
        Doc::Bool(_) => Shape::Bool,
        Doc::Number(n) => if natural_of(n) is Some {
            Shape::Natural
        } else {
            Shape::Number
        },
        Doc::String(_) => Shape::String,
        Doc::Array(_) => Shape::Array,
        Doc::Object(_) => Shape::Object,
    }
}

/// How deeply arrays and objects nest in a value: 0 for a scalar.
pub open spec fn depth(d: Doc) -> nat
    decreases d,
{
    match d {
        Doc::Array(items) => 1 + deepest(items),
        Doc::Object(members) => 1 + deepest_member(members),
        _ => 0,
    }
}

/// The greatest depth among the items of an array.
pub open spec fn deepest(items: Seq<Doc>) -> nat
    decreases items,
{
    if items.len() == 0 {
        0
    } else {
        let rest = deepest(items.drop_last());
        let last = depth(items.last());
        if last > rest {
            last
        } else {
            rest
        }
    }
}

/// The greatest depth among the values of an object's members.
pub open spec fn deepest_member(members: Seq<(Seq<char>, Doc)>) -> nat
    decreases members,
{
    if members.len() == 0 {
        0
    } else {
        let rest = deepest_member(members.drop_last());
        let last = depth(members.last().1);
        if last > rest {
            last
        } else {
            rest
        }
    }
}

/// The position of the first member named `key`, or -1 where none is.
pub open spec fn index_of(members: Seq<(Seq<char>, Doc)>, key: Seq<char>) -> int
    decreases members.len(),
{
    if members.len() == 0 {
        -1
    } else {
        let before = index_of(members.drop_last(), key);
        if before >= 0 {
            before
        } else if members.last().0 == key {
            members.len() - 1
        } else {
            -1
        }
    }
}

/// The value of the first member named `key`.
pub closed spec fn lookup(members: Seq<(Seq<char>, Doc)>, key: Seq<char>) -> Option<Doc> {
    let i = index_of(members, key);
    if 0 <= i < members.len() {
        Some(members[i].1)
    } else {
        None
    }
}

/// The members with one more at the end, where there is a value to add.
pub closed spec fn put(members: Seq<(Seq<char>, Doc)>, key: Seq<char>, value: Option<Doc>) -> Seq<
    (Seq<char>, Doc),
> {
    match value {
        Some(d) => members.push((key, d)),
        None => members,
    }
}

/// `index_of` answers with a position inside the members, at a member of
/// that name, before which no member has it.
pub proof fn lemma_index_of(members: Seq<(Seq<char>, Doc)>, key: Seq<char>)
    ensures
        -1 <= index_of(members, key) < members.len(),
        index_of(members, key) >= 0 ==> members[index_of(members, key)].0 == key,
        forall|j: int| 0 <= j < members.len() && (index_of(members, key) < 0 || j < index_of(members, key))
            ==> (#[trigger] members[j]).0 != key,
    decreases members.len(),
{
    if members.len() > 0 {
        let init = members.drop_last();
        lemma_index_of(init, key);
        assert forall|j: int| 0 <= j < members.len() && (index_of(members, key) < 0 || j < index_of(members, key))
            implies (#[trigger] members[j]).0 != key by {
            if j < init.len() {
                assert(init[j] == members[j]);
            }
        }
    }
}

/// Looking a name up after `put` finds what was there before, else what
/// was put under that name.
pub broadcast proof fn lemma_lookup_after_put(
    members: Seq<(Seq<char>, Doc)>,
    key: Seq<char>,
    value: Option<Doc>,
    name: Seq<char>,
)
    ensures
        #[trigger] lookup(put(members, key, value), name) == if lookup(members, name) is Some {
            lookup(members, name)
        } else if key == name {
            value
        } else {
            None
        },
{
    lemma_index_of(members, name);
    match value {
        Some(d) => {
            let after = members.push((key, d));
            assert(after.drop_last() =~= members);
            lemma_index_of(after, name);
        },
        None => {},
    }
}

/// Nothing is found among no members.
pub broadcast proof fn lemma_lookup_empty(name: Seq<char>)
    ensures
        #[trigger] lookup(Seq::<(Seq<char>, Doc)>::empty(), name) is None,
{
}

/// What `lookup` finds is the value of the member at `index_of`.
pub proof fn lemma_lookup_index(members: Seq<(Seq<char>, Doc)>, key: Seq<char>)
    ensures
        -1 <= index_of(members, key) < members.len(),
        lookup(members, key) == if index_of(members, key) >= 0 {
            Some(members[index_of(members, key)].1)
        } else {
            None
        },
{
    lemma_index_of(members, key);
}

/// No item of an array lies deeper than `deepest` says.
pub proof fn lemma_deepest(items: Seq<Doc>, i: int)
    requires
        0 <= i < items.len(),
    ensures
        depth(items[i]) <= deepest(items),
    decreases items.len(),
{
    if i < items.len() - 1 {
        lemma_deepest(items.drop_last(), i);
    }
}

/// No member's value lies deeper than `deepest_member` says.
pub proof fn lemma_deepest_member(members: Seq<(Seq<char>, Doc)>, i: int)
    requires
        0 <= i < members.len(),
    ensures
        depth(members[i].1) <= deepest_member(members),
    decreases members.len(),
{
    if i < members.len() - 1 {
        lemma_deepest_member(members.drop_last(), i);
    }
}

/// The natural number a number stands for, if it is one that fits `usize`.
pub fn natural(n: Number) -> (r: Option<usize>)
    ensures
        r == natural_of(n),
{
    match n {
        Number::Unsigned(u) => if u <= usize::MAX as u64 {
            Some(u as usize)
        } else {
            None
        },
        Number::Signed(i) => if 0 <= i && i as u64 <= usize::MAX as u64 {
            Some(i as usize)
        } else {
            None
        },
        Number::Float(_) => None,
    }
}

impl Value {
    /// The shape of this value.
    pub fn shape(&self) -> (s: Shape)
        ensures
            s == shape_of(self@),
    {
        match self {
            Value::Null => Shape::Null,
            Value::Bool(_) => Shape::Bool,
            Value::Number(n) => if natural(*n).is_some() {
                Shape::Natural
            } else {
                Shape::Number
            },
            Value::String(_) => Shape::String,
            Value::Array(_) => Shape::Array,
            Value::Object(_) => Shape::Object,
        }
    }

    /// Whether arrays and objects nest in this value at most `limit` deep.
    /// Never descends further than `limit` levels, however deep the value.
    pub fn within_depth(&self, limit: usize) -> (ok: bool)
        ensures
            ok == (depth(self@) <= limit),
        decreases self,
    {
        match self {
            Value::Array(items) => {
                if limit == 0 {
                    return false;
                }
                let mut i: usize = 0;
                while i < items.len()
                    invariant
                        i <= items.len(),
                        limit > 0,
                        self == Value::Array(*items),
                        deepest(docs_of(items@).take(i as int)) <= limit - 1,
                    decreases items.len() - i,
                {
                    proof {
                        assert(decreases_to!(self => self->Array_0));
                        assert(decreases_to!(*items => items@));
                        assert(decreases_to!(items@ => items@[i as int]));
                    }
                    let ok = items[i].within_depth(limit - 1);
                    proof {
                        let all = docs_of(items@);
                        assert(all.take(i + 1).drop_last() =~= all.take(i as int));
                        assert(all.take(i + 1).last() == items@[i as int]@);
                        if !ok {
                            lemma_deepest(all, i as int);
                        }
                    }
                    if !ok {
                        return false;
                    }
                    i += 1;
                }
                proof {
                    assert(docs_of(items@).take(i as int) =~= docs_of(items@));
                }
                true
            },
            Value::Object(members) => {
                if limit == 0 {
                    return false;
                }
                let mut i: usize = 0;
                while i < members.len()
                    invariant
                        i <= members.len(),
                        limit > 0,
                        self == Value::Object(*members),
                        deepest_member(members_of(members@).take(i as int)) <= limit - 1,
                    decreases members.len() - i,
                {
                    proof {
                        assert(decreases_to!(self => self->Object_0));
                        assert(decreases_to!(*members => members@));
                        assert(decreases_to!(members@ => members@[i as int]));
                        assert(decreases_to!(members@[i as int] => members@[i as int].1));
                    }
                    let ok = members[i].1.within_depth(limit - 1);
                    proof {
                        let all = members_of(members@);
                        assert(all.take(i + 1).drop_last() =~= all.take(i as int));
                        assert(all.take(i + 1).last().1 == members@[i as int].1@);
                        if !ok {
                            lemma_deepest_member(all, i as int);
                        }
                    }
                    if !ok {
                        return false;
                    }
                    i += 1;
                }
                proof {
                    assert(members_of(members@).take(i as int) =~= members_of(members@));
                }
                true
            },
            _ => true,
        }
    }
}

/// A copy of a value.
pub(crate) fn copy_value(v: &Value) -> (r: Value)
    ensures
        r@ == v@,
    decreases v,
{
    match v {
        Value::Null => Value::Null,
        Value::Bool(b) => Value::Bool(*b),
        Value::Number(n) => Value::Number(*n),
        Value::String(s) => Value::String(s.clone()),
        Value::Array(items) => {
            let mut out: Vec<Value> = Vec::new();
            let mut i: usize = 0;
            while i < items.len()
                invariant
                    i <= items.len(),
                    out@.len() == i,
                    v == Value::Array(*items),
                    forall|j: int| 0 <= j < i ==> (#[trigger] out@[j])@ == items@[j]@,
                decreases items.len() - i,
            {
                proof {
                    assert(decreases_to!(v => v->Array_0));
                    assert(decreases_to!(*items => items@));
                    assert(decreases_to!(items@ => items@[i as int]));
                }
                out.push(copy_value(&items[i]));
                i += 1;
            }
            proof {
                assert(docs_of(out@) =~= docs_of(items@));
            }
            Value::Array(out)
        },
        Value::Object(members) => {
            let mut out: Vec<(String, Value)> = Vec::new();
            let mut i: usize = 0;
            while i < members.len()
                invariant
                    i <= members.len(),
                    out@.len() == i,
                    v == Value::Object(*members),
                    forall|j: int|
                        0 <= j < i
                            ==> (#[trigger] out@[j]).0@ == members@[j].0@ && out@[j].1@ == members@[j].1@,
                decreases members.len() - i,
            {
                proof {
                    assert(decreases_to!(v => v->Object_0));
                    assert(decreases_to!(*members => members@));
                    assert(decreases_to!(members@ => members@[i as int]));
                    assert(decreases_to!(members@[i as int] => members@[i as int].1));
                }
                out.push((members[i].0.clone(), copy_value(&members[i].1)));
                i += 1;
            }
            proof {
                assert(members_of(out@) =~= members_of(members@));
            }
            Value::Object(out)
        },
    }
}

impl Clone for Value {
    /// A copy that holds the same.
    fn clone(&self) -> (r: Value)
        ensures
            r@ == self@,
    {
        copy_value(self)
    }
}

/// Where the first member named `key` stands.
pub fn position(members: &Vec<(String, Value)>, key: &str) -> (r: Option<usize>)
    ensures
        match r {
            Some(i) => i == index_of(members_of(members@), key@) && i < members.len(),
            None => index_of(members_of(members@), key@) == -1,
        },
{
    let mut i: usize = 0;
    while i < members.len()
        invariant
            i <= members.len(),
            index_of(members_of(members@).take(i as int), key@) == -1,
        decreases members.len() - i,
    {
        let ghost all = members_of(members@);
        proof {
            assert(all.take(i + 1).drop_last() =~= all.take(i as int));
            assert(all.take(i + 1).last() == all[i as int]);
        }
        if same_text(members[i].0.as_str(), key) {
            proof {
                lemma_index_of(all, key@);
                lemma_index_of(all.take(i as int), key@);
                let found = index_of(all, key@);
                if found < 0 || found > i {
                    assert(all[i as int].0 != key@);
                }
                if 0 <= found < i {
                    assert(all.take(i as int)[found] == all[found]);
                }
            }
            return Some(i);
        }
        i += 1;
    }
    proof {
        assert(members_of(members@).take(i as int) =~= members_of(members@));
    }
    None
}

/// The value of the first member named `key`.
pub fn find<'a>(members: &'a Vec<(String, Value)>, key: &str) -> (r: Option<&'a Value>)
    ensures
        match r {
            Some(v) => lookup(members_of(members@), key@) == Some(v@),
            None => lookup(members_of(members@), key@) is None,
        },
{
    match position(members, key) {
        Some(i) => Some(&members[i].1),
        None => None,
    }
}

/// Adds a member at the end, where there is a value to add.
pub fn put_member(members: &mut Vec<(String, Value)>, key: &str, value: Option<Value>)
    ensures
        members_of(final(members)@) == put(members_of(old(members)@), key@, opt_doc(value)),
{
    match value {
        Some(v) => {
            members.push((key.to_owned(), v));
            assert(members_of(members@) =~= put(members_of(old(members)@), key@, opt_doc(value)));
        },
        None => {},
    }
}

} // verus!
