//! JSON values and their mathematical model.
//!
//! A [`Value`] is the tree that schemas and instances are made of. Its view,
//! a [`Json`], keeps the members of an object in the order in which they were
//! written; a member is looked up by the first entry that carries its name,
//! and equality of values looks members up by name, so that the order of
//! members does not matter to it.

use vstd::prelude::*;
use crate::number::float_eq;
use crate::number::Number;
use crate::text::same_text;

verus! {

/// A JSON value.
#[derive(Debug)]
pub enum Value {
    Null,
    Bool(bool),
    Number(Number),
    String(String),
    Array(Vec<Value>),
    Object(Vec<(String, Value)>),
}

/// The mathematical model of a JSON value. A number is the bit pattern of
/// its binary64 value.
pub enum Json {
    Null,
    Bool(bool),
    Number(u64),
    String(Seq<char>),
    Array(Seq<Json>),
    Object(Seq<(Seq<char>, Json)>),
}

/// Whether `i` is the first position in `entries` that carries the name `key`.
pub open spec fn first_at<T>(entries: Seq<(Seq<char>, T)>, key: Seq<char>, i: int) -> bool {
    &&& 0 <= i < entries.len()
    &&& entries[i].0 == key
    &&& forall|j: int| 0 <= j < i ==> (#[trigger] entries[j]).0 != key
}

/// The first position in `entries` that carries the name `key`, if any.
pub open spec fn position<T>(entries: Seq<(Seq<char>, T)>, key: Seq<char>) -> Option<int> {
    if exists|i: int| first_at(entries, key, i) {
        Some(choose|i: int| first_at(entries, key, i))
    } else {
        None
    }
}

impl Json {
    /// The entries of an object, in order; empty for any other value.
    pub open spec fn entries(self) -> Seq<(Seq<char>, Json)> {
        match self {
            Json::Object(entries) => entries,
            _ => Seq::empty(),
        }
    }

    /// The elements of an array, in order; empty for any other value.
    pub open spec fn elements(self) -> Seq<Json> {
        match self {
            Json::Array(items) => items,
            _ => Seq::empty(),
        }
    }

    /// The member of an object with the given name: the value of the first
    /// entry that carries it. `None` for a missing name and for any value
    /// that is not an object.
    pub open spec fn member(self, key: Seq<char>) -> Option<Json> {
        match position(self.entries(), key) {
            Some(i) => Some(self.entries()[i].1),
            None => None,
        }
    }

    /// Whether an object has a member with the given name.
    pub open spec fn has_member(self, key: Seq<char>) -> bool {
        self.member(key) is Some
    }

    /// Deep equality of JSON values. Numbers are equal as binary64 values,
    /// arrays element by element, and objects when they have the same member
    /// names with equal members, in whatever order they were written.
    pub open spec fn same_as(self, other: Json) -> bool
        decreases self,
    {
        match self {
            Json::Null => other is Null,
            Json::Bool(a) => other == Json::Bool(a),
            Json::Number(a) => other is Number && float_eq(a, other->Number_0),
            Json::String(a) => other == Json::String(a),
            Json::Array(a) => {
                &&& other is Array
                &&& a.len() == other->Array_0.len()
                &&& forall|i: int|
                    0 <= i < a.len() ==> (#[trigger] a[i]).same_as(other->Array_0[i])
            },
            Json::Object(a) => {
                &&& other is Object
                &&& forall|i: int|
                    0 <= i < a.len() && first_at(a, a[i].0, i) ==> {
                        &&& other.member(a[i].0) is Some
                        &&& (#[trigger] a[i]).1.same_as(other.member(a[i].0)->0)
                    }
                &&& forall|j: int|
                    0 <= j < other->Object_0.len() ==> self.has_member(
                        (#[trigger] other->Object_0[j]).0,
                    )
            },
        }
    }
}

/// The model of a value: each part of it taken by its own model.
pub open spec fn json_of(value: Value) -> Json
    decreases value,
{
    match value {
        Value::Null => Json::Null,
        Value::Bool(b) => Json::Bool(b),
        Value::Number(n) => Json::Number(n@),
        Value::String(s) => Json::String(s@),
        Value::Array(items) => Json::Array(
            Seq::new(
                items@.len(),
                |i: int|
                    if 0 <= i < items@.len() {
                        json_of(items@[i])
                    } else {
                        Json::Null
                    },
            ),
        ),
        Value::Object(entries) => Json::Object(
            Seq::new(
                entries@.len(),
                |i: int|
                    if 0 <= i < entries@.len() {
                        (entries@[i].0@, json_of(entries@[i].1))
                    } else {
                        (Seq::empty(), Json::Null)
                    },
            ),
        ),
    }
}

impl View for Value {
    type V = Json;

    open spec fn view(&self) -> Json {
        json_of(*self)
    }
}

/// A first position is the position.
pub proof fn lemma_first_is_position<T>(entries: Seq<(Seq<char>, T)>, key: Seq<char>, i: int)
    requires
        first_at(entries, key, i),
    ensures
        position(entries, key) == Some(i),
{
    let k = choose|k: int| first_at(entries, key, k);
    assert(first_at(entries, key, k));
    if k < i {
        assert(entries[k].0 == key);
    } else if i < k {
        assert(entries[i].0 == key);
    }
}

/// A name that no entry carries has no position.
pub proof fn lemma_absent_has_no_position<T>(entries: Seq<(Seq<char>, T)>, key: Seq<char>)
    requires
        forall|j: int| 0 <= j < entries.len() ==> (#[trigger] entries[j]).0 != key,
    ensures
        position(entries, key) is None,
{
    assert forall|k: int| !first_at(entries, key, k) by {
        if 0 <= k < entries.len() {
            assert(entries[k].0 != key);
        }
    }
}

/// A name that some entry carries has a position.
pub proof fn lemma_present_has_position<T>(entries: Seq<(Seq<char>, T)>, key: Seq<char>, i: int)
    requires
        0 <= i < entries.len(),
        entries[i].0 == key,
    ensures
        position(entries, key) is Some,
    decreases i,
{
    if exists|j: int| 0 <= j < i && (#[trigger] entries[j]).0 == key {
        let j = choose|j: int| 0 <= j < i && (#[trigger] entries[j]).0 == key;
        lemma_present_has_position(entries, key, j);
    } else {
        assert(first_at(entries, key, i));
    }
}

/// The position of a name, where there is one, is a first position.
pub proof fn lemma_position_is_first<T>(entries: Seq<(Seq<char>, T)>, key: Seq<char>)
    requires
        position(entries, key) is Some,
    ensures
        first_at(entries, key, position(entries, key)->0),
{
}

/// The first position among `entries` that carries the name `key`.
pub fn find_member(entries: &Vec<(String, Value)>, key: &str) -> (r: Option<usize>)
    ensures
        match r {
            Some(i) => position(Value::Object(*entries)@.entries(), key@) == Some(i as int),
            None => position(Value::Object(*entries)@.entries(), key@) is None,
        },
        r matches Some(i) ==> i < entries.len(),
{
    let ghost model = Value::Object(*entries)@.entries();
    let mut i: usize = 0;
    while i < entries.len()
        invariant
            i <= entries.len(),
            model == Value::Object(*entries)@.entries(),
            model.len() == entries.len(),
            forall|j: int| 0 <= j < i ==> (#[trigger] model[j]).0 != key@,
        decreases entries.len() - i,
    {
        if same_text(entries[i].0.as_str(), key) {
            assert(first_at(model, key@, i as int));
            return Some(i);
        }
        i += 1;
    }
    assert forall|k: int| !first_at(model, key@, k) by {
        if 0 <= k < model.len() {
            assert(model[k].0 != key@);
        }
    }
    None
}

impl Value {
    /// The member of an object with the given name.
    pub fn get(&self, key: &str) -> (r: Option<&Value>)
        ensures
            match r {
                Some(v) => self@.member(key@) == Some(v@),
                None => self@.member(key@) is None,
            },
    {
        match self {
            Value::Object(entries) => {
                match find_member(entries, key) {
                    Some(i) => Some(&entries[i].1),
                    None => None,
                }
            },
            _ => {
                assert forall|k: int| !first_at(self@.entries(), key@, k) by {}
                None
            },
        }
    }

    /// The text of a string value.
    pub fn as_str(&self) -> (r: Option<&str>)
        ensures
            match r {
                Some(s) => self@ == Json::String(s@),
                None => !(self@ is String),
            },
    {
        match self {
            Value::String(s) => Some(s.as_str()),
            _ => None,
        }
    }

    /// The number of a number value.
    pub fn as_number(&self) -> (r: Option<Number>)
        ensures
            match r {
                Some(n) => self@ == Json::Number(n@),
                None => !(self@ is Number),
            },
    {
        match self {
            Value::Number(n) => Some(*n),
            _ => None,
        }
    }

    /// The elements of an array value.
    pub fn as_array(&self) -> (r: Option<&Vec<Value>>)
        ensures
            match r {
                Some(items) => {
                    &&& self@ is Array
                    &&& self@.elements().len() == items.len()
                    &&& forall|i: int|
                        0 <= i < items.len() ==> self@.elements()[i] == (#[trigger] items[i])@
                },
                None => !(self@ is Array),
            },
    {
        match self {
            Value::Array(items) => Some(items),
            _ => None,
        }
    }

    /// The entries of an object value.
    pub fn as_object(&self) -> (r: Option<&Vec<(String, Value)>>)
        ensures
            match r {
                Some(entries) => {
                    &&& self@ is Object
                    &&& self@.entries().len() == entries.len()
                    &&& forall|i: int|
                        0 <= i < entries.len() ==> self@.entries()[i] == (
                            (#[trigger] entries[i]).0@,
                            entries[i].1@,
                        )
                },
                None => !(self@ is Object),
            },
    {
        match self {
            Value::Object(entries) => Some(entries),
            _ => None,
        }
    }

    /// Whether this is an object.
    pub fn is_object(&self) -> (r: bool)
        ensures
            r == (self@ is Object),
    {
        match self {
            Value::Object(_) => true,
            _ => false,
        }
    }

    /// Whether this is an array.
    pub fn is_array(&self) -> (r: bool)
        ensures
            r == (self@ is Array),
    {
        match self {
            Value::Array(_) => true,
            _ => false,
        }
    }

    /// The truth value of a boolean value.
    pub fn as_bool(&self) -> (r: Option<bool>)
        ensures
            match r {
                Some(b) => self@ == Json::Bool(b),
                None => !(self@ is Bool),
            },
    {
        match self {
            Value::Bool(b) => Some(*b),
            _ => None,
        }
    }

    /// Deep equality of JSON values: see [`Json::same_as`].
    pub fn equals(&self, other: &Value) -> (r: bool)
        ensures
            r == self@.same_as(other@),
        decreases self,
    {
        match self {
            Value::Null => match other {
                Value::Null => true,
                _ => false,
            },
            Value::Bool(a) => match other {
                Value::Bool(b) => *a == *b,
                _ => false,
            },
            Value::Number(a) => match other {
                Value::Number(b) => a.equals(b),
                _ => false,
            },
            Value::String(a) => match other {
                Value::String(b) => same_text(a.as_str(), b.as_str()),
                _ => false,
            },
            Value::Array(a) => match other {
                Value::Array(b) => {
                    if a.len() != b.len() {
                        return false;
                    }
                    let mut i: usize = 0;
                    while i < a.len()
                        invariant
                            i <= a.len(),
                            a.len() == b.len(),
                            *self == Value::Array(*a),
                            *other == Value::Array(*b),
                            forall|j: int|
                                0 <= j < i ==> (#[trigger] self@.elements()[j]).same_as(
                                    other@.elements()[j],
                                ),
                        decreases a.len() - i,
                    {
                        proof {
                            assert(self->Array_0 == *a);
                            assert(decreases_to!(*self => self->Array_0));
                        }
                        if !a[i].equals(&b[i]) {
                            assert(!self@.elements()[i as int].same_as(other@.elements()[i as int]));
                            return false;
                        }
                        i += 1;
                    }
                    proof {
                        let x = self@->Array_0;
                        let y = other@->Array_0;
                        assert(other@ is Array);
                        assert(x.len() == y.len());
                        assert forall|k: int| 0 <= k < x.len() implies (#[trigger] x[k]).same_as(
                            y[k],
                        ) by {
                            assert(self@.elements()[k].same_as(other@.elements()[k]));
                        }
                    }
                    true
                },
                _ => false,
            },
            Value::Object(a) => match other {
                Value::Object(b) => {
                    let ghost ma = self@.entries();
                    let ghost mb = other@.entries();
                    let mut i: usize = 0;
                    while i < a.len()
                        invariant
                            i <= a.len(),
                            *self == Value::Object(*a),
                            *other == Value::Object(*b),
                            ma == self@.entries(),
                            mb == other@.entries(),
                            forall|k: int|
                                0 <= k < i && first_at(ma, ma[k].0, k) ==> {
                                    &&& other@.member(ma[k].0) is Some
                                    &&& (#[trigger] ma[k]).1.same_as(other@.member(ma[k].0)->0)
                                },
                        decreases a.len() - i,
                    {
                        let key = a[i].0.as_str();
                        let here = find_member(a, key);
                        proof {
                            if first_at(ma, ma[i as int].0, i as int) {
                                lemma_first_is_position(ma, key@, i as int);
                            }
                            if here is Some {
                                lemma_position_is_first(ma, key@);
                            }
                        }
                        if here == Some(i) {
                            match find_member(b, key) {
                                None => {
                                    return false;
                                },
                                Some(q) => {
                                    proof {
                                        assert(self->Object_0 == *a);
                                        assert(decreases_to!(*self => self->Object_0));
                                    }
                                    if !a[i].1.equals(&b[q].1) {
                                        assert(!ma[i as int].1.same_as(
                                            other@.member(ma[i as int].0)->0,
                                        ));
                                        return false;
                                    }
                                },
                            }
                        }
                        i += 1;
                    }
                    let mut j: usize = 0;
                    while j < b.len()
                        invariant
                            j <= b.len(),
                            *self == Value::Object(*a),
                            *other == Value::Object(*b),
                            ma == self@.entries(),
                            mb == other@.entries(),
                            forall|k: int| 0 <= k < j ==> self@.has_member((#[trigger] mb[k]).0),
                        decreases b.len() - j,
                    {
                        if find_member(a, b[j].0.as_str()).is_none() {
                            assert(!self@.has_member(mb[j as int].0));
                            return false;
                        }
                        j += 1;
                    }
                    true
                },
                _ => false,
            },
        }
    }
}

impl Clone for Value {
    /// A deep copy.
    fn clone(&self) -> (r: Value)
        ensures
            r@ == self@,
        decreases self,
    {
        match self {
            Value::Null => Value::Null,
            Value::Bool(b) => Value::Bool(*b),
            Value::Number(n) => Value::Number(*n),
            Value::String(s) => Value::String(s.clone()),
            Value::Array(items) => {
                let mut out: Vec<Value> = Vec::new();
                let mut i: usize = 0;
                while i < items.len()
                    invariant
                        i <= items.len(),
                        *self == Value::Array(*items),
                        out.len() == i,
                        forall|j: int| 0 <= j < i ==> (#[trigger] out[j])@ == items[j]@,
                    decreases items.len() - i,
                {
                    proof {
                        assert(self->Array_0 == *items);
                        assert(decreases_to!(*self => self->Array_0));
                    }
                    out.push(items[i].clone());
                    i += 1;
                }
                let r = Value::Array(out);
                assert(r@.elements() =~= self@.elements());
                r
            },
            Value::Object(entries) => {
                let mut out: Vec<(String, Value)> = Vec::new();
                let mut i: usize = 0;
                while i < entries.len()
                    invariant
                        i <= entries.len(),
                        *self == Value::Object(*entries),
                        out.len() == i,
                        forall|j: int|
                            0 <= j < i ==> (#[trigger] out[j]).0@ == entries[j].0@ && out[j].1@
                                == entries[j].1@,
                    decreases entries.len() - i,
                {
                    proof {
                        assert(self->Object_0 == *entries);
                        assert(decreases_to!(*self => self->Object_0));
                    }
                    out.push((entries[i].0.clone(), entries[i].1.clone()));
                    i += 1;
                }
                let r = Value::Object(out);
                assert(r@.entries() =~= self@.entries());
                r
            },
        }
    }
}

} // verus!
