//! The dynamic value model: a finite tagged tree of nulls, booleans,
//! numbers, text, arrays and string-keyed maps.  It is the canonical
//! in-memory shape of any storable record field.

use vstd::prelude::*;
use crate::number::Number;

verus! {

/// A dynamic value.  Maps are kept as entry lists in insertion order;
/// well-formed values have no repeated key within one map.
#[derive(Debug)]
pub enum Value {
    Null,
    Bool(bool),
    Number(Number),
    String(String),
    Array(Vec<Value>),
    Object(Vec<(String, Value)>),
}

/// The mathematical shape of a [`Value`]: text as character sequences,
/// lists as sequences.
pub enum ValueV {
    Null,
    Bool(bool),
    Number(Number),
    String(Seq<char>),
    Array(Seq<ValueV>),
    Object(Seq<(Seq<char>, ValueV)>),
}

/// The views of an array's elements, in order.
pub open spec fn arr_view(s: Seq<Value>) -> Seq<ValueV>
    decreases s,
{
    if s.len() == 0 {
        Seq::empty()
    } else {
        arr_view(s.drop_last()).push(value_view(s.last()))
    }
}

/// The views of a map's entries, in order.
pub open spec fn obj_view(s: Seq<(String, Value)>) -> Seq<(Seq<char>, ValueV)>
    decreases s,
{
    if s.len() == 0 {
        Seq::empty()
    } else {
        obj_view(s.drop_last()).push((s.last().0@, value_view(s.last().1)))
    }
}

/// The mathematical shape of a value.
pub open spec fn value_view(v: Value) -> ValueV
    decreases v,
{
    match v {
        Value::Null => ValueV::Null,
        Value::Bool(b) => ValueV::Bool(b),
        Value::Number(n) => ValueV::Number(n),
        Value::String(s) => ValueV::String(s@),
        Value::Array(a) => ValueV::Array(arr_view(a@)),
        Value::Object(m) => ValueV::Object(obj_view(m@)),
    }
}

impl View for Value {
    type V = ValueV;

    #[verifier::inline]
    open spec fn view(&self) -> ValueV {
        value_view(*self)
    }
}

/// Pointwise reading of [`arr_view`].
pub proof fn lemma_arr_view(s: Seq<Value>)
    ensures
        arr_view(s).len() == s.len(),
        forall|i: int| 0 <= i < s.len() ==> arr_view(s)[i] == value_view(#[trigger] s[i]),
    decreases s,
{
    if s.len() > 0 {
        lemma_arr_view(s.drop_last());
        assert(forall|i: int| 0 <= i < s.len() - 1 ==> s.drop_last()[i] == #[trigger] s[i]);
        assert(arr_view(s) == arr_view(s.drop_last()).push(value_view(s.last())));
    }
}

/// Pointwise reading of [`obj_view`].
pub proof fn lemma_obj_view(s: Seq<(String, Value)>)
    ensures
        obj_view(s).len() == s.len(),
        forall|i: int| 0 <= i < s.len() ==> obj_view(s)[i] == (#[trigger] s[i].0@, value_view(
            s[i].1,
        )),
    decreases s,
{
    if s.len() > 0 {
        lemma_obj_view(s.drop_last());
        assert(forall|i: int| 0 <= i < s.len() - 1 ==> s.drop_last()[i] == #[trigger] s[i]);
        assert(obj_view(s) == obj_view(s.drop_last()).push(
            (s.last().0@, value_view(s.last().1)),
        ));
    }
}

/// Structural copy of a value; the copy has the same view.
#[verifier::loop_isolation(false)]
pub fn clone_value(v: &Value) -> (r: Value)
    ensures
        r@ == v@,
    decreases v,
{
    match v {
        Value::Null => Value::Null,
        Value::Bool(b) => Value::Bool(*b),
        Value::Number(n) => Value::Number(*n),
        Value::String(s) => Value::String(s.clone()),
        Value::Array(a) => {
            let mut out: Vec<Value> = Vec::new();
            let mut i: usize = 0;
            while i < a.len()
                invariant
                    i <= a.len(),
                    out@.len() == i as int,
                    forall|k: int| 0 <= k < i ==> value_view(#[trigger] out@[k]) == value_view(
                        a@[k],
                    ),
                decreases a.len() - i,
            {
                out.push(clone_value(&a[i]));
                i += 1;
            }
            proof {
                lemma_arr_view(out@);
                lemma_arr_view(a@);
                assert forall|k: int| 0 <= k < a@.len() implies #[trigger] arr_view(out@)[k]
                    == arr_view(a@)[k] by {
                    assert(arr_view(out@)[k] == value_view(out@[k]));
                    assert(arr_view(a@)[k] == value_view(a@[k]));
                }
                assert(arr_view(out@) =~= arr_view(a@));
            }
            Value::Array(out)
        },
        Value::Object(m) => {
            let mut out: Vec<(String, Value)> = Vec::new();
            let mut i: usize = 0;
            while i < m.len()
                invariant
                    i <= m.len(),
                    out@.len() == i as int,
                    forall|k: int| 0 <= k < i ==> (#[trigger] out@[k]).0@ == m@[k].0@
                        && value_view(out@[k].1) == value_view(m@[k].1),
                decreases m.len() - i,
            {
                let entry: &(String, Value) = &m[i];
                out.push((entry.0.clone(), clone_value(&entry.1)));
                i += 1;
            }
            proof {
                lemma_obj_view(out@);
                lemma_obj_view(m@);
                assert forall|k: int| 0 <= k < m@.len() implies #[trigger] obj_view(out@)[k]
                    == obj_view(m@)[k] by {
                    assert(obj_view(out@)[k] == (out@[k].0@, value_view(out@[k].1)));
                    assert(obj_view(m@)[k] == (m@[k].0@, value_view(m@[k].1)));
                }
                assert(obj_view(out@) =~= obj_view(m@));
            }
            Value::Object(out)
        },
    }
}

impl Clone for Value {
    /// A clone is view-equal to the original.
    fn clone(&self) -> (r: Value)
        ensures
            r@ == self@,
    {
        clone_value(self)
    }
}

impl Value {
    /// `Null` becomes absence; any other value is kept.
    pub fn as_option(self) -> (r: Option<Value>)
        ensures
            self@ is Null <==> r is None,
            r matches Some(v) ==> v@ == self@,
    {
        match self {
            Value::Null => None,
            other => Some(other),
        }
    }

    /// Collapses an absent or `Null` value to absence.
    pub fn option(option: Option<Value>) -> (r: Option<Value>)
        ensures
            r is None <==> (option is None || option->0@ is Null),
            r matches Some(v) ==> option matches Some(o) && v@ == o@,
    {
        match option {
            None => None,
            Some(value) => value.as_option(),
        }
    }

    /// An absent value cannot be converted; a present one is handed on.
    pub fn from_option(option: Option<Value>) -> (r: Result<Value, String>)
        ensures
            r is Ok <==> option is Some,
            r matches Ok(v) ==> v@ == option->0@,
    {
        match option {
            None => Err(String::from_str("None value cannot be converted")),
            Some(value) => Ok(value),
        }
    }

    /// The numeric content of the value; zero for anything that is not
    /// a number.
    pub fn as_int(&self) -> (r: Number)
        ensures
            r == (if self@ is Number {
                self@->Number_0
            } else {
                Number::U8(0)
            }),
    {
        match self {
            Value::Number(number) => *number,
            _ => Number::U8(0),
        }
    }

    /// Conversion to `bool`: succeeds exactly on boolean values.
    pub fn to_bool(self) -> (r: Result<bool, String>)
        ensures
            r is Ok <==> self@ is Bool,
            r matches Ok(b) ==> self@ == ValueV::Bool(b),
    {
        match self {
            Value::Bool(boolean) => Ok(boolean),
            _ => Err(String::from_str("Cannot convert to bool")),
        }
    }

    /// Conversion to text: succeeds exactly on string values.
    pub fn to_text(self) -> (r: Result<String, String>)
        ensures
            r is Ok <==> self@ is String,
            r matches Ok(s) ==> self@ == ValueV::String(s@),
    {
        match self {
            Value::String(string) => Ok(string),
            _ => Err(String::from_str("Cannot convert to String")),
        }
    }

    /// Conversion to a number: succeeds exactly on numeric values.
    pub fn to_number(self) -> (r: Result<Number, String>)
        ensures
            r is Ok <==> self@ is Number,
            r matches Ok(n) ==> self@ == ValueV::Number(n),
    {
        match self {
            Value::Number(number) => Ok(number),
            _ => Err(String::from_str("Cannot convert to tuple")),
        }
    }

    /// Conversion to an element vector: succeeds exactly on arrays.
    pub fn to_array(self) -> (r: Result<Vec<Value>, String>)
        ensures
            r is Ok <==> self@ is Array,
            r matches Ok(a) ==> self@ == ValueV::Array(arr_view(a@)),
    {
        match self {
            Value::Array(array) => Ok(array),
            _ => Err(String::from_str("Cannot convert to Vec")),
        }
    }

    /// Conversion to an entry vector: succeeds exactly on maps.
    pub fn to_entries(self) -> (r: Result<Vec<(String, Value)>, String>)
        ensures
            r is Ok <==> self@ is Object,
            r matches Ok(m) ==> self@ == ValueV::Object(obj_view(m@)),
    {
        match self {
            Value::Object(map) => Ok(map),
            _ => Err(String::from_str("Cannot convert to HashMap")),
        }
    }
}

} // verus!
