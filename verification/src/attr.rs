//! The generic attribute encoding of the record store: the closed set of
//! attribute kinds (null, boolean, numeric string, string, binary blob,
//! string set, numeric set, ordered list, nested map) and the canonical,
//! documented conversion between it and the [`Value`](crate::value::Value)
//! tree.
//!
//! One path is deliberately lossy at the store layer: a non-empty
//! homogeneous all-number or all-string array is encoded as an *unordered
//! set* kind (or a byte blob when every element is an unsigned 8-bit
//! number).  The conversion itself preserves order and duplicates, but the
//! store deduplicates and reorders set attributes, so callers needing
//! order or duplicates in homogeneous arrays must avoid those shapes.

use vstd::prelude::*;
use crate::number::Number;
use crate::decimal::{int_dec_of, parse_dec};
use crate::decimal::{signed_dec, parse_signed_dec};
use crate::value::{Value, ValueV, arr_view, obj_view, lemma_arr_view, lemma_obj_view};
use crate::value::value_view;

verus! {

/// A store-native attribute value.
#[derive(Debug)]
pub enum Attr {
    /// Null marker.
    Null,
    /// Boolean attribute.
    Bool(bool),
    /// Numeric attribute, carried as a decimal string.
    N(String),
    /// String attribute.
    S(String),
    /// Binary blob.
    B(Vec<u8>),
    /// Unordered string set.
    Ss(Vec<String>),
    /// Unordered numeric-string set.
    Ns(Vec<String>),
    /// Ordered list, elements recursively encoded.
    L(Vec<Attr>),
    /// Nested attribute map.
    M(Vec<(String, Attr)>),
}

/// The mathematical shape of an [`Attr`].
pub enum AttrV {
    Null,
    Bool(bool),
    N(Seq<char>),
    S(Seq<char>),
    B(Seq<u8>),
    Ss(Seq<Seq<char>>),
    Ns(Seq<Seq<char>>),
    L(Seq<AttrV>),
    M(Seq<(Seq<char>, AttrV)>),
}

/// The views of a string vector's elements.
pub open spec fn strs_view(s: Seq<String>) -> Seq<Seq<char>> {
    Seq::new(s.len(), |i: int| s[i]@)
}

/// The views of an attribute list's elements, in order.
pub open spec fn attr_list_view(s: Seq<Attr>) -> Seq<AttrV>
    decreases s,
{
    if s.len() == 0 {
        Seq::empty()
    } else {
        attr_list_view(s.drop_last()).push(attr_view(s.last()))
    }
}

/// The views of an attribute map's entries, in order.
pub open spec fn attr_map_view(s: Seq<(String, Attr)>) -> Seq<(Seq<char>, AttrV)>
    decreases s,
{
    if s.len() == 0 {
        Seq::empty()
    } else {
        attr_map_view(s.drop_last()).push((s.last().0@, attr_view(s.last().1)))
    }
}

/// The mathematical shape of an attribute.
pub open spec fn attr_view(a: Attr) -> AttrV
    decreases a,
{
    match a {
        Attr::Null => AttrV::Null,
        Attr::Bool(b) => AttrV::Bool(b),
        Attr::N(s) => AttrV::N(s@),
        Attr::S(s) => AttrV::S(s@),
        Attr::B(bytes) => AttrV::B(bytes@),
        Attr::Ss(strs) => AttrV::Ss(strs_view(strs@)),
        Attr::Ns(strs) => AttrV::Ns(strs_view(strs@)),
        Attr::L(items) => AttrV::L(attr_list_view(items@)),
        Attr::M(entries) => AttrV::M(attr_map_view(entries@)),
    }
}

impl View for Attr {
    type V = AttrV;

    #[verifier::inline]
    open spec fn view(&self) -> AttrV {
        attr_view(*self)
    }
}

/// Pointwise reading of [`attr_list_view`].
pub proof fn lemma_attr_list_view(s: Seq<Attr>)
    ensures
        attr_list_view(s).len() == s.len(),
        forall|i: int| 0 <= i < s.len() ==> attr_list_view(s)[i] == attr_view(#[trigger] s[i]),
    decreases s,
{
    if s.len() > 0 {
        lemma_attr_list_view(s.drop_last());
        assert(forall|i: int| 0 <= i < s.len() - 1 ==> s.drop_last()[i] == #[trigger] s[i]);
        assert(attr_list_view(s) == attr_list_view(s.drop_last()).push(attr_view(s.last())));
    }
}

/// Pointwise reading of [`attr_map_view`].
pub proof fn lemma_attr_map_view(s: Seq<(String, Attr)>)
    ensures
        attr_map_view(s).len() == s.len(),
        forall|i: int| 0 <= i < s.len() ==> attr_map_view(s)[i] == (#[trigger] s[i].0@, attr_view(
            s[i].1,
        )),
    decreases s,
{
    if s.len() > 0 {
        lemma_attr_map_view(s.drop_last());
        assert(forall|i: int| 0 <= i < s.len() - 1 ==> s.drop_last()[i] == #[trigger] s[i]);
        assert(attr_map_view(s) == attr_map_view(s.drop_last()).push(
            (s.last().0@, attr_view(s.last().1)),
        ));
    }
}

/// The decimal text of a number, as the numeric attribute kind carries it.
pub open spec fn num_dec(n: Number) -> Seq<char> {
    int_dec_of(n.as_int())
}

/// The number a numeric-attribute string stands for: its parsed value
/// under the canonical kind tag.
pub open spec fn dec_number(s: Seq<char>) -> Option<Number> {
    match parse_dec(s) {
        Option::None => None,
        Option::Some(i) => Number::canonical_of(i),
    }
}

pub open spec fn all_number_values(s: Seq<ValueV>) -> bool {
    forall|i: int| 0 <= i < s.len() ==> (#[trigger] s[i]) is Number
}

pub open spec fn all_u8_values(s: Seq<ValueV>) -> bool {
    forall|i: int| 0 <= i < s.len() ==> (#[trigger] s[i]) matches ValueV::Number(Number::U8(_))
}

pub open spec fn all_string_values(s: Seq<ValueV>) -> bool {
    forall|i: int| 0 <= i < s.len() ==> (#[trigger] s[i]) is String
}

pub open spec fn all_u8_numbers(s: Seq<Number>) -> bool {
    forall|i: int| 0 <= i < s.len() ==> (#[trigger] s[i]) is U8
}

pub open spec fn all_numeric_strs(s: Seq<Seq<char>>) -> bool {
    forall|i: int| 0 <= i < s.len() ==> dec_number(#[trigger] s[i]) is Some
}

/// The byte-blob encoding of an all-`U8` number sequence.
pub open spec fn bytes_of_numbers(s: Seq<Number>) -> Seq<u8> {
    Seq::new(s.len(), |i: int| s[i]->U8_0)
}

/// The numeric-set encoding of a number sequence.
pub open spec fn num_strs_of_numbers(s: Seq<Number>) -> Seq<Seq<char>> {
    Seq::new(s.len(), |i: int| num_dec(s[i]))
}

/// The encoding of a homogeneous numeric array: a byte blob when every
/// element is an unsigned 8-bit value, an unordered numeric set otherwise.
pub open spec fn num_set_attr(s: Seq<Number>) -> AttrV {
    if all_u8_numbers(s) {
        AttrV::B(bytes_of_numbers(s))
    } else {
        AttrV::Ns(num_strs_of_numbers(s))
    }
}

/// The numbers carried by an all-number value sequence.
pub open spec fn numbers_of(s: Seq<ValueV>) -> Seq<Number> {
    Seq::new(s.len(), |i: int| s[i]->Number_0)
}

/// The strings carried by an all-string value sequence.
pub open spec fn str_views_of(s: Seq<ValueV>) -> Seq<Seq<char>> {
    Seq::new(s.len(), |i: int| s[i]->String_0)
}

/// The canonical encoding of a value as a store attribute.
pub open spec fn encode_spec(v: ValueV) -> AttrV
    decreases v,
{
    match v {
        ValueV::Null => AttrV::Null,
        ValueV::Bool(b) => AttrV::Bool(b),
        ValueV::Number(n) => AttrV::N(num_dec(n)),
        ValueV::String(s) => AttrV::S(s),
        ValueV::Array(a) => {
            if a.len() == 0 {
                AttrV::L(Seq::empty())
            } else if all_number_values(a) {
                num_set_attr(numbers_of(a))
            } else if all_string_values(a) {
                AttrV::Ss(str_views_of(a))
            } else {
                AttrV::L(encode_list_spec(a))
            }
        },
        ValueV::Object(m) => AttrV::M(encode_map_spec(m)),
    }
}

/// Elementwise encoding of a list, in order.
pub open spec fn encode_list_spec(s: Seq<ValueV>) -> Seq<AttrV>
    decreases s,
{
    if s.len() == 0 {
        Seq::empty()
    } else {
        encode_list_spec(s.drop_last()).push(encode_spec(s.last()))
    }
}

/// Entrywise encoding of a map, in order.
pub open spec fn encode_map_spec(s: Seq<(Seq<char>, ValueV)>) -> Seq<(Seq<char>, AttrV)>
    decreases s,
{
    if s.len() == 0 {
        Seq::empty()
    } else {
        encode_map_spec(s.drop_last()).push((s.last().0, encode_spec(s.last().1)))
    }
}

/// The canonical decoding of a store attribute back into a value;
/// `None` on malformed numeric strings.
pub open spec fn decode_spec(a: AttrV) -> Option<ValueV>
    decreases a,
{
    match a {
        AttrV::Null => Some(ValueV::Null),
        AttrV::Bool(b) => Some(ValueV::Bool(b)),
        AttrV::N(s) => match dec_number(s) {
            Option::None => None,
            Option::Some(n) => Some(ValueV::Number(n)),
        },
        AttrV::S(s) => Some(ValueV::String(s)),
        AttrV::B(bytes) => Some(
            ValueV::Array(Seq::new(bytes.len(), |i: int| ValueV::Number(Number::U8(bytes[i])))),
        ),
        AttrV::Ns(strs) => {
            if all_numeric_strs(strs) {
                Some(
                    ValueV::Array(
                        Seq::new(
                            strs.len(),
                            |i: int|
                                ValueV::Number(
                                    match dec_number(strs[i]) {
                                        Option::Some(n) => n,
                                        Option::None => Number::U8(0),
                                    },
                                ),
                        ),
                    ),
                )
            } else {
                None
            }
        },
        AttrV::Ss(strs) => Some(
            ValueV::Array(Seq::new(strs.len(), |i: int| ValueV::String(strs[i]))),
        ),
        AttrV::L(items) => match decode_list_spec(items) {
            Option::None => None,
            Option::Some(vs) => Some(ValueV::Array(vs)),
        },
        AttrV::M(entries) => match decode_map_spec(entries) {
            Option::None => None,
            Option::Some(es) => Some(ValueV::Object(es)),
        },
    }
}

/// Elementwise decoding of a list; fails if any element fails.
pub open spec fn decode_list_spec(s: Seq<AttrV>) -> Option<Seq<ValueV>>
    decreases s,
{
    if s.len() == 0 {
        Some(Seq::empty())
    } else {
        match (decode_list_spec(s.drop_last()), decode_spec(s.last())) {
            (Option::Some(rest), Option::Some(last)) => Some(rest.push(last)),
            _ => None,
        }
    }
}

/// Entrywise decoding of a map; fails if any entry fails.
pub open spec fn decode_map_spec(s: Seq<(Seq<char>, AttrV)>) -> Option<Seq<(Seq<char>, ValueV)>>
    decreases s,
{
    if s.len() == 0 {
        Some(Seq::empty())
    } else {
        match (decode_map_spec(s.drop_last()), decode_spec(s.last().1)) {
            (Option::Some(rest), Option::Some(last)) => Some(rest.push((s.last().0, last))),
            _ => None,
        }
    }
}

/// Every number in the tree carries its canonical kind tag.
pub open spec fn canonical_numbers(v: ValueV) -> bool
    decreases v,
{
    match v {
        ValueV::Number(n) => n.is_canonical(),
        ValueV::Array(a) => canonical_numbers_list(a),
        ValueV::Object(m) => canonical_numbers_map(m),
        _ => true,
    }
}

pub open spec fn canonical_numbers_list(s: Seq<ValueV>) -> bool
    decreases s,
{
    if s.len() == 0 {
        true
    } else {
        canonical_numbers_list(s.drop_last()) && canonical_numbers(s.last())
    }
}

pub open spec fn canonical_numbers_map(s: Seq<(Seq<char>, ValueV)>) -> bool
    decreases s,
{
    if s.len() == 0 {
        true
    } else {
        canonical_numbers_map(s.drop_last()) && canonical_numbers(s.last().1)
    }
}

/// Pointwise reading of [`canonical_numbers_list`].
pub proof fn lemma_canonical_list(s: Seq<ValueV>)
    requires
        canonical_numbers_list(s),
    ensures
        forall|i: int| 0 <= i < s.len() ==> canonical_numbers(#[trigger] s[i]),
    decreases s,
{
    if s.len() > 0 {
        lemma_canonical_list(s.drop_last());
        assert(forall|i: int| 0 <= i < s.len() - 1 ==> s.drop_last()[i] == #[trigger] s[i]);
    }
}

/// Pointwise reading of [`canonical_numbers_map`].
pub proof fn lemma_canonical_map(s: Seq<(Seq<char>, ValueV)>)
    requires
        canonical_numbers_map(s),
    ensures
        forall|i: int| 0 <= i < s.len() ==> canonical_numbers((#[trigger] s[i]).1),
    decreases s,
{
    if s.len() > 0 {
        lemma_canonical_map(s.drop_last());
        assert(forall|i: int| 0 <= i < s.len() - 1 ==> s.drop_last()[i] == #[trigger] s[i]);
    }
}

/// A canonically tagged number survives the numeric text form.
pub proof fn lemma_num_roundtrip(n: Number)
    requires
        n.is_canonical(),
    ensures
        dec_number(num_dec(n)) == Some(n),
{
    crate::decimal::lemma_parse_int_dec_of(n.as_int());
}

/// Round trip of the conversion itself: decoding an encoded value gives
/// the value back, provided its numbers carry canonical kind tags.  (The
/// store layer may still deduplicate or reorder set-encoded arrays; that
/// loss lives outside this conversion.)
pub proof fn lemma_decode_encode(v: ValueV)
    requires
        canonical_numbers(v),
    ensures
        decode_spec(encode_spec(v)) == Some(v),
    decreases v,
{
    match v {
        ValueV::Null => {},
        ValueV::Bool(_) => {},
        ValueV::Number(n) => {
            lemma_num_roundtrip(n);
        },
        ValueV::String(_) => {},
        ValueV::Array(a) => {
            lemma_canonical_list(a);
            if a.len() == 0 {
                assert(decode_list_spec(Seq::empty()) == Some(Seq::<ValueV>::empty()));
                assert(v == ValueV::Array(a));
                assert(a =~= Seq::<ValueV>::empty());
            } else if all_number_values(a) {
                let nums = numbers_of(a);
                if all_u8_numbers(nums) {
                    let bytes = bytes_of_numbers(nums);
                    let back = Seq::new(
                        bytes.len(),
                        |i: int| ValueV::Number(Number::U8(bytes[i])),
                    );
                    assert forall|i: int| 0 <= i < a.len() implies back[i] == a[i] by {
                        assert(a[i] is Number);
                        assert(a[i] == ValueV::Number(nums[i]));
                        assert(nums[i] is U8);
                        assert(bytes[i] == nums[i]->U8_0);
                    }
                    assert(back =~= a);
                } else {
                    let strs = num_strs_of_numbers(nums);
                    assert forall|i: int| 0 <= i < strs.len() implies dec_number(
                        #[trigger] strs[i],
                    ) == Some(nums[i]) by {
                        assert(canonical_numbers(a[i]));
                        lemma_num_roundtrip(nums[i]);
                    }
                    assert(all_numeric_strs(strs));
                    let back = Seq::new(
                        strs.len(),
                        |i: int|
                            ValueV::Number(
                                match dec_number(strs[i]) {
                                    Option::Some(n) => n,
                                    Option::None => Number::U8(0),
                                },
                            ),
                    );
                    assert forall|i: int| 0 <= i < a.len() implies back[i] == a[i] by {
                        assert(dec_number(strs[i]) == Some(nums[i]));
                        assert(a[i] is Number);
                    }
                    assert(back =~= a);
                }
            } else if all_string_values(a) {
                let strs = str_views_of(a);
                let back = Seq::new(strs.len(), |i: int| ValueV::String(strs[i]));
                assert forall|i: int| 0 <= i < a.len() implies back[i] == a[i] by {
                    assert(a[i] is String);
                }
                assert(back =~= a);
            } else {
                lemma_decode_encode_list(a);
            }
        },
        ValueV::Object(m) => {
            lemma_decode_encode_map(m);
        },
    }
}

/// List form of the round trip.
pub proof fn lemma_decode_encode_list(s: Seq<ValueV>)
    requires
        canonical_numbers_list(s),
    ensures
        decode_list_spec(encode_list_spec(s)) == Some(s),
    decreases s,
{
    if s.len() == 0 {
        assert(s =~= Seq::<ValueV>::empty());
    } else {
        lemma_decode_encode_list(s.drop_last());
        lemma_decode_encode(s.last());
        let es = encode_list_spec(s);
        assert(es == encode_list_spec(s.drop_last()).push(encode_spec(s.last())));
        assert(es.drop_last() =~= encode_list_spec(s.drop_last()));
        assert(es.last() == encode_spec(s.last()));
        assert(decode_list_spec(es) == Some(s.drop_last().push(s.last())));
        assert(s.drop_last().push(s.last()) =~= s);
    }
}

/// Map form of the round trip.
pub proof fn lemma_decode_encode_map(s: Seq<(Seq<char>, ValueV)>)
    requires
        canonical_numbers_map(s),
    ensures
        decode_map_spec(encode_map_spec(s)) == Some(s),
    decreases s,
{
    if s.len() == 0 {
        assert(s =~= Seq::<(Seq<char>, ValueV)>::empty());
    } else {
        lemma_decode_encode_map(s.drop_last());
        lemma_decode_encode(s.last().1);
        let es = encode_map_spec(s);
        assert(es == encode_map_spec(s.drop_last()).push(
            (s.last().0, encode_spec(s.last().1)),
        ));
        assert(es.drop_last() =~= encode_map_spec(s.drop_last()));
        assert(es.last() == (s.last().0, encode_spec(s.last().1)));
        assert(decode_map_spec(es) == Some(s.drop_last().push((s.last().0, s.last().1))));
        assert(s.drop_last().push((s.last().0, s.last().1)) =~= s);
    }
}

/// Renders a number in the decimal text form of the numeric attribute kind.
pub fn number_dec_string(n: &Number) -> (r: String)
    ensures
        r@ == num_dec(*n),
{
    let (neg, mag): (bool, u128) = n.parts();
    signed_dec(neg, mag)
}

/// The single numeric attribute for one number.
pub fn number_attr(n: &Number) -> (r: Attr)
    ensures
        r@ == AttrV::N(num_dec(*n)),
{
    Attr::N(number_dec_string(n))
}

impl Number {
    /// The homogeneous-array encoding of a number list: a byte blob when
    /// every element is an unsigned 8-bit value (each byte one element),
    /// an unordered numeric-string set otherwise.
    pub fn attribute_value(values: &Vec<Number>) -> (r: Attr)
        ensures
            r@ == num_set_attr(values@),
    {
        let mut is_all_u8: bool = true;
        let mut i: usize = 0;
        while i < values.len()
            invariant
                i <= values@.len(),
                is_all_u8 <==> forall|k: int| 0 <= k < i ==> (#[trigger] values@[k]) is U8,
            decreases values@.len() - i,
        {
            match values[i] {
                Number::U8(_) => {},
                _ => {
                    is_all_u8 = false;
                },
            }
            i += 1;
        }
        if is_all_u8 {
            let mut blob: Vec<u8> = Vec::new();
            let mut j: usize = 0;
            while j < values.len()
                invariant
                    j <= values@.len(),
                    all_u8_numbers(values@),
                    blob@.len() == j as int,
                    forall|k: int| 0 <= k < j ==> blob@[k] == (#[trigger] values@[k])->U8_0,
                decreases values@.len() - j,
            {
                match values[j] {
                    Number::U8(num) => blob.push(num),
                    _ => {
                        proof {
                            assert(false);
                        }
                        blob.push(0)
                    },
                }
                j += 1;
            }
            proof {
                assert(blob@ =~= bytes_of_numbers(values@));
            }
            Attr::B(blob)
        } else {
            let mut number_set: Vec<String> = Vec::new();
            let mut j: usize = 0;
            while j < values.len()
                invariant
                    j <= values@.len(),
                    number_set@.len() == j as int,
                    forall|k: int| 0 <= k < j ==> number_set@[k]@ == num_dec(
                        #[trigger] values@[k],
                    ),
                decreases values@.len() - j,
            {
                number_set.push(number_dec_string(&values[j]));
                j += 1;
            }
            proof {
                assert(strs_view(number_set@) =~= num_strs_of_numbers(values@));
            }
            Attr::Ns(number_set)
        }
    }
}

/// Encodes a value as a store attribute, by the canonical rules.
#[verifier::loop_isolation(false)]
pub fn encode(value: &Value) -> (r: Attr)
    ensures
        r@ == encode_spec(value@),
    decreases value,
{
    match value {
        Value::Null => Attr::Null,
        Value::Bool(b) => Attr::Bool(*b),
        Value::Number(n) => Attr::N(number_dec_string(n)),
        Value::String(s) => Attr::S(s.clone()),
        Value::Object(m) => {
            let mut out: Vec<(String, Attr)> = Vec::new();
            let mut i: usize = 0;
            while i < m.len()
                invariant
                    i <= m@.len(),
                    out@.len() == i as int,
                    forall|k: int| 0 <= k < i ==> (#[trigger] out@[k]).0@ == m@[k].0@
                        && out@[k].1@ == encode_spec(m@[k].1@),
                decreases m@.len() - i,
            {
                let entry: &(String, Value) = &m[i];
                out.push((entry.0.clone(), encode(&entry.1)));
                i += 1;
            }
            proof {
                lemma_attr_map_view(out@);
                lemma_obj_view(m@);
                lemma_encode_map_pointwise(obj_view(m@));
                assert forall|k: int| 0 <= k < m@.len() implies #[trigger] attr_map_view(
                    out@,
                )[k] == encode_map_spec(obj_view(m@))[k] by {
                    assert(attr_map_view(out@)[k] == (out@[k].0@, attr_view(out@[k].1)));
                    assert(obj_view(m@)[k] == (m@[k].0@, value_view(m@[k].1)));
                    assert(encode_map_spec(obj_view(m@))[k] == (
                        obj_view(m@)[k].0,
                        encode_spec(obj_view(m@)[k].1),
                    ));
                }
                assert(attr_map_view(out@) =~= encode_map_spec(obj_view(m@)));
            }
            Attr::M(out)
        },
        Value::Array(a) => {
            if a.len() == 0 {
                proof {
                    lemma_arr_view(a@);
                    assert(arr_view(a@) =~= Seq::<ValueV>::empty());
                    assert(attr_list_view(Seq::<Attr>::empty()) =~= Seq::<AttrV>::empty());
                }
                Attr::L(Vec::new())
            } else {
                proof {
                    lemma_arr_view(a@);
                }
                let mut all_num: bool = true;
                let mut all_str: bool = true;
                let mut i: usize = 0;
                while i < a.len()
                    invariant
                        i <= a@.len(),
                        all_num <==> forall|k: int|
                            0 <= k < i ==> (#[trigger] arr_view(a@)[k]) is Number,
                        all_str <==> forall|k: int|
                            0 <= k < i ==> (#[trigger] arr_view(a@)[k]) is String,
                    decreases a@.len() - i,
                {
                    match &a[i] {
                        Value::Number(_) => {
                            all_str = false;
                        },
                        Value::String(_) => {
                            all_num = false;
                        },
                        _ => {
                            all_num = false;
                            all_str = false;
                        },
                    }
                    i += 1;
                }
                if all_num {
                    let mut nums: Vec<Number> = Vec::new();
                    let mut j: usize = 0;
                    while j < a.len()
                        invariant
                            j <= a@.len(),
                            all_number_values(arr_view(a@)),
                            nums@.len() == j as int,
                            forall|k: int| 0 <= k < j ==> (#[trigger] nums@[k]) == arr_view(
                                a@,
                            )[k]->Number_0,
                        decreases a@.len() - j,
                    {
                        match &a[j] {
                            Value::Number(n) => nums.push(*n),
                            _ => {
                                proof {
                                    assert(arr_view(a@)[j as int] is Number);
                                    assert(false);
                                }
                                nums.push(Number::U8(0))
                            },
                        }
                        j += 1;
                    }
                    let r = Number::attribute_value(&nums);
                    proof {
                        assert(nums@ =~= numbers_of(arr_view(a@)));
                    }
                    r
                } else if all_str {
                    let mut strs: Vec<String> = Vec::new();
                    let mut j: usize = 0;
                    while j < a.len()
                        invariant
                            j <= a@.len(),
                            all_string_values(arr_view(a@)),
                            strs@.len() == j as int,
                            forall|k: int| 0 <= k < j ==> (#[trigger] strs@[k])@ == arr_view(
                                a@,
                            )[k]->String_0,
                        decreases a@.len() - j,
                    {
                        match &a[j] {
                            Value::String(s) => strs.push(s.clone()),
                            _ => {
                                proof {
                                    assert(arr_view(a@)[j as int] is String);
                                    assert(false);
                                }
                                strs.push(String::new())
                            },
                        }
                        j += 1;
                    }
                    proof {
                        assert(strs_view(strs@) =~= str_views_of(arr_view(a@)));
                    }
                    Attr::Ss(strs)
                } else {
                    let mut out: Vec<Attr> = Vec::new();
                    let mut j: usize = 0;
                    while j < a.len()
                        invariant
                            j <= a@.len(),
                            out@.len() == j as int,
                            forall|k: int| 0 <= k < j ==> (#[trigger] out@[k])@ == encode_spec(
                                arr_view(a@)[k],
                            ),
                        decreases a@.len() - j,
                    {
                        out.push(encode(&a[j]));
                        j += 1;
                    }
                    proof {
                        lemma_attr_list_view(out@);
                        lemma_encode_list_pointwise(arr_view(a@));
                        assert forall|k: int| 0 <= k < a@.len() implies #[trigger] attr_list_view(
                            out@,
                        )[k] == encode_list_spec(arr_view(a@))[k] by {
                            assert(attr_list_view(out@)[k] == attr_view(out@[k]));
                            assert(encode_list_spec(arr_view(a@))[k] == encode_spec(
                                arr_view(a@)[k],
                            ));
                        }
                        assert(attr_list_view(out@) =~= encode_list_spec(arr_view(a@)));
                    }
                    Attr::L(out)
                }
            }
        },
    }
}

/// Pointwise reading of [`encode_list_spec`].
pub proof fn lemma_encode_list_pointwise(s: Seq<ValueV>)
    ensures
        encode_list_spec(s).len() == s.len(),
        forall|i: int| 0 <= i < s.len() ==> encode_list_spec(s)[i] == encode_spec(
            #[trigger] s[i],
        ),
    decreases s,
{
    if s.len() > 0 {
        lemma_encode_list_pointwise(s.drop_last());
        assert(forall|i: int| 0 <= i < s.len() - 1 ==> s.drop_last()[i] == #[trigger] s[i]);
        assert(encode_list_spec(s) == encode_list_spec(s.drop_last()).push(
            encode_spec(s.last()),
        ));
    }
}

/// Pointwise reading of [`encode_map_spec`].
pub proof fn lemma_encode_map_pointwise(s: Seq<(Seq<char>, ValueV)>)
    ensures
        encode_map_spec(s).len() == s.len(),
        forall|i: int| 0 <= i < s.len() ==> encode_map_spec(s)[i] == (
            (#[trigger] s[i]).0,
            encode_spec(s[i].1),
        ),
    decreases s,
{
    if s.len() > 0 {
        lemma_encode_map_pointwise(s.drop_last());
        assert(forall|i: int| 0 <= i < s.len() - 1 ==> s.drop_last()[i] == #[trigger] s[i]);
        assert(encode_map_spec(s) == encode_map_spec(s.drop_last()).push(
            (s.last().0, encode_spec(s.last().1)),
        ));
    }
}

/// One failing element makes a whole list decode fail.
proof fn lemma_decode_list_none(s: Seq<AttrV>, j: int)
    requires
        0 <= j < s.len(),
        decode_spec(s[j]) is None,
    ensures
        decode_list_spec(s) is None,
    decreases s,
{
    if j == s.len() - 1 {
    } else {
        assert(s.drop_last()[j] == s[j]);
        lemma_decode_list_none(s.drop_last(), j);
    }
}

/// One failing entry makes a whole map decode fail.
proof fn lemma_decode_map_none(s: Seq<(Seq<char>, AttrV)>, j: int)
    requires
        0 <= j < s.len(),
        decode_spec(s[j].1) is None,
    ensures
        decode_map_spec(s) is None,
    decreases s,
{
    if j == s.len() - 1 {
    } else {
        assert(s.drop_last()[j] == s[j]);
        lemma_decode_map_none(s.drop_last(), j);
    }
}

/// Decodes a store attribute back into a value; an error marks malformed
/// stored data (distinct from a record simply being absent).
#[verifier::loop_isolation(false)]
pub fn decode(attr: &Attr) -> (r: Result<Value, String>)
    ensures
        r matches Ok(v) ==> decode_spec(attr@) == Some(v@),
        r is Err ==> decode_spec(attr@) is None,
    decreases attr,
{
    match attr {
        Attr::Null => Ok(Value::Null),
        Attr::Bool(b) => Ok(Value::Bool(*b)),
        Attr::N(s) => {
            match parse_signed_dec(s.as_str()) {
                None => Err(String::from_str("malformed numeric attribute")),
                Some((neg, mag)) => {
                    match Number::canonical_from_parts(neg, mag) {
                        None => Err(String::from_str("numeric attribute out of range")),
                        Some(n) => Ok(Value::Number(n)),
                    }
                },
            }
        },
        Attr::S(s) => Ok(Value::String(s.clone())),
        Attr::B(bytes) => {
            let mut out: Vec<Value> = Vec::new();
            let mut i: usize = 0;
            while i < bytes.len()
                invariant
                    i <= bytes@.len(),
                    out@.len() == i as int,
                    forall|k: int| 0 <= k < i ==> value_view(#[trigger] out@[k])
                        == ValueV::Number(Number::U8(bytes@[k])),
                decreases bytes@.len() - i,
            {
                out.push(Value::Number(Number::U8(bytes[i])));
                i += 1;
            }
            proof {
                lemma_arr_view(out@);
                assert forall|k: int| 0 <= k < bytes@.len() implies #[trigger] arr_view(out@)[k]
                    == ValueV::Number(Number::U8(bytes@[k])) by {
                    assert(arr_view(out@)[k] == value_view(out@[k]));
                }
                assert(arr_view(out@) =~= Seq::new(
                    bytes@.len(),
                    |k: int| ValueV::Number(Number::U8(bytes@[k])),
                ));
            }
            Ok(Value::Array(out))
        },
        Attr::Ss(strs) => {
            let mut out: Vec<Value> = Vec::new();
            let mut i: usize = 0;
            while i < strs.len()
                invariant
                    i <= strs@.len(),
                    out@.len() == i as int,
                    forall|k: int| 0 <= k < i ==> value_view(#[trigger] out@[k])
                        == ValueV::String(strs@[k]@),
                decreases strs@.len() - i,
            {
                out.push(Value::String(strs[i].clone()));
                i += 1;
            }
            proof {
                lemma_arr_view(out@);
                assert forall|k: int| 0 <= k < strs@.len() implies #[trigger] arr_view(out@)[k]
                    == ValueV::String(strs_view(strs@)[k]) by {
                    assert(arr_view(out@)[k] == value_view(out@[k]));
                    assert(value_view(out@[k]) == ValueV::String(strs@[k]@));
                    assert(strs_view(strs@)[k] == strs@[k]@);
                }
                assert(arr_view(out@) =~= Seq::new(
                    strs_view(strs@).len(),
                    |k: int| ValueV::String(strs_view(strs@)[k]),
                ));
            }
            Ok(Value::Array(out))
        },
        Attr::Ns(strs) => {
            let mut out: Vec<Value> = Vec::new();
            let mut i: usize = 0;
            while i < strs.len()
                invariant
                    i <= strs@.len(),
                    out@.len() == i as int,
                    forall|k: int| 0 <= k < i ==> dec_number(strs_view(strs@)[k]) is Some,
                    forall|k: int| 0 <= k < i ==> value_view(#[trigger] out@[k])
                        == ValueV::Number(dec_number(strs_view(strs@)[k])->0),
                decreases strs@.len() - i,
            {
                proof {
                    assert(strs_view(strs@)[i as int] == strs@[i as int]@);
                }
                let parsed: Option<(bool, u128)> = parse_signed_dec(strs[i].as_str());
                match parsed {
                    None => {
                        proof {
                            assert(dec_number(strs_view(strs@)[i as int]) is None);
                            assert(!all_numeric_strs(strs_view(strs@)));
                        }
                        return Err(String::from_str("malformed numeric set member"));
                    },
                    Some((neg, mag)) => {
                        match Number::canonical_from_parts(neg, mag) {
                            None => {
                                proof {
                                    assert(dec_number(strs_view(strs@)[i as int]) is None);
                                    assert(!all_numeric_strs(strs_view(strs@)));
                                }
                                return Err(String::from_str("numeric set member out of range"));
                            },
                            Some(n) => {
                                out.push(Value::Number(n));
                            },
                        }
                    },
                }
                i += 1;
            }
            proof {
                lemma_arr_view(out@);
                assert(all_numeric_strs(strs_view(strs@)));
                let back = Seq::new(
                    strs_view(strs@).len(),
                    |k: int|
                        ValueV::Number(
                            match dec_number(strs_view(strs@)[k]) {
                                Option::Some(n) => n,
                                Option::None => Number::U8(0),
                            },
                        ),
                );
                assert forall|k: int| 0 <= k < strs@.len() implies #[trigger] arr_view(out@)[k]
                    == back[k] by {
                    assert(arr_view(out@)[k] == value_view(out@[k]));
                    assert(value_view(out@[k]) == ValueV::Number(
                        dec_number(strs_view(strs@)[k])->0,
                    ));
                }
                assert(arr_view(out@) =~= back);
            }
            Ok(Value::Array(out))
        },
        Attr::L(items) => {
            let ghost s: Seq<AttrV> = attr_list_view(items@);
            proof {
                lemma_attr_list_view(items@);
            }
            let mut out: Vec<Value> = Vec::new();
            let mut i: usize = 0;
            while i < items.len()
                invariant
                    i <= items@.len(),
                    s == attr_list_view(items@),
                    out@.len() == i as int,
                    decode_list_spec(s.take(i as int)) == Some(arr_view(out@)),
                decreases items@.len() - i,
            {
                match decode(&items[i]) {
                    Err(e) => {
                        proof {
                            lemma_decode_list_none(s, i as int);
                        }
                        return Err(e);
                    },
                    Ok(v) => {
                        proof {
                            assert((out@.push(v)).drop_last() =~= out@);
                            assert((out@.push(v)).last() == v);
                            assert(arr_view(out@.push(v)) == arr_view(out@).push(value_view(v)));
                            assert(s.take(i + 1).drop_last() =~= s.take(i as int));
                            assert(s.take(i + 1).last() == s[i as int]);
                        }
                        out.push(v);
                    },
                }
                i += 1;
            }
            proof {
                assert(s.take(i as int) =~= s);
            }
            Ok(Value::Array(out))
        },
        Attr::M(entries) => {
            let ghost s: Seq<(Seq<char>, AttrV)> = attr_map_view(entries@);
            proof {
                lemma_attr_map_view(entries@);
            }
            let mut out: Vec<(String, Value)> = Vec::new();
            let mut i: usize = 0;
            while i < entries.len()
                invariant
                    i <= entries@.len(),
                    s == attr_map_view(entries@),
                    out@.len() == i as int,
                    decode_map_spec(s.take(i as int)) == Some(obj_view(out@)),
                decreases entries@.len() - i,
            {
                let entry: &(String, Attr) = &entries[i];
                match decode(&entry.1) {
                    Err(e) => {
                        proof {
                            assert(s[i as int] == (
                                entries@[i as int].0@,
                                attr_view(entries@[i as int].1),
                            ));
                            lemma_decode_map_none(s, i as int);
                        }
                        return Err(e);
                    },
                    Ok(v) => {
                        let key: String = entry.0.clone();
                        proof {
                            assert((out@.push((key, v))).drop_last() =~= out@);
                            assert((out@.push((key, v))).last() == (key, v));
                            assert(obj_view(out@.push((key, v))) == obj_view(out@).push(
                                (key@, value_view(v)),
                            ));
                            assert(s.take(i + 1).drop_last() =~= s.take(i as int));
                            assert(s.take(i + 1).last() == s[i as int]);
                            assert(s[i as int] == (
                                entries@[i as int].0@,
                                attr_view(entries@[i as int].1),
                            ));
                        }
                        out.push((key, v));
                    },
                }
                i += 1;
            }
            proof {
                assert(s.take(i as int) =~= s);
            }
            Ok(Value::Object(out))
        },
    }
}

/// Character-by-character string comparison, decided by the views.
pub fn str_eq(a: &str, b: &str) -> (r: bool)
    ensures
        r == (a@ == b@),
{
    let na: usize = a.unicode_len();
    let nb: usize = b.unicode_len();
    if na != nb {
        proof {
            assert(a@ != b@);
        }
        return false;
    }
    let mut i: usize = 0;
    while i < na
        invariant
            i <= na,
            na as int == a@.len(),
            na as int == b@.len(),
            forall|k: int| 0 <= k < i ==> a@[k] == b@[k],
        decreases na - i,
    {
        if a.get_char(i) != b.get_char(i) {
            return false;
        }
        i += 1;
    }
    proof {
        assert(a@ =~= b@);
    }
    true
}

fn bytes_eq(a: &Vec<u8>, b: &Vec<u8>) -> (r: bool)
    ensures
        r == (a@ == b@),
{
    if a.len() != b.len() {
        return false;
    }
    let mut i: usize = 0;
    while i < a.len()
        invariant
            i <= a@.len(),
            a@.len() == b@.len(),
            forall|k: int| 0 <= k < i ==> a@[k] == b@[k],
        decreases a@.len() - i,
    {
        if a[i] != b[i] {
            return false;
        }
        i += 1;
    }
    proof {
        assert(a@ =~= b@);
    }
    true
}

fn str_list_eq(a: &Vec<String>, b: &Vec<String>) -> (r: bool)
    ensures
        r == (strs_view(a@) == strs_view(b@)),
{
    if a.len() != b.len() {
        proof {
            assert(strs_view(a@).len() != strs_view(b@).len());
        }
        return false;
    }
    let mut i: usize = 0;
    while i < a.len()
        invariant
            i <= a@.len(),
            a@.len() == b@.len(),
            forall|k: int| 0 <= k < i ==> a@[k]@ == b@[k]@,
        decreases a@.len() - i,
    {
        if !str_eq(a[i].as_str(), b[i].as_str()) {
            proof {
                assert(strs_view(a@)[i as int] != strs_view(b@)[i as int]);
            }
            return false;
        }
        i += 1;
    }
    proof {
        assert(strs_view(a@) =~= strs_view(b@));
    }
    true
}

/// Deep comparison of two attributes, decided by the views.
#[verifier::loop_isolation(false)]
pub fn attr_eq(a: &Attr, b: &Attr) -> (r: bool)
    ensures
        r == (a@ == b@),
    decreases a,
{
    match (a, b) {
        (Attr::Null, Attr::Null) => true,
        (Attr::Bool(x), Attr::Bool(y)) => x == y,
        (Attr::N(x), Attr::N(y)) => str_eq(x.as_str(), y.as_str()),
        (Attr::S(x), Attr::S(y)) => str_eq(x.as_str(), y.as_str()),
        (Attr::B(x), Attr::B(y)) => bytes_eq(x, y),
        (Attr::Ss(x), Attr::Ss(y)) => str_list_eq(x, y),
        (Attr::Ns(x), Attr::Ns(y)) => str_list_eq(x, y),
        (Attr::L(x), Attr::L(y)) => {
            proof {
                lemma_attr_list_view(x@);
                lemma_attr_list_view(y@);
            }
            if x.len() != y.len() {
                return false;
            }
            let mut i: usize = 0;
            while i < x.len()
                invariant
                    i <= x@.len(),
                    x@.len() == y@.len(),
                    forall|k: int| 0 <= k < i ==> attr_view(#[trigger] x@[k]) == attr_view(
                        y@[k],
                    ),
                decreases x@.len() - i,
            {
                if !attr_eq(&x[i], &y[i]) {
                    proof {
                        assert(attr_list_view(x@)[i as int] != attr_list_view(y@)[i as int]);
                    }
                    return false;
                }
                i += 1;
            }
            proof {
                assert forall|k: int| 0 <= k < x@.len() implies #[trigger] attr_list_view(
                    x@,
                )[k] == attr_list_view(y@)[k] by {
                    assert(attr_list_view(x@)[k] == attr_view(x@[k]));
                    assert(attr_list_view(y@)[k] == attr_view(y@[k]));
                }
                assert(attr_list_view(x@) =~= attr_list_view(y@));
            }
            true
        },
        (Attr::M(x), Attr::M(y)) => {
            proof {
                lemma_attr_map_view(x@);
                lemma_attr_map_view(y@);
            }
            if x.len() != y.len() {
                return false;
            }
            let mut i: usize = 0;
            while i < x.len()
                invariant
                    i <= x@.len(),
                    x@.len() == y@.len(),
                    forall|k: int| 0 <= k < i ==> (#[trigger] x@[k]).0@ == y@[k].0@
                        && attr_view(x@[k].1) == attr_view(y@[k].1),
                decreases x@.len() - i,
            {
                let ex: &(String, Attr) = &x[i];
                let ey: &(String, Attr) = &y[i];
                if !str_eq(ex.0.as_str(), ey.0.as_str()) || !attr_eq(&ex.1, &ey.1) {
                    proof {
                        assert(attr_map_view(x@)[i as int] != attr_map_view(y@)[i as int]);
                    }
                    return false;
                }
                i += 1;
            }
            proof {
                assert forall|k: int| 0 <= k < x@.len() implies #[trigger] attr_map_view(
                    x@,
                )[k] == attr_map_view(y@)[k] by {
                    assert(attr_map_view(x@)[k] == (x@[k].0@, attr_view(x@[k].1)));
                    assert(attr_map_view(y@)[k] == (y@[k].0@, attr_view(y@[k].1)));
                }
                assert(attr_map_view(x@) =~= attr_map_view(y@));
            }
            true
        },
        _ => {
            proof {
                assert(a@ != b@);
            }
            false
        },
    }
}

/// Structural copy of an attribute; the copy has the same view.
#[verifier::loop_isolation(false)]
pub fn clone_attr(a: &Attr) -> (r: Attr)
    ensures
        r@ == a@,
    decreases a,
{
    match a {
        Attr::Null => Attr::Null,
        Attr::Bool(b) => Attr::Bool(*b),
        Attr::N(s) => Attr::N(s.clone()),
        Attr::S(s) => Attr::S(s.clone()),
        Attr::B(bytes) => {
            let mut out: Vec<u8> = Vec::new();
            let mut i: usize = 0;
            while i < bytes.len()
                invariant
                    i <= bytes@.len(),
                    out@ == bytes@.take(i as int),
                decreases bytes@.len() - i,
            {
                out.push(bytes[i]);
                proof {
                    assert(out@ =~= bytes@.take(i + 1));
                }
                i += 1;
            }
            proof {
                assert(bytes@.take(i as int) =~= bytes@);
            }
            Attr::B(out)
        },
        Attr::Ss(strs) => Attr::Ss(clone_strings(strs)),
        Attr::Ns(strs) => Attr::Ns(clone_strings(strs)),
        Attr::L(items) => {
            let mut out: Vec<Attr> = Vec::new();
            let mut i: usize = 0;
            while i < items.len()
                invariant
                    i <= items@.len(),
                    out@.len() == i as int,
                    forall|k: int| 0 <= k < i ==> attr_view(#[trigger] out@[k]) == attr_view(
                        items@[k],
                    ),
                decreases items@.len() - i,
            {
                out.push(clone_attr(&items[i]));
                i += 1;
            }
            proof {
                lemma_attr_list_view(out@);
                lemma_attr_list_view(items@);
                assert forall|k: int| 0 <= k < items@.len() implies #[trigger] attr_list_view(
                    out@,
                )[k] == attr_list_view(items@)[k] by {
                    assert(attr_list_view(out@)[k] == attr_view(out@[k]));
                    assert(attr_list_view(items@)[k] == attr_view(items@[k]));
                }
                assert(attr_list_view(out@) =~= attr_list_view(items@));
            }
            Attr::L(out)
        },
        Attr::M(entries) => {
            let mut out: Vec<(String, Attr)> = Vec::new();
            let mut i: usize = 0;
            while i < entries.len()
                invariant
                    i <= entries@.len(),
                    out@.len() == i as int,
                    forall|k: int| 0 <= k < i ==> (#[trigger] out@[k]).0@ == entries@[k].0@
                        && attr_view(out@[k].1) == attr_view(entries@[k].1),
                decreases entries@.len() - i,
            {
                let entry: &(String, Attr) = &entries[i];
                out.push((entry.0.clone(), clone_attr(&entry.1)));
                i += 1;
            }
            proof {
                lemma_attr_map_view(out@);
                lemma_attr_map_view(entries@);
                assert forall|k: int| 0 <= k < entries@.len() implies #[trigger] attr_map_view(
                    out@,
                )[k] == attr_map_view(entries@)[k] by {
                    assert(attr_map_view(out@)[k] == (out@[k].0@, attr_view(out@[k].1)));
                    assert(attr_map_view(entries@)[k] == (
                        entries@[k].0@,
                        attr_view(entries@[k].1),
                    ));
                }
                assert(attr_map_view(out@) =~= attr_map_view(entries@));
            }
            Attr::M(out)
        },
    }
}

fn clone_strings(strs: &Vec<String>) -> (r: Vec<String>)
    ensures
        strs_view(r@) == strs_view(strs@),
{
    let mut out: Vec<String> = Vec::new();
    let mut i: usize = 0;
    while i < strs.len()
        invariant
            i <= strs@.len(),
            out@.len() == i as int,
            forall|k: int| 0 <= k < i ==> (#[trigger] out@[k])@ == strs@[k]@,
        decreases strs@.len() - i,
    {
        out.push(strs[i].clone());
        i += 1;
    }
    proof {
        assert(strs_view(out@) =~= strs_view(strs@));
    }
    out
}

impl Clone for Attr {
    /// A clone is view-equal to the original.
    fn clone(&self) -> (r: Attr)
        ensures
            r@ == self@,
    {
        clone_attr(self)
    }
}

} // verus!
