//! The canonical claim-payload text form: JSON rendering of the dynamic
//! value tree.  Strings are escaped (quote, backslash, and control
//! characters), numbers render in canonical decimal, arrays and maps keep
//! their order.

use vstd::prelude::*;
use crate::number::Number;
use crate::decimal::int_dec_of;
use crate::hex::hex_digit;
use crate::value::{Value, ValueV, arr_view, obj_view, lemma_arr_view, lemma_obj_view,
    value_view};

verus! {

/// Relies on `String::push`: appends exactly the one character.
#[verifier::external_body]
fn push_char(s: &mut String, c: char)
    ensures
        final(s)@ == old(s)@.push(c),
{
    s.push(c);
}

/// The escape of one character inside a JSON string literal.
pub open spec fn esc_char(c: char) -> Seq<char> {
    if c == '"' {
        seq!['\\', '"']
    } else if c == '\\' {
        seq!['\\', '\\']
    } else if c == '\n' {
        seq!['\\', 'n']
    } else if c == '\r' {
        seq!['\\', 'r']
    } else if c == '\t' {
        seq!['\\', 't']
    } else if (c as int) < 32 {
        seq!['\\', 'u', '0', '0', hex_digit(c as int / 16), hex_digit(c as int % 16)]
    } else {
        seq![c]
    }
}

/// The escaped body of a JSON string literal.
pub open spec fn json_escape(s: Seq<char>) -> Seq<char>
    decreases s,
{
    if s.len() == 0 {
        Seq::empty()
    } else {
        json_escape(s.drop_last()) + esc_char(s.last())
    }
}

/// A complete JSON string literal.
pub open spec fn json_string(s: Seq<char>) -> Seq<char> {
    seq!['"'] + json_escape(s) + seq!['"']
}

/// The JSON text of a value.
pub open spec fn json_of_value(v: ValueV) -> Seq<char>
    decreases v,
{
    match v {
        ValueV::Null => seq!['n', 'u', 'l', 'l'],
        ValueV::Bool(b) => if b {
            seq!['t', 'r', 'u', 'e']
        } else {
            seq!['f', 'a', 'l', 's', 'e']
        },
        ValueV::Number(n) => int_dec_of(n.as_int()),
        ValueV::String(s) => json_string(s),
        ValueV::Array(a) => seq!['['] + json_of_list(a) + seq![']'],
        ValueV::Object(m) => seq!['{'] + json_of_entries(m) + seq!['}'],
    }
}

/// The comma-joined JSON of a list's elements.
pub open spec fn json_of_list(s: Seq<ValueV>) -> Seq<char>
    decreases s,
{
    if s.len() == 0 {
        Seq::empty()
    } else if s.len() == 1 {
        json_of_value(s.last())
    } else {
        json_of_list(s.drop_last()) + seq![','] + json_of_value(s.last())
    }
}

/// The comma-joined JSON of a map's entries, `"key":value` each.
pub open spec fn json_of_entries(s: Seq<(Seq<char>, ValueV)>) -> Seq<char>
    decreases s,
{
    if s.len() == 0 {
        Seq::empty()
    } else if s.len() == 1 {
        json_string(s.last().0) + seq![':'] + json_of_value(s.last().1)
    } else {
        json_of_entries(s.drop_last()) + seq![','] + json_string(s.last().0) + seq![':']
            + json_of_value(s.last().1)
    }
}

/// Appends the escaped body of a string literal.
#[verifier::loop_isolation(false)]
fn append_escaped(out: &mut String, s: &str)
    ensures
        final(out)@ == old(out)@ + json_escape(s@),
{
    let n: usize = s.unicode_len();
    let mut i: usize = 0;
    proof {
        assert(s@.take(0) =~= Seq::<char>::empty());
        assert(old(out)@ + json_escape(s@.take(0)) =~= old(out)@);
    }
    while i < n
        invariant
            i <= n,
            n as int == s@.len(),
            out@ == old(out)@ + json_escape(s@.take(i as int)),
        decreases n - i,
    {
        let c: char = s.get_char(i);
        proof {
            assert(s@.take(i + 1).drop_last() =~= s@.take(i as int));
            assert(s@.take(i + 1).last() == s@[i as int]);
        }
        if c == '"' {
            push_char(out, '\\');
            push_char(out, '"');
        } else if c == '\\' {
            push_char(out, '\\');
            push_char(out, '\\');
        } else if c == '\n' {
            push_char(out, '\\');
            push_char(out, 'n');
        } else if c == '\r' {
            push_char(out, '\\');
            push_char(out, 'r');
        } else if c == '\t' {
            push_char(out, '\\');
            push_char(out, 't');
        } else if (c as u32) < 32 {
            let lo: u8 = (c as u8) % 16;
            let hi: u8 = (c as u8) / 16;
            push_char(out, '\\');
            push_char(out, 'u');
            push_char(out, '0');
            push_char(out, '0');
            push_char(out, nibble(hi));
            push_char(out, nibble(lo));
        } else {
            push_char(out, c);
        }
        proof {
            assert(out@ =~= old(out)@ + json_escape(s@.take(i + 1)));
        }
        i += 1;
    }
    proof {
        assert(s@.take(n as int) =~= s@);
    }
}

fn nibble(d: u8) -> (r: char)
    requires
        d < 16,
    ensures
        r == hex_digit(d as int),
{
    match d {
        0 => '0',
        1 => '1',
        2 => '2',
        3 => '3',
        4 => '4',
        5 => '5',
        6 => '6',
        7 => '7',
        8 => '8',
        9 => '9',
        10 => 'a',
        11 => 'b',
        12 => 'c',
        13 => 'd',
        14 => 'e',
        _ => 'f',
    }
}

/// Appends the complete JSON string literal for `s`.
fn append_json_string(out: &mut String, s: &str)
    ensures
        final(out)@ == old(out)@ + json_string(s@),
{
    push_char(out, '"');
    append_escaped(out, s);
    push_char(out, '"');
    proof {
        assert(final(out)@ =~= old(out)@ + json_string(s@));
    }
}

/// Appends the JSON text of a value.
#[verifier::loop_isolation(false)]
pub fn append_json_value(out: &mut String, v: &Value)
    ensures
        final(out)@ == old(out)@ + json_of_value(v@),
    decreases v,
{
    match v {
        Value::Null => {
            proof {
                reveal_strlit("null");
            }
            out.append("null");
        },
        Value::Bool(b) => {
            proof {
                reveal_strlit("true");
                reveal_strlit("false");
            }
            if *b {
                out.append("true");
            } else {
                out.append("false");
            }
            proof {
                assert(out@ =~= old(out)@ + json_of_value(v@));
            }
        },
        Value::Number(n) => {
            let text: String = crate::attr::number_dec_string(n);
            out.append(text.as_str());
        },
        Value::String(s) => {
            append_json_string(out, s.as_str());
        },
        Value::Array(a) => {
            push_char(out, '[');
            let ghost base = out@;
            let mut i: usize = 0;
            proof {
                lemma_arr_view(a@);
                assert(arr_view(a@).take(0) =~= Seq::<ValueV>::empty());
            }
            while i < a.len()
                invariant
                    i <= a@.len(),
                    out@ == base + json_of_list(arr_view(a@).take(i as int)),
                decreases a@.len() - i,
            {
                if i > 0 {
                    push_char(out, ',');
                }
                append_json_value(out, &a[i]);
                proof {
                    let vs = arr_view(a@);
                    assert(vs.take(i + 1).drop_last() =~= vs.take(i as int));
                    assert(vs.take(i + 1).last() == vs[i as int]);
                    assert(vs[i as int] == value_view(a@[i as int]));
                    assert(out@ =~= base + json_of_list(vs.take(i + 1)));
                }
                i += 1;
            }
            proof {
                assert(arr_view(a@).take(a@.len() as int) =~= arr_view(a@));
            }
            push_char(out, ']');
            proof {
                assert(final(out)@ =~= old(out)@ + json_of_value(v@));
            }
        },
        Value::Object(m) => {
            push_char(out, '{');
            let ghost base = out@;
            let mut i: usize = 0;
            proof {
                lemma_obj_view(m@);
                assert(obj_view(m@).take(0) =~= Seq::<(Seq<char>, ValueV)>::empty());
            }
            while i < m.len()
                invariant
                    i <= m@.len(),
                    out@ == base + json_of_entries(obj_view(m@).take(i as int)),
                decreases m@.len() - i,
            {
                if i > 0 {
                    push_char(out, ',');
                }
                let entry: &(String, Value) = &m[i];
                append_json_string(out, entry.0.as_str());
                push_char(out, ':');
                append_json_value(out, &entry.1);
                proof {
                    let es = obj_view(m@);
                    assert(es.take(i + 1).drop_last() =~= es.take(i as int));
                    assert(es.take(i + 1).last() == es[i as int]);
                    assert(es[i as int] == (m@[i as int].0@, value_view(m@[i as int].1)));
                    assert(out@ =~= base + json_of_entries(es.take(i + 1)));
                }
                i += 1;
            }
            proof {
                assert(obj_view(m@).take(m@.len() as int) =~= obj_view(m@));
            }
            push_char(out, '}');
            proof {
                assert(final(out)@ =~= old(out)@ + json_of_value(v@));
            }
        },
    }
}

/// The JSON text of a value, as a fresh string.
pub fn value_to_json(v: &Value) -> (r: String)
    ensures
        r@ == json_of_value(v@),
{
    let mut out: String = String::new();
    append_json_value(&mut out, v);
    proof {
        assert(out@ =~= json_of_value(v@));
    }
    out
}

} // verus!
