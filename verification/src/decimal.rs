//! Decimal text form of the numeric kinds: rendering and strict parsing.
//!
//! The numeric attribute kind of the store carries numbers as decimal
//! strings.  Rendering never emits a leading zero (except for zero itself)
//! and parsing accepts exactly that canonical grammar, so the two are
//! mutual inverses on every representable value.

use vstd::prelude::*;

verus! {

pub open spec fn is_dec_digit(c: char) -> bool {
    '0' <= c && c <= '9'
}

pub open spec fn digit_val(c: char) -> int {
    c as int - '0' as int
}

pub open spec fn digit_char(d: int) -> char {
    if d == 0 { '0' }
    else if d == 1 { '1' }
    else if d == 2 { '2' }
    else if d == 3 { '3' }
    else if d == 4 { '4' }
    else if d == 5 { '5' }
    else if d == 6 { '6' }
    else if d == 7 { '7' }
    else if d == 8 { '8' }
    else { '9' }
}

/// The canonical decimal rendering of a natural number.
pub open spec fn dec_of(n: nat) -> Seq<char>
    decreases n,
{
    if n < 10 {
        seq![digit_char(n as int)]
    } else {
        dec_of(n / 10).push(digit_char((n % 10) as int))
    }
}

/// The canonical decimal rendering of an integer, `-` for negatives.
pub open spec fn int_dec_of(i: int) -> Seq<char> {
    if i < 0 {
        seq!['-'] + dec_of((-i) as nat)
    } else {
        dec_of(i as nat)
    }
}

pub open spec fn all_dec_digits(s: Seq<char>) -> bool {
    forall|i: int| 0 <= i < s.len() ==> is_dec_digit(#[trigger] s[i])
}

/// Value of an all-digit string, most significant digit first.
pub open spec fn dec_val(s: Seq<char>) -> int
    decreases s.len(),
{
    if s.len() == 0 {
        0
    } else {
        dec_val(s.drop_last()) * 10 + digit_val(s.last())
    }
}

/// The strict grammar of an unsigned decimal: nonempty, digits only,
/// no leading zero except for `0` itself.
pub open spec fn dec_grammar_ok(s: Seq<char>) -> bool {
    s.len() >= 1 && all_dec_digits(s) && (s.len() == 1 || s[0] != '0')
}

/// Strict parse of a (possibly signed) decimal string to its value.
pub open spec fn parse_dec(s: Seq<char>) -> Option<int> {
    if s.len() >= 1 && s[0] == '-' {
        if dec_grammar_ok(s.skip(1)) {
            Some(-dec_val(s.skip(1)))
        } else {
            None
        }
    } else if dec_grammar_ok(s) {
        Some(dec_val(s))
    } else {
        None
    }
}

/// A digit character carries back the digit it was made from.
proof fn lemma_digit_roundtrip(d: int)
    requires
        0 <= d < 10,
    ensures
        is_dec_digit(digit_char(d)),
        digit_val(digit_char(d)) == d,
{
    assert('0' as int == 48);
    assert('9' as int == 57);
}

/// Every rendering obeys the strict grammar.
pub proof fn lemma_dec_of_grammar(n: nat)
    ensures
        dec_grammar_ok(dec_of(n)),
        n >= 1 ==> dec_of(n)[0] != '0',
    decreases n,
{
    if n < 10 {
    } else {
        lemma_dec_of_grammar(n / 10);
        assert(dec_of(n) == dec_of(n / 10).push(digit_char((n % 10) as int)));
    }
}

/// Parsing inverts rendering.
pub proof fn lemma_dec_val_of(n: nat)
    ensures
        dec_val(dec_of(n)) == n,
    decreases n,
{
    if n < 10 {
        lemma_digit_roundtrip(n as int);
        let d = dec_of(n);
        assert(d == seq![digit_char(n as int)]);
        assert(dec_val(d) == dec_val(d.drop_last()) * 10 + digit_val(d.last()));
        assert(d.drop_last() =~= Seq::<char>::empty());
        assert(dec_val(Seq::<char>::empty()) == 0);
        assert(d.last() == digit_char(n as int));
    } else {
        lemma_dec_val_of(n / 10);
        lemma_digit_roundtrip((n % 10) as int);
        let d = dec_of(n);
        assert(d == dec_of(n / 10).push(digit_char((n % 10) as int)));
        assert(dec_val(d) == dec_val(d.drop_last()) * 10 + digit_val(d.last()));
        assert(d.drop_last() =~= dec_of(n / 10));
        assert(d.last() == digit_char((n % 10) as int));
        assert(dec_val(d) == (n / 10) * 10 + n % 10);
    }
}

/// Round trip at the spec level for signed values.
pub proof fn lemma_parse_int_dec_of(i: int)
    ensures
        parse_dec(int_dec_of(i)) == Some(i),
{
    if i < 0 {
        lemma_dec_of_grammar((-i) as nat);
        lemma_dec_val_of((-i) as nat);
        assert(int_dec_of(i)[0] == '-');
        assert(int_dec_of(i).skip(1) =~= dec_of((-i) as nat));
    } else {
        lemma_dec_of_grammar(i as nat);
        lemma_dec_val_of(i as nat);
        assert(int_dec_of(i)[0] != '-');
    }
}

/// Digits are never negative in value.
proof fn lemma_dec_val_nonneg(s: Seq<char>)
    requires
        all_dec_digits(s),
    ensures
        dec_val(s) >= 0,
    decreases s.len(),
{
    if s.len() > 0 {
        lemma_dec_val_nonneg(s.drop_last());
    }
}

fn digit_str(d: u8) -> (r: &'static str)
    requires
        d < 10,
    ensures
        r@ == seq![digit_char(d as int)],
{
    proof {
        reveal_strlit("0");
        reveal_strlit("1");
        reveal_strlit("2");
        reveal_strlit("3");
        reveal_strlit("4");
        reveal_strlit("5");
        reveal_strlit("6");
        reveal_strlit("7");
        reveal_strlit("8");
        reveal_strlit("9");
    }
    match d {
        0 => "0",
        1 => "1",
        2 => "2",
        3 => "3",
        4 => "4",
        5 => "5",
        6 => "6",
        7 => "7",
        8 => "8",
        _ => "9",
    }
}

fn char_to_digit(c: char) -> (r: Option<u8>)
    ensures
        r is Some <==> is_dec_digit(c),
        r matches Some(d) ==> d < 10 && d as int == digit_val(c),
{
    match c {
        '0' => Some(0),
        '1' => Some(1),
        '2' => Some(2),
        '3' => Some(3),
        '4' => Some(4),
        '5' => Some(5),
        '6' => Some(6),
        '7' => Some(7),
        '8' => Some(8),
        '9' => Some(9),
        _ => None,
    }
}

/// Renders a natural number in canonical decimal.
pub fn u128_dec(n: u128) -> (r: String)
    ensures
        r@ == dec_of(n as nat),
    decreases n,
{
    if n < 10 {
        let s: String = String::from_str(digit_str(n as u8));
        s
    } else {
        let mut s: String = u128_dec(n / 10);
        s.append(digit_str((n % 10) as u8));
        proof {
            assert(dec_of(n as nat) =~= dec_of((n / 10) as nat) + seq![
                digit_char((n % 10) as int),
            ]);
        }
        s
    }
}

/// Renders a signed value given as sign and magnitude.
pub fn signed_dec(neg: bool, mag: u128) -> (r: String)
    requires
        neg ==> mag >= 1,
    ensures
        r@ == int_dec_of(if neg { -(mag as int) } else { mag as int }),
{
    if neg {
        proof {
            reveal_strlit("-");
        }
        let mut s: String = String::from_str("-");
        let m: String = u128_dec(mag);
        s.append(m.as_str());
        proof {
            assert(s@ =~= seq!['-'] + dec_of(mag as nat));
        }
        s
    } else {
        u128_dec(mag)
    }
}

/// A longer all-digit prefix never has a smaller value.
proof fn lemma_dec_val_prefix_mono(s: Seq<char>, i: int, j: int)
    requires
        all_dec_digits(s),
        0 <= i <= j <= s.len(),
    ensures
        dec_val(s.take(i)) <= dec_val(s.take(j)),
    decreases j - i,
{
    if i < j {
        lemma_dec_val_prefix_mono(s, i, j - 1);
        assert(forall|k: int| 0 <= k < j ==> s.take(j)[k] == #[trigger] s[k]);
        assert(all_dec_digits(s.take(j - 1)));
        lemma_dec_val_nonneg(s.take(j - 1));
        assert(s.take(j).drop_last() =~= s.take(j - 1));
        assert(dec_val(s.take(j)) == dec_val(s.take(j - 1)) * 10 + digit_val(s.take(j).last()));
        assert(digit_val(s.take(j).last()) >= 0);
    } else {
        assert(s.take(i) =~= s.take(j));
    }
}

/// Value of the first `len` characters, which must all be digits;
/// `None` exactly when the value exceeds `u128::MAX`.
fn dec_val_exec(s: &str, len: usize) -> (r: Option<u128>)
    requires
        len as int <= s@.len(),
        all_dec_digits(s@.take(len as int)),
    ensures
        r matches Some(v) ==> v as int == dec_val(s@.take(len as int)),
        r is None ==> dec_val(s@.take(len as int)) > u128::MAX,
{
    let mut val: u128 = 0;
    let mut i: usize = 0;
    proof {
        assert(s@.take(0) =~= Seq::<char>::empty());
    }
    while i < len
        invariant
            i <= len,
            len as int <= s@.len(),
            all_dec_digits(s@.take(len as int)),
            val as int == dec_val(s@.take(i as int)),
        decreases len - i,
    {
        let c: char = s.get_char(i);
        proof {
            assert(s@.take(len as int)[i as int] == s@[i as int]);
        }
        let d: u8 = char_to_digit(c).unwrap();
        proof {
            assert(s@.take(i + 1).drop_last() =~= s@.take(i as int));
            assert(s@.take(i + 1).last() == s@[i as int]);
            assert(dec_val(s@.take(i + 1)) == dec_val(s@.take(i as int)) * 10 + digit_val(
                s@[i as int],
            ));
        }
        if val > (u128::MAX - d as u128) / 10 {
            proof {
                assert(val * 10 + d as int > u128::MAX) by (nonlinear_arith)
                    requires
                        val > (u128::MAX - d as u128) / 10,
                        d < 10,
                ;
                assert(dec_val(s@.take(i + 1)) > u128::MAX);
                lemma_dec_val_prefix_mono(s@.take(len as int), i + 1, len as int);
                assert(s@.take(len as int).take(i + 1) =~= s@.take(i + 1));
                assert(s@.take(len as int).take(len as int) =~= s@.take(len as int));
            }
            return None;
        }
        proof {
            assert(val * 10 + d as int <= u128::MAX) by (nonlinear_arith)
                requires
                    val <= (u128::MAX - d as u128) / 10,
                    d < 10,
            ;
        }
        val = val * 10 + d as u128;
        i += 1;
    }
    proof {
        assert(s@.take(i as int) =~= s@.take(len as int));
    }
    Some(val)
}

/// Strict parse of a decimal string: sign and magnitude of its value.
/// `None` when the grammar is violated or the magnitude exceeds `u128::MAX`.
pub fn parse_signed_dec(s: &str) -> (r: Option<(bool, u128)>)
    ensures
        r matches Some(p) ==> {
            &&& parse_dec(s@) == Some(if p.0 { -(p.1 as int) } else { p.1 as int })
            &&& (p.0 ==> p.1 >= 1)
        },
        r is None ==> (parse_dec(s@) is None || {
            &&& parse_dec(s@) matches Some(i)
            &&& (i > u128::MAX || i < -(u128::MAX as int))
        }),
{
    let n: usize = s.unicode_len();
    if n == 0 {
        return None;
    }
    let first: char = s.get_char(0);
    let neg: bool = first == '-';
    let start: usize = if neg { 1 } else { 0 };
    if n == start {
        return None;
    }
    // check the digit grammar on s[start..]
    let mut i: usize = start;
    while i < n
        invariant
            start <= i <= n,
            n as int == s@.len(),
            (start as int) < s@.len(),
            s@.len() >= 1,
            neg <==> s@[0] == '-',
            start == (if neg { 1int } else { 0int }),
            forall|j: int| start <= j < i ==> is_dec_digit(#[trigger] s@[j]),
        decreases n - i,
    {
        let c: char = s.get_char(i);
        if char_to_digit(c).is_none() {
            proof {
                if neg {
                    vstd::seq_lib::lemma_seq_skip_index::<char>(s@, 1, i - 1);
                    assert(s@.skip(1)[i - 1] == s@[i as int]);
                    assert(!all_dec_digits(s@.skip(1)));
                } else {
                    assert(!all_dec_digits(s@));
                }
            }
            return None;
        }
        i += 1;
    }
    let body_len: usize = n - start;
    if body_len >= 2 && s.get_char(start) == '0' {
        proof {
            if neg {
                assert(s@.skip(1)[0] == s@[1]);
                assert(s@.skip(1).len() == n - 1);
                assert(!dec_grammar_ok(s@.skip(1)));
            } else {
                assert(!dec_grammar_ok(s@));
            }
        }
        return None;
    }
    let ghost body: Seq<char> = if neg { s@.skip(1) } else { s@ };
    proof {
        assert(body =~= s@.subrange(start as int, n as int));
        assert(forall|j: int| 0 <= j < body.len() ==> is_dec_digit(#[trigger] body[j]));
        assert(dec_grammar_ok(body));
    }
    if neg {
        // value of the digit body: walk it through a fresh prefix index
        let ghost whole: Seq<char> = s@;
        let sub: &str = parse_body(s, start, n);
        match dec_val_exec(sub, body_len) {
            None => {
                proof {
                    assert(sub@.take(body_len as int) =~= body);
                    lemma_dec_val_nonneg(body);
                }
                None
            },
            Some(v) => {
                proof {
                    assert(sub@.take(body_len as int) =~= body);
                }
                if v == 0 {
                    // "-0" renders as value zero with no sign
                    Some((false, 0))
                } else {
                    Some((true, v))
                }
            },
        }
    } else {
        match dec_val_exec(s, n) {
            None => {
                proof {
                    assert(s@.take(n as int) =~= body);
                    lemma_dec_val_nonneg(body);
                }
                None
            },
            Some(v) => {
                proof {
                    assert(s@.take(n as int) =~= body);
                }
                Some((false, v))
            },
        }
    }
}

/// The value of a decimal string when it fits an `i64`.
pub open spec fn parse_i64(s: Seq<char>) -> Option<i64> {
    match parse_dec(s) {
        Option::None => None,
        Option::Some(i) => if i64::MIN <= i <= i64::MAX {
            Some(i as i64)
        } else {
            None
        },
    }
}

/// The value of a decimal string when it fits a `u32`.
pub open spec fn parse_u32(s: Seq<char>) -> Option<u32> {
    match parse_dec(s) {
        Option::None => None,
        Option::Some(i) => if 0 <= i <= u32::MAX {
            Some(i as u32)
        } else {
            None
        },
    }
}

/// Parses a decimal string into an `i64`, rejecting overflow.
pub fn parse_i64_exec(s: &str) -> (r: Option<i64>)
    ensures
        r == parse_i64(s@),
{
    match parse_signed_dec(s) {
        None => None,
        Some((neg, mag)) => {
            if !neg {
                if mag <= i64::MAX as u128 {
                    Some(mag as i64)
                } else {
                    None
                }
            } else {
                if mag <= 9223372036854775808u128 {
                    if mag == 9223372036854775808u128 {
                        Some(i64::MIN)
                    } else {
                        Some(-(mag as i64))
                    }
                } else {
                    None
                }
            }
        },
    }
}

/// Parses a decimal string into a `u32`, rejecting sign and overflow.
pub fn parse_u32_exec(s: &str) -> (r: Option<u32>)
    ensures
        r == parse_u32(s@),
{
    match parse_signed_dec(s) {
        None => None,
        Some((neg, mag)) => {
            if !neg && mag <= u32::MAX as u128 {
                Some(mag as u32)
            } else {
                None
            }
        },
    }
}

/// Renders an `i64` in canonical decimal.
pub fn i64_dec(v: i64) -> (r: String)
    ensures
        r@ == int_dec_of(v as int),
{
    if v < 0 {
        let mag: u128 = ((-((v as i128) + 1)) as u128) + 1;
        signed_dec(true, mag)
    } else {
        signed_dec(false, v as u128)
    }
}

/// The digit body of a signed decimal, as a subslice.
fn parse_body(s: &str, start: usize, n: usize) -> (r: &str)
    requires
        start as int <= n as int <= s@.len(),
        n as int == s@.len(),
    ensures
        r@ == s@.subrange(start as int, n as int),
{
    s.substring_char(start, n)
}

} // verus!
