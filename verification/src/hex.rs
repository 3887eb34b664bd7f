//! Lowercase hexadecimal text form of byte strings: rendering and strict
//! parsing, mutual inverses on every byte string.

use vstd::prelude::*;

verus! {

pub open spec fn hex_digit(d: int) -> char {
    if d == 0 { '0' }
    else if d == 1 { '1' }
    else if d == 2 { '2' }
    else if d == 3 { '3' }
    else if d == 4 { '4' }
    else if d == 5 { '5' }
    else if d == 6 { '6' }
    else if d == 7 { '7' }
    else if d == 8 { '8' }
    else if d == 9 { '9' }
    else if d == 10 { 'a' }
    else if d == 11 { 'b' }
    else if d == 12 { 'c' }
    else if d == 13 { 'd' }
    else if d == 14 { 'e' }
    else { 'f' }
}

pub open spec fn is_hex_digit(c: char) -> bool {
    ('0' <= c && c <= '9') || ('a' <= c && c <= 'f') || ('A' <= c && c <= 'F')
}

pub open spec fn hex_val(c: char) -> int {
    if '0' <= c && c <= '9' {
        c as int - '0' as int
    } else if 'a' <= c && c <= 'f' {
        c as int - 'a' as int + 10
    } else {
        c as int - 'A' as int + 10
    }
}

/// The lowercase hex rendering of a byte string, two digits per byte.
pub open spec fn hex_of(bytes: Seq<u8>) -> Seq<char>
    decreases bytes,
{
    if bytes.len() == 0 {
        Seq::empty()
    } else {
        hex_of(bytes.drop_last()) + seq![
            hex_digit(bytes.last() as int / 16),
            hex_digit(bytes.last() as int % 16),
        ]
    }
}

/// Strict parse of a hex string: an even number of hex digits, either
/// case; `None` otherwise.
pub open spec fn parse_hex(s: Seq<char>) -> Option<Seq<u8>>
    decreases s,
{
    if s.len() == 0 {
        Some(Seq::empty())
    } else if s.len() == 1 {
        None
    } else {
        let hi = s[s.len() - 2];
        let lo = s[s.len() - 1];
        if is_hex_digit(hi) && is_hex_digit(lo) {
            match parse_hex(s.take(s.len() - 2)) {
                Option::None => None,
                Option::Some(rest) => Some(rest.push((hex_val(hi) * 16 + hex_val(lo)) as u8)),
            }
        } else {
            None
        }
    }
}

/// A hex digit carries back the value it was made from.
proof fn lemma_hex_digit_roundtrip(d: int)
    requires
        0 <= d < 16,
    ensures
        is_hex_digit(hex_digit(d)),
        hex_val(hex_digit(d)) == d,
{
    assert('0' as int == 48 && '9' as int == 57);
    assert('a' as int == 97 && 'f' as int == 102);
    assert('A' as int == 65 && 'F' as int == 70);
}

/// Parsing inverts rendering.
pub proof fn lemma_parse_hex_of(bytes: Seq<u8>)
    ensures
        hex_of(bytes).len() == 2 * bytes.len(),
        parse_hex(hex_of(bytes)) == Some(bytes),
    decreases bytes,
{
    if bytes.len() == 0 {
        assert(parse_hex(hex_of(bytes)) == Some(Seq::<u8>::empty()));
        assert(bytes =~= Seq::<u8>::empty());
    } else {
        lemma_parse_hex_of(bytes.drop_last());
        let s = hex_of(bytes);
        let b = bytes.last() as int;
        lemma_hex_digit_roundtrip(b / 16);
        lemma_hex_digit_roundtrip(b % 16);
        assert(s.len() == hex_of(bytes.drop_last()).len() + 2);
        assert(s[s.len() - 2] == hex_digit(b / 16));
        assert(s[s.len() - 1] == hex_digit(b % 16));
        assert(s.take(s.len() - 2) =~= hex_of(bytes.drop_last()));
        assert(hex_val(hex_digit(b / 16)) * 16 + hex_val(hex_digit(b % 16)) == b);
        assert(bytes.drop_last().push(bytes.last()) =~= bytes);
    }
}

/// Every character of a hex rendering is ASCII.
pub proof fn lemma_hex_of_ascii(bytes: Seq<u8>)
    ensures
        forall|i: int| 0 <= i < hex_of(bytes).len() ==> ((#[trigger] hex_of(bytes)[i]) as int)
            < 128,
    decreases bytes,
{
    if bytes.len() > 0 {
        lemma_hex_of_ascii(bytes.drop_last());
        let s = hex_of(bytes);
        assert(s == hex_of(bytes.drop_last()) + seq![
            hex_digit(bytes.last() as int / 16),
            hex_digit(bytes.last() as int % 16),
        ]);
        assert((hex_digit(bytes.last() as int / 16) as int) < 128);
        assert((hex_digit(bytes.last() as int % 16) as int) < 128);
        assert(forall|i: int| 0 <= i < s.len() - 2 ==> s[i] == #[trigger] hex_of(
            bytes.drop_last(),
        )[i]);
    }
}

fn nibble_char(d: u8) -> (r: char)
    requires
        d < 16,
    ensures
        r == hex_digit(d as int),
{
    match d {
        0 => '0',
        1 => '1',
        2 => '2',
        3 => '3',
        4 => '4',
        5 => '5',
        6 => '6',
        7 => '7',
        8 => '8',
        9 => '9',
        10 => 'a',
        11 => 'b',
        12 => 'c',
        13 => 'd',
        14 => 'e',
        _ => 'f',
    }
}

fn nibble_str(d: u8) -> (r: &'static str)
    requires
        d < 16,
    ensures
        r@ == seq![hex_digit(d as int)],
{
    proof {
        reveal_strlit("0");
        reveal_strlit("1");
        reveal_strlit("2");
        reveal_strlit("3");
        reveal_strlit("4");
        reveal_strlit("5");
        reveal_strlit("6");
        reveal_strlit("7");
        reveal_strlit("8");
        reveal_strlit("9");
        reveal_strlit("a");
        reveal_strlit("b");
        reveal_strlit("c");
        reveal_strlit("d");
        reveal_strlit("e");
        reveal_strlit("f");
    }
    match d {
        0 => "0",
        1 => "1",
        2 => "2",
        3 => "3",
        4 => "4",
        5 => "5",
        6 => "6",
        7 => "7",
        8 => "8",
        9 => "9",
        10 => "a",
        11 => "b",
        12 => "c",
        13 => "d",
        14 => "e",
        _ => "f",
    }
}

/// Renders a byte slice in lowercase hex.
#[verifier::loop_isolation(false)]
pub fn bytes_to_hex(bytes: &[u8]) -> (r: String)
    ensures
        r@ == hex_of(bytes@),
{
    let mut out: String = String::new();
    let mut i: usize = 0;
    while i < bytes.len()
        invariant
            i <= bytes@.len(),
            out@ == hex_of(bytes@.take(i as int)),
        decreases bytes@.len() - i,
    {
        let b: u8 = bytes[i];
        out.append(nibble_str(b / 16));
        out.append(nibble_str(b % 16));
        proof {
            assert(bytes@.take(i + 1).drop_last() =~= bytes@.take(i as int));
            assert(bytes@.take(i + 1).last() == bytes@[i as int]);
            assert(out@ =~= hex_of(bytes@.take(i + 1)));
        }
        i += 1;
    }
    proof {
        assert(bytes@.take(i as int) =~= bytes@);
    }
    out
}

fn char_hex_val(c: char) -> (r: Option<u8>)
    ensures
        r is Some <==> is_hex_digit(c),
        r matches Some(d) ==> d < 16 && d as int == hex_val(c),
{
    match c {
        '0' => Some(0),
        '1' => Some(1),
        '2' => Some(2),
        '3' => Some(3),
        '4' => Some(4),
        '5' => Some(5),
        '6' => Some(6),
        '7' => Some(7),
        '8' => Some(8),
        '9' => Some(9),
        'a' => Some(10),
        'b' => Some(11),
        'c' => Some(12),
        'd' => Some(13),
        'e' => Some(14),
        'f' => Some(15),
        'A' => Some(10),
        'B' => Some(11),
        'C' => Some(12),
        'D' => Some(13),
        'E' => Some(14),
        'F' => Some(15),
        _ => None,
    }
}

/// One failing position makes a whole hex parse fail.
proof fn lemma_parse_hex_none(s: Seq<char>, j: int)
    requires
        0 <= j < s.len(),
        !is_hex_digit(s[j]),
    ensures
        parse_hex(s) is None,
    decreases s,
{
    if s.len() == 1 {
    } else if j >= s.len() - 2 {
    } else {
        assert(s.take(s.len() - 2)[j] == s[j]);
        lemma_parse_hex_none(s.take(s.len() - 2), j);
    }
}

/// An odd length makes a hex parse fail.
proof fn lemma_parse_hex_odd(s: Seq<char>)
    requires
        s.len() % 2 == 1,
    ensures
        parse_hex(s) is None,
    decreases s,
{
    if s.len() == 1 {
    } else {
        lemma_parse_hex_odd(s.take(s.len() - 2));
    }
}

/// Strict parse of a hex string into bytes.
#[verifier::loop_isolation(false)]
pub fn hex_to_bytes(s: &str) -> (r: Option<Vec<u8>>)
    ensures
        r matches Some(b) ==> parse_hex(s@) == Some(b@),
        r is None ==> parse_hex(s@) is None,
{
    let n: usize = s.unicode_len();
    if n % 2 != 0 {
        proof {
            lemma_parse_hex_odd(s@);
        }
        return None;
    }
    let mut out: Vec<u8> = Vec::new();
    let mut i: usize = 0;
    while i < n
        invariant
            i <= n,
            n as int == s@.len(),
            n % 2 == 0,
            i % 2 == 0,
            out@.len() == i as int / 2,
            parse_hex(s@.take(i as int)) == Some(out@),
        decreases n - i,
    {
        let hi: Option<u8> = char_hex_val(s.get_char(i));
        let lo: Option<u8> = char_hex_val(s.get_char(i + 1));
        match (hi, lo) {
            (Some(h), Some(l)) => {
                out.push(h * 16 + l);
                proof {
                    let t = s@.take(i + 2);
                    assert(t[t.len() - 2] == s@[i as int]);
                    assert(t[t.len() - 1] == s@[i + 1]);
                    assert(t.take(t.len() - 2) =~= s@.take(i as int));
                }
                i += 2;
            },
            (None, _) => {
                proof {
                    lemma_parse_hex_none(s@, i as int);
                }
                return None;
            },
            (_, None) => {
                proof {
                    lemma_parse_hex_none(s@, i + 1);
                }
                return None;
            },
        }
    }
    proof {
        assert(s@.take(i as int) =~= s@);
    }
    Some(out)
}

pub open spec fn is_ascii_hex_byte(b: u8) -> bool {
    (48 <= b && b <= 57) || (97 <= b && b <= 102) || (65 <= b && b <= 70)
}

pub open spec fn ascii_hex_val(b: u8) -> int {
    if 48 <= b && b <= 57 {
        b as int - 48
    } else if 97 <= b && b <= 102 {
        b as int - 97 + 10
    } else {
        b as int - 65 + 10
    }
}

/// Strict parse of hex carried as ASCII bytes: an even number of hex
/// digits, either case; `None` otherwise.
pub open spec fn parse_ascii_hex(s: Seq<u8>) -> Option<Seq<u8>>
    decreases s,
{
    if s.len() == 0 {
        Some(Seq::empty())
    } else if s.len() == 1 {
        None
    } else {
        let hi = s[s.len() - 2];
        let lo = s[s.len() - 1];
        if is_ascii_hex_byte(hi) && is_ascii_hex_byte(lo) {
            match parse_ascii_hex(s.take(s.len() - 2)) {
                Option::None => None,
                Option::Some(rest) => Some(
                    rest.push((ascii_hex_val(hi) * 16 + ascii_hex_val(lo)) as u8),
                ),
            }
        } else {
            None
        }
    }
}

/// The hex rendering of a byte string, carried as ASCII bytes.
pub open spec fn ascii_hex_blob(bytes: Seq<u8>) -> Seq<u8> {
    Seq::new(hex_of(bytes).len(), |i: int| hex_of(bytes)[i] as u8)
}

/// ASCII-hex parsing inverts the blob rendering.
pub proof fn lemma_parse_ascii_hex_blob(bytes: Seq<u8>)
    ensures
        ascii_hex_blob(bytes).len() == 2 * bytes.len(),
        parse_ascii_hex(ascii_hex_blob(bytes)) == Some(bytes),
    decreases bytes,
{
    lemma_parse_hex_of(bytes);
    if bytes.len() == 0 {
        assert(ascii_hex_blob(bytes) =~= Seq::<u8>::empty());
        assert(parse_ascii_hex(Seq::<u8>::empty()) == Some(Seq::<u8>::empty()));
        assert(bytes =~= Seq::<u8>::empty());
    } else {
        lemma_parse_ascii_hex_blob(bytes.drop_last());
        let s = ascii_hex_blob(bytes);
        let b = bytes.last() as int;
        lemma_hex_digit_roundtrip(b / 16);
        lemma_hex_digit_roundtrip(b % 16);
        lemma_hex_of_ascii(bytes);
        assert(s.len() == 2 * bytes.len());
        assert(s[s.len() - 2] == hex_of(bytes)[s.len() - 2] as u8);
        assert(hex_of(bytes)[s.len() - 2] == hex_digit(b / 16));
        assert(s[s.len() - 1] == hex_digit(b % 16) as u8);
        assert(is_ascii_hex_byte(s[s.len() - 2])) by {
            lemma_digit_byte_val(b / 16);
        }
        assert(is_ascii_hex_byte(s[s.len() - 1])) by {
            lemma_digit_byte_val(b % 16);
        }
        assert(ascii_hex_val(s[s.len() - 2]) == b / 16) by {
            lemma_digit_byte_val(b / 16);
        }
        assert(ascii_hex_val(s[s.len() - 1]) == b % 16) by {
            lemma_digit_byte_val(b % 16);
        }
        assert(s.take(s.len() - 2) =~= ascii_hex_blob(bytes.drop_last())) by {
            assert(forall|i: int| 0 <= i < s.len() - 2 ==> hex_of(bytes)[i] == #[trigger]
                hex_of(bytes.drop_last())[i]);
        }
        assert((b / 16) * 16 + b % 16 == b);
        assert(bytes.drop_last().push(bytes.last()) =~= bytes);
    }
}

/// A hex digit character, read as its ASCII byte, carries its value.
proof fn lemma_digit_byte_val(d: int)
    requires
        0 <= d < 16,
    ensures
        is_ascii_hex_byte(hex_digit(d) as u8),
        ascii_hex_val(hex_digit(d) as u8) == d,
{
    assert('0' as int == 48 && '9' as int == 57);
    assert('a' as int == 97 && 'f' as int == 102);
}

fn byte_hex_val(b: u8) -> (r: Option<u8>)
    ensures
        r is Some <==> is_ascii_hex_byte(b),
        r matches Some(d) ==> d < 16 && d as int == ascii_hex_val(b),
{
    if 48 <= b && b <= 57 {
        Some(b - 48)
    } else if 97 <= b && b <= 102 {
        Some(b - 97 + 10)
    } else if 65 <= b && b <= 70 {
        Some(b - 65 + 10)
    } else {
        None
    }
}

/// One failing position makes an ASCII-hex parse fail.
proof fn lemma_parse_ascii_hex_none(s: Seq<u8>, j: int)
    requires
        0 <= j < s.len(),
        !is_ascii_hex_byte(s[j]),
    ensures
        parse_ascii_hex(s) is None,
    decreases s,
{
    if s.len() == 1 {
    } else if j >= s.len() - 2 {
    } else {
        assert(s.take(s.len() - 2)[j] == s[j]);
        lemma_parse_ascii_hex_none(s.take(s.len() - 2), j);
    }
}

/// An odd length makes an ASCII-hex parse fail.
proof fn lemma_parse_ascii_hex_odd(s: Seq<u8>)
    requires
        s.len() % 2 == 1,
    ensures
        parse_ascii_hex(s) is None,
    decreases s,
{
    if s.len() == 1 {
    } else {
        lemma_parse_ascii_hex_odd(s.take(s.len() - 2));
    }
}

/// Strict parse of hex digits carried as ASCII bytes.
#[verifier::loop_isolation(false)]
pub fn ascii_hex_to_bytes(s: &[u8]) -> (r: Option<Vec<u8>>)
    ensures
        r matches Some(b) ==> parse_ascii_hex(s@) == Some(b@),
        r is None ==> parse_ascii_hex(s@) is None,
{
    let n: usize = s.len();
    if n % 2 != 0 {
        proof {
            lemma_parse_ascii_hex_odd(s@);
        }
        return None;
    }
    let mut out: Vec<u8> = Vec::new();
    let mut i: usize = 0;
    while i < n
        invariant
            i <= n,
            n as int == s@.len(),
            n % 2 == 0,
            i % 2 == 0,
            out@.len() == i as int / 2,
            parse_ascii_hex(s@.take(i as int)) == Some(out@),
        decreases n - i,
    {
        let hi: Option<u8> = byte_hex_val(s[i]);
        let lo: Option<u8> = byte_hex_val(s[i + 1]);
        match (hi, lo) {
            (Some(h), Some(l)) => {
                out.push(h * 16 + l);
                proof {
                    let t = s@.take(i + 2);
                    assert(t[t.len() - 2] == s@[i as int]);
                    assert(t[t.len() - 1] == s@[i + 1]);
                    assert(t.take(t.len() - 2) =~= s@.take(i as int));
                }
                i += 2;
            },
            (None, _) => {
                proof {
                    lemma_parse_ascii_hex_none(s@, i as int);
                }
                return None;
            },
            (_, None) => {
                proof {
                    lemma_parse_ascii_hex_none(s@, i + 1);
                }
                return None;
            },
        }
    }
    proof {
        assert(s@.take(i as int) =~= s@);
    }
    Some(out)
}

} // verus!
