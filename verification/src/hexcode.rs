//! Hexadecimal text for byte strings: two digits per byte, most significant
//! nibble first. Encoding picks one letter case; decoding accepts both.

use vstd::prelude::*;

verus! {

/// The value of a hexadecimal digit character, if it is one.
/// Digits `0`-`9`, `a`-`f` and `A`-`F` are recognized.
pub open spec fn hex_char_value(c: char) -> Option<u8> {
    let n = c as u32;
    if 48 <= n && n <= 57 {
        Some((n - 48) as u8)
    } else if 97 <= n && n <= 102 {
        Some((n - 87) as u8)
    } else if 65 <= n && n <= 70 {
        Some((n - 55) as u8)
    } else {
        None
    }
}

pub open spec fn is_hex_char(c: char) -> bool {
    hex_char_value(c) is Some
}

pub open spec fn all_hex(s: Seq<char>) -> bool {
    forall|i: int| 0 <= i < s.len() ==> is_hex_char(#[trigger] s[i])
}

/// The digit character for a nibble, in the requested letter case.
pub open spec fn hex_digit_char(n: u8, upper: bool) -> char {
    if n < 10 {
        (48 + n) as char
    } else if upper {
        (55 + n) as char
    } else {
        (87 + n) as char
    }
}

/// The hexadecimal text of a byte string.
pub open spec fn hex_chars_of(bs: Seq<u8>, upper: bool) -> Seq<char> {
    Seq::new(
        bs.len() * 2,
        |i: int|
            if i % 2 == 0 {
                hex_digit_char(bs[i / 2] / 16, upper)
            } else {
                hex_digit_char(bs[i / 2] % 16, upper)
            },
    )
}

/// The byte string read from hexadecimal text, two characters per byte.
/// Meaningful when the text has even length and every character is a digit.
pub open spec fn bytes_of_hex(s: Seq<char>) -> Seq<u8> {
    Seq::new(
        (s.len() / 2) as nat,
        |i: int| (hex_char_value(s[2 * i]).unwrap() * 16 + hex_char_value(s[2 * i + 1]).unwrap()) as u8,
    )
}

proof fn lemma_digit_char_value(n: u8, upper: bool)
    requires
        n < 16,
    ensures
        hex_char_value(hex_digit_char(n, upper)) == Some(n),
{
}

/// A decoded digit pair recovers the encoded byte, and the digit characters
/// are hexadecimal whatever the byte was.
pub proof fn lemma_hex_round_trip(bs: Seq<u8>, upper: bool)
    ensures
        hex_chars_of(bs, upper).len() == 2 * bs.len(),
        all_hex(hex_chars_of(bs, upper)),
        bytes_of_hex(hex_chars_of(bs, upper)) == bs,
{
    let h = hex_chars_of(bs, upper);
    assert forall|i: int| 0 <= i < h.len() implies is_hex_char(#[trigger] h[i]) by {
        if i % 2 == 0 {
            lemma_digit_char_value(bs[i / 2] / 16, upper);
        } else {
            lemma_digit_char_value(bs[i / 2] % 16, upper);
        }
    }
    let b2 = bytes_of_hex(h);
    assert forall|i: int| 0 <= i < bs.len() implies b2[i] == bs[i] by {
        assert(h[2 * i] == hex_digit_char(bs[i] / 16, upper));
        assert(h[2 * i + 1] == hex_digit_char(bs[i] % 16, upper));
        lemma_digit_char_value(bs[i] / 16, upper);
        lemma_digit_char_value(bs[i] % 16, upper);
        assert((bs[i] / 16) * 16 + bs[i] % 16 == bs[i]) by (nonlinear_arith);
    }
    assert(b2 =~= bs);
}

/// One-character string for a nibble's digit.
fn hex_digit_str(n: u8, upper: bool) -> (r: &'static str)
    requires
        n < 16,
    ensures
        r@ == seq![hex_digit_char(n, upper)],
{
    proof {
        reveal_strlit("0");
        reveal_strlit("1");
        reveal_strlit("2");
        reveal_strlit("3");
        reveal_strlit("4");
        reveal_strlit("5");
        reveal_strlit("6");
        reveal_strlit("7");
        reveal_strlit("8");
        reveal_strlit("9");
        reveal_strlit("a");
        reveal_strlit("b");
        reveal_strlit("c");
        reveal_strlit("d");
        reveal_strlit("e");
        reveal_strlit("f");
        reveal_strlit("A");
        reveal_strlit("B");
        reveal_strlit("C");
        reveal_strlit("D");
        reveal_strlit("E");
        reveal_strlit("F");
    }
    let r: &'static str = if n < 10 {
        match n {
            0 => "0",
            1 => "1",
            2 => "2",
            3 => "3",
            4 => "4",
            5 => "5",
            6 => "6",
            7 => "7",
            8 => "8",
            _ => "9",
        }
    } else if upper {
        match n {
            10 => "A",
            11 => "B",
            12 => "C",
            13 => "D",
            14 => "E",
            _ => "F",
        }
    } else {
        match n {
            10 => "a",
            11 => "b",
            12 => "c",
            13 => "d",
            14 => "e",
            _ => "f",
        }
    };
    proof {
        assert(r@ =~= seq![hex_digit_char(n, upper)]);
    }
    r
}

/// Hexadecimal text of a byte string, two digits per byte.
pub fn hex_encode(bytes: &[u8], upper: bool) -> (r: String)
    ensures
        r@ == hex_chars_of(bytes@, upper),
{
    let n = bytes.len();
    let mut out = String::new();
    let mut i: usize = 0;
    while i < n
        invariant
            i <= n,
            n == bytes@.len(),
            out@ == hex_chars_of(bytes@, upper).take(2 * i as int),
        decreases n - i,
    {
        let b = bytes[i];
        out.append(hex_digit_str(b / 16, upper));
        out.append(hex_digit_str(b % 16, upper));
        proof {
            assert(out@ =~= hex_chars_of(bytes@, upper).take(2 * (i + 1) as int));
        }
        i += 1;
    }
    proof {
        assert(out@ =~= hex_chars_of(bytes@, upper));
    }
    out
}

/// The value of one digit character, or `None` where it is not a digit.
fn hex_char_val(c: char) -> (r: Option<u8>)
    ensures
        r == hex_char_value(c),
{
    let n = c as u32;
    if 48 <= n && n <= 57 {
        Some((n - 48) as u8)
    } else if 97 <= n && n <= 102 {
        Some((n - 87) as u8)
    } else if 65 <= n && n <= 70 {
        Some((n - 55) as u8)
    } else {
        None
    }
}

/// Bytes read from hexadecimal text of even length; `None` where some
/// character is not a digit.
pub fn hex_decode(s: &str) -> (r: Option<Vec<u8>>)
    requires
        s@.len() % 2 == 0,
    ensures
        match r {
            Some(v) => all_hex(s@) && v@ == bytes_of_hex(s@),
            None => !all_hex(s@),
        },
{
    let n = s.unicode_len();
    let mut v: Vec<u8> = Vec::new();
    let mut i: usize = 0;
    while i < n
        invariant
            i <= n,
            i % 2 == 0,
            n % 2 == 0,
            n == s@.len(),
            forall|j: int| 0 <= j < i ==> is_hex_char(#[trigger] s@[j]),
            v@.len() == i / 2,
            forall|k: int| 0 <= k < i / 2 ==> v@[k] == bytes_of_hex(s@)[k],
        decreases n - i,
    {
        let c1 = s.get_char(i);
        let c2 = s.get_char(i + 1);
        let h1 = match hex_char_val(c1) {
            Some(x) => x,
            None => {
                return None;
            },
        };
        let h2 = match hex_char_val(c2) {
            Some(x) => x,
            None => {
                return None;
            },
        };
        v.push(h1 * 16 + h2);
        i += 2;
    }
    proof {
        assert(v@ =~= bytes_of_hex(s@));
    }
    Some(v)
}

} // verus!
