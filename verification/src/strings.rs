//! Character-level utilities: hexadecimal and decimal rendering and parsing.
//!
//! Hexadecimal encoding and decoding call the outside `hex` crate through
//! trusted wrappers whose contracts state the byte-to-digit mapping exactly.
//! Decimal rendering and parsing are the library's own verified code.

use vstd::prelude::*;

verus! {

/// Relies on String::push: appends exactly one character.
#[verifier::external_body]
pub fn string_push_char(s: &mut String, c: char)
    ensures
        final(s)@ == old(s)@.push(c),
{
    s.push(c);
}

/// The lowercase hexadecimal digit for a value below sixteen; values above
/// fifteen map to '0'.
pub open spec fn hex_digit_char(d: u8) -> char {
    if d == 0 {
        '0'
    } else if d == 1 {
        '1'
    } else if d == 2 {
        '2'
    } else if d == 3 {
        '3'
    } else if d == 4 {
        '4'
    } else if d == 5 {
        '5'
    } else if d == 6 {
        '6'
    } else if d == 7 {
        '7'
    } else if d == 8 {
        '8'
    } else if d == 9 {
        '9'
    } else if d == 10 {
        'a'
    } else if d == 11 {
        'b'
    } else if d == 12 {
        'c'
    } else if d == 13 {
        'd'
    } else if d == 14 {
        'e'
    } else if d == 15 {
        'f'
    } else {
        '0'
    }
}

/// The value of a hexadecimal digit character, upper or lower case; sixteen
/// marks a character that is no hexadecimal digit.
pub open spec fn hex_char_val(c: char) -> u8 {
    if c == '0' {
        0
    } else if c == '1' {
        1
    } else if c == '2' {
        2
    } else if c == '3' {
        3
    } else if c == '4' {
        4
    } else if c == '5' {
        5
    } else if c == '6' {
        6
    } else if c == '7' {
        7
    } else if c == '8' {
        8
    } else if c == '9' {
        9
    } else if c == 'a' || c == 'A' {
        10
    } else if c == 'b' || c == 'B' {
        11
    } else if c == 'c' || c == 'C' {
        12
    } else if c == 'd' || c == 'D' {
        13
    } else if c == 'e' || c == 'E' {
        14
    } else if c == 'f' || c == 'F' {
        15
    } else {
        16
    }
}

/// The lowercase hexadecimal rendering of a byte sequence: two digits per
/// byte, high digit first.
pub open spec fn hex_of(s: Seq<u8>) -> Seq<char>
    decreases s,
{
    if s.len() == 0 {
        Seq::empty()
    } else {
        hex_of(s.drop_last()).push(hex_digit_char(s.last() / 16)).push(
            hex_digit_char(s.last() % 16),
        )
    }
}

/// A character sequence that decodes as hexadecimal: even length, every
/// character a digit of either case.
pub open spec fn is_hex_seq(s: Seq<char>) -> bool {
    s.len() % 2 == 0 && forall|i: int| 0 <= i < s.len() ==> hex_char_val(#[trigger] s[i]) < 16
}

/// The bytes a hexadecimal character sequence denotes, two digits per byte.
pub open spec fn hex_bytes_of(s: Seq<char>) -> Seq<u8>
    decreases s.len(),
{
    if s.len() < 2 {
        Seq::empty()
    } else {
        hex_bytes_of(s.subrange(0, s.len() - 2)).push(
            (hex_char_val(s[s.len() - 2]) * 16 + hex_char_val(s[s.len() - 1])) as u8,
        )
    }
}

/// `hex_of` yields digits, two per byte.
pub proof fn lemma_hex_of_len(s: Seq<u8>)
    ensures
        hex_of(s).len() == 2 * s.len(),
        is_hex_seq(hex_of(s)),
    decreases s,
{
    if s.len() > 0 {
        lemma_hex_of_len(s.drop_last());
    }
}

/// Decoding inverts rendering: the hexadecimal text of a byte sequence
/// denotes exactly that sequence.
pub proof fn lemma_hex_round_trip(s: Seq<u8>)
    ensures
        hex_bytes_of(hex_of(s)) == s,
    decreases s,
{
    if s.len() == 0 {
        assert(hex_bytes_of(hex_of(s)) =~= s);
    } else {
        lemma_hex_round_trip(s.drop_last());
        lemma_hex_of_len(s.drop_last());
        let h = hex_of(s);
        assert(h.subrange(0, h.len() - 2) =~= hex_of(s.drop_last()));
        assert(hex_char_val(hex_digit_char(s.last() / 16)) == s.last() / 16);
        assert(hex_char_val(hex_digit_char(s.last() % 16)) == s.last() % 16);
        assert((s.last() / 16) * 16 + s.last() % 16 == s.last()) by (nonlinear_arith);
        assert(hex_bytes_of(hex_of(s)) =~= s);
    }
}

/// Relies on hex::encode: renders bytes as lowercase hexadecimal, two digits
/// per byte, high digit first.
#[verifier::external_body]
pub fn hex_encode(b: &Vec<u8>) -> (r: String)
    ensures
        r@ == hex_of(b@),
{
    String::from_str(&hex::encode(b))
}

/// Relies on hex::decode: accepts exactly the even-length strings of
/// hexadecimal digits of either case and yields the denoted bytes.
#[verifier::external_body]
pub fn hex_decode(s: &String) -> (r: Option<Vec<u8>>)
    ensures
        match r {
            Some(b) => is_hex_seq(s@) && b@ == hex_bytes_of(s@),
            None => !is_hex_seq(s@),
        },
{
    match hex::decode(s.as_str()) {
        Ok(b) => Some(b),
        Err(_) => None,
    }
}

/// The lowercase hexadecimal digit character for a value below sixteen.
pub fn hex_char(d: u8) -> (c: char)
    requires
        d < 16,
    ensures
        c == hex_digit_char(d),
{
    if d == 0 {
        '0'
    } else if d == 1 {
        '1'
    } else if d == 2 {
        '2'
    } else if d == 3 {
        '3'
    } else if d == 4 {
        '4'
    } else if d == 5 {
        '5'
    } else if d == 6 {
        '6'
    } else if d == 7 {
        '7'
    } else if d == 8 {
        '8'
    } else if d == 9 {
        '9'
    } else if d == 10 {
        'a'
    } else if d == 11 {
        'b'
    } else if d == 12 {
        'c'
    } else if d == 13 {
        'd'
    } else if d == 14 {
        'e'
    } else {
        'f'
    }
}

/// The fixed-width hexadecimal rendering of a value: exactly `k` digits,
/// leading zeros kept, lowest digit last.
pub open spec fn hex_str_fixed(v: nat, k: nat) -> Seq<char>
    decreases k,
{
    if k == 0 {
        Seq::empty()
    } else {
        hex_str_fixed(v / 16, (k - 1) as nat).push(hex_digit_char((v % 16) as u8))
    }
}

/// Renders a value as exactly `k` lowercase hexadecimal digits.
pub fn u128_to_hex_fixed(v: u128, k: u64) -> (r: String)
    ensures
        r@ == hex_str_fixed(v as nat, k as nat),
    decreases k,
{
    if k == 0 {
        let s = String::new();
        proof {
            assert(s@ =~= hex_str_fixed(v as nat, 0));
        }
        s
    } else {
        let mut s = u128_to_hex_fixed(v / 16, k - 1);
        string_push_char(&mut s, hex_char((v % 16) as u8));
        s
    }
}

/// Every character of the sequence is a hexadecimal digit of either case,
/// and there is at least one.
pub open spec fn is_hex_digits(s: Seq<char>) -> bool {
    s.len() > 0 && forall|i: int| 0 <= i < s.len() ==> hex_char_val(#[trigger] s[i]) < 16
}

/// The value a hexadecimal digit sequence denotes.
pub open spec fn hex_val_of(s: Seq<char>) -> nat
    decreases s,
{
    if s.len() == 0 {
        0
    } else {
        hex_val_of(s.drop_last()) * 16 + hex_char_val(s.last()) as nat
    }
}

/// Powers of sixteen.
pub open spec fn pow16(k: nat) -> nat
    decreases k,
{
    if k == 0 {
        1
    } else {
        16 * pow16((k - 1) as nat)
    }
}

/// Powers of sixteen grow with the exponent.
pub proof fn lemma_pow16_monotone(a: nat, b: nat)
    requires
        a <= b,
    ensures
        pow16(a) <= pow16(b),
    decreases b,
{
    if a < b {
        lemma_pow16_monotone(a, (b - 1) as nat);
        assert(pow16(b) == 16 * pow16((b - 1) as nat));
    }
}

/// Parses a sequence of at most thirty-two hexadecimal digits, reporting
/// the denoted value exactly when every character is a digit of either case
/// and there is at least one.
pub fn parse_u128_hex(s: &str, from: usize, to: usize) -> (r: Option<u128>)
    requires
        from <= to <= s@.len(),
        to - from <= 32,
    ensures
        match r {
            Some(v) => is_hex_digits(s@.subrange(from as int, to as int)) && v as nat
                == hex_val_of(s@.subrange(from as int, to as int)),
            None => !is_hex_digits(s@.subrange(from as int, to as int)),
        },
{
    let ghost digits = s@.subrange(from as int, to as int);
    if from == to {
        return None;
    }
    let mut acc: u128 = 0;
    let mut i: usize = from;
    while i < to
        invariant
            from <= i <= to <= s@.len(),
            to - from <= 32,
            digits == s@.subrange(from as int, to as int),
            to > from,
            forall|j: int| 0 <= j < i - from ==> hex_char_val(#[trigger] digits[j]) < 16,
            acc as nat == hex_val_of(digits.take(i - from)),
            (acc as nat) < pow16((i - from) as nat),
        decreases to - i,
    {
        let c = s.get_char(i);
        proof {
            assert(digits[i - from] == s@[i as int]);
        }
        let d: u8 = if c == '0' {
            0
        } else if c == '1' {
            1
        } else if c == '2' {
            2
        } else if c == '3' {
            3
        } else if c == '4' {
            4
        } else if c == '5' {
            5
        } else if c == '6' {
            6
        } else if c == '7' {
            7
        } else if c == '8' {
            8
        } else if c == '9' {
            9
        } else if c == 'a' || c == 'A' {
            10
        } else if c == 'b' || c == 'B' {
            11
        } else if c == 'c' || c == 'C' {
            12
        } else if c == 'd' || c == 'D' {
            13
        } else if c == 'e' || c == 'E' {
            14
        } else if c == 'f' || c == 'F' {
            15
        } else {
            return None;
        };
        proof {
            assert(d == hex_char_val(s@[i as int]));
            let k = i - from + 1;
            assert(digits.take(k).drop_last() =~= digits.take(k - 1));
            assert(digits.take(k).last() == digits[k - 1]);
            lemma_pow16_monotone((i - from + 1) as nat, 32nat);
            assert(pow16(32nat) < 0xffffffffffffffffffffffffffffffffnat + 2) by {
                reveal_with_fuel(pow16, 33);
            }
            assert((acc as nat) * 16 + (d as nat) < pow16((i - from + 1) as nat)) by (
            nonlinear_arith)
                requires
                    (acc as nat) < pow16((i - from) as nat),
                    d < 16,
                    pow16((i - from + 1) as nat) == 16 * pow16((i - from) as nat),
            ;
        }
        acc = acc * 16 + d as u128;
        i = i + 1;
    }
    proof {
        assert(digits.take(to - from) =~= digits);
    }
    Some(acc)
}

/// The decimal digit character for a value below ten; values above nine map
/// to '0'.
pub open spec fn dec_digit_char(d: u8) -> char {
    if d == 0 {
        '0'
    } else if d == 1 {
        '1'
    } else if d == 2 {
        '2'
    } else if d == 3 {
        '3'
    } else if d == 4 {
        '4'
    } else if d == 5 {
        '5'
    } else if d == 6 {
        '6'
    } else if d == 7 {
        '7'
    } else if d == 8 {
        '8'
    } else if d == 9 {
        '9'
    } else {
        '0'
    }
}

/// The value of a decimal digit character; ten marks a character that is no
/// decimal digit.
pub open spec fn dec_char_val(c: char) -> u8 {
    if c == '0' {
        0
    } else if c == '1' {
        1
    } else if c == '2' {
        2
    } else if c == '3' {
        3
    } else if c == '4' {
        4
    } else if c == '5' {
        5
    } else if c == '6' {
        6
    } else if c == '7' {
        7
    } else if c == '8' {
        8
    } else if c == '9' {
        9
    } else {
        10
    }
}

/// The canonical decimal rendering of a natural number, without leading
/// zeros.
pub open spec fn dec_str_of(n: nat) -> Seq<char>
    decreases n,
{
    if n < 10 {
        seq![dec_digit_char(n as u8)]
    } else {
        dec_str_of(n / 10).push(dec_digit_char((n % 10) as u8))
    }
}

/// Every character of the sequence is a decimal digit, and there is at least
/// one.
pub open spec fn is_dec_seq(s: Seq<char>) -> bool {
    s.len() > 0 && forall|i: int| 0 <= i < s.len() ==> dec_char_val(#[trigger] s[i]) < 10
}

/// The value a decimal digit sequence denotes.
pub open spec fn dec_val_of(s: Seq<char>) -> nat
    decreases s,
{
    if s.len() == 0 {
        0
    } else {
        dec_val_of(s.drop_last()) * 10 + dec_char_val(s.last()) as nat
    }
}

/// The decimal digit character for a value below ten.
pub fn dec_char(d: u8) -> (c: char)
    requires
        d < 10,
    ensures
        c == dec_digit_char(d),
{
    if d == 0 {
        '0'
    } else if d == 1 {
        '1'
    } else if d == 2 {
        '2'
    } else if d == 3 {
        '3'
    } else if d == 4 {
        '4'
    } else if d == 5 {
        '5'
    } else if d == 6 {
        '6'
    } else if d == 7 {
        '7'
    } else if d == 8 {
        '8'
    } else {
        '9'
    }
}

/// Renders a natural number in decimal, without leading zeros.
pub fn u128_to_dec_string(n: u128) -> (r: String)
    ensures
        r@ == dec_str_of(n as nat),
    decreases n,
{
    if n < 10 {
        let mut s = String::new();
        string_push_char(&mut s, dec_char(n as u8));
        proof {
            assert(s@ =~= dec_str_of(n as nat));
        }
        s
    } else {
        let mut s = u128_to_dec_string(n / 10);
        string_push_char(&mut s, dec_char((n % 10) as u8));
        s
    }
}

/// Renders a 64-bit number in decimal, without leading zeros.
pub fn u64_to_dec_string(n: u64) -> (r: String)
    ensures
        r@ == dec_str_of(n as nat),
{
    u128_to_dec_string(n as u128)
}

/// A decimal rendering consists of decimal digits.
pub proof fn lemma_dec_str_of_digits(n: nat)
    ensures
        is_dec_seq(dec_str_of(n)),
        dec_str_of(n).len() >= 1,
    decreases n,
{
    if n >= 10 {
        lemma_dec_str_of_digits(n / 10);
    }
}

/// A byte renders in at most three decimal digits.
pub proof fn lemma_dec_str_of_u8_len(n: nat)
    requires
        n < 1000,
    ensures
        dec_str_of(n).len() <= 3,
{
    reveal_with_fuel(dec_str_of, 4);
}

/// Parsing inverts decimal rendering: the rendering of a value is digits
/// and denotes exactly that value.
pub proof fn lemma_dec_round_trip(x: nat)
    ensures
        is_dec_seq(dec_str_of(x)),
        dec_val_of(dec_str_of(x)) == x,
    decreases x,
{
    lemma_dec_str_of_digits(x);
    reveal_with_fuel(dec_val_of, 2);
    if x < 10 {
        let s = dec_str_of(x);
        assert(s.drop_last() =~= Seq::<char>::empty());
        assert(dec_val_of(s) == dec_char_val(dec_digit_char(x as u8)) as nat);
    } else {
        lemma_dec_round_trip(x / 10);
        let s = dec_str_of(x);
        assert(s.drop_last() =~= dec_str_of(x / 10));
        assert(dec_char_val(s.last()) as nat == x % 10);
    }
}

/// Parsing inverts fixed-width hexadecimal rendering for values that fit.
pub proof fn lemma_hex_fixed_round_trip(x: nat, k: nat)
    requires
        x < pow16(k),
    ensures
        hex_str_fixed(x, k).len() == k,
        forall|i: int| 0 <= i < k ==> hex_char_val(#[trigger] hex_str_fixed(x, k)[i]) < 16,
        hex_val_of(hex_str_fixed(x, k)) == x,
    decreases k,
{
    if k == 0 {
    } else {
        assert(x / 16 < pow16((k - 1) as nat)) by (nonlinear_arith)
            requires
                x < 16 * pow16((k - 1) as nat),
        ;
        lemma_hex_fixed_round_trip(x / 16, (k - 1) as nat);
        let s = hex_str_fixed(x, k);
        assert(s.drop_last() =~= hex_str_fixed(x / 16, (k - 1) as nat));
        assert(hex_char_val(s.last()) as nat == x % 16);
        assert forall|i: int| 0 <= i < k implies hex_char_val(#[trigger] s[i]) < 16 by {
            if i < k - 1 {
                assert(s[i] == hex_str_fixed(x / 16, (k - 1) as nat)[i]);
            }
        }
    }
}

/// A digit sequence's value only grows as digits are appended.
pub proof fn lemma_dec_val_prefix_monotone(s: Seq<char>, i: int)
    requires
        0 <= i <= s.len(),
    ensures
        dec_val_of(s.take(i)) <= dec_val_of(s),
    decreases s.len(),
{
    if i < s.len() {
        assert(s.drop_last().take(i) =~= s.take(i));
        lemma_dec_val_prefix_monotone(s.drop_last(), i);
        assert(dec_val_of(s) == dec_val_of(s.drop_last()) * 10 + dec_char_val(s.last()));
        assert(dec_val_of(s.drop_last()) <= dec_val_of(s.drop_last()) * 10) by (nonlinear_arith);
    } else {
        assert(s.take(i) =~= s);
    }
}

/// Parses a decimal digit sequence, reporting the denoted value exactly when
/// every character is a digit, there is at least one, and the value fits.
pub fn parse_u128_dec(s: &str, from: usize, to: usize) -> (r: Option<u128>)
    requires
        from <= to <= s@.len(),
    ensures
        match r {
            Some(v) => is_dec_seq(s@.subrange(from as int, to as int)) && v as nat == dec_val_of(
                s@.subrange(from as int, to as int),
            ) && dec_val_of(s@.subrange(from as int, to as int)) <= u128::MAX,
            None => !is_dec_seq(s@.subrange(from as int, to as int)) || dec_val_of(
                s@.subrange(from as int, to as int),
            ) > u128::MAX,
        },
{
    let ghost digits = s@.subrange(from as int, to as int);
    if from == to {
        return None;
    }
    let mut acc: u128 = 0;
    let mut i: usize = from;
    while i < to
        invariant
            from <= i <= to <= s@.len(),
            digits == s@.subrange(from as int, to as int),
            to > from,
            forall|j: int| 0 <= j < i - from ==> dec_char_val(#[trigger] digits[j]) < 10,
            acc as nat == dec_val_of(digits.take(i - from)),
        decreases to - i,
    {
        let c = s.get_char(i);
        proof {
            assert(digits[i - from] == s@[i as int]);
        }
        let d: u8 = if c == '0' {
            0
        } else if c == '1' {
            1
        } else if c == '2' {
            2
        } else if c == '3' {
            3
        } else if c == '4' {
            4
        } else if c == '5' {
            5
        } else if c == '6' {
            6
        } else if c == '7' {
            7
        } else if c == '8' {
            8
        } else if c == '9' {
            9
        } else {
            return None;
        };
        proof {
            assert(d == dec_char_val(s@[i as int]));
        }
        if acc > (u128::MAX - d as u128) / 10 {
            proof {
                let k = i - from + 1;
                assert(digits.take(k).drop_last() =~= digits.take(k - 1));
                assert(digits.take(k).last() == digits[k - 1]);
                assert(dec_val_of(digits.take(k)) == dec_val_of(digits.take(k - 1)) * 10
                    + dec_char_val(digits[k - 1]));
                assert(acc as nat * 10 + d as nat > u128::MAX) by (nonlinear_arith)
                    requires
                        acc > (u128::MAX - d as u128) / 10,
                        d < 10,
                ;
                lemma_dec_val_prefix_monotone(digits, k);
            }
            return None;
        }
        proof {
            assert(acc as nat * 10 + d as nat <= u128::MAX) by (nonlinear_arith)
                requires
                    acc <= (u128::MAX - d as u128) / 10,
                    d < 10,
            ;
            let k = i - from + 1;
            assert(digits.take(k).drop_last() =~= digits.take(k - 1));
            assert(digits.take(k).last() == digits[k - 1]);
        }
        acc = acc * 10 + d as u128;
        i = i + 1;
    }
    proof {
        assert(digits.take(to - from) =~= digits);
    }
    Some(acc)
}

/// Parses a decimal digit sequence into a 64-bit value; see
/// [`parse_u128_dec`].
pub fn parse_u64_dec(s: &str, from: usize, to: usize) -> (r: Option<u64>)
    requires
        from <= to <= s@.len(),
    ensures
        match r {
            Some(v) => is_dec_seq(s@.subrange(from as int, to as int)) && v as nat == dec_val_of(
                s@.subrange(from as int, to as int),
            ) && dec_val_of(s@.subrange(from as int, to as int)) <= u64::MAX,
            None => !is_dec_seq(s@.subrange(from as int, to as int)) || dec_val_of(
                s@.subrange(from as int, to as int),
            ) > u64::MAX,
        },
{
    match parse_u128_dec(s, from, to) {
        Some(v) => {
            if v <= u64::MAX as u128 {
                Some(v as u64)
            } else {
                None
            }
        },
        None => None,
    }
}

} // verus!
