//! Byte-level codecs for the store's key layout: canonical decimal
//! renderings of chat and user ids, and the big-endian encoding of a
//! user id in a reverse-index value.

use vstd::prelude::*;
use vstd::arithmetic::div_mod::{lemma_fundamental_div_mod, lemma_fundamental_div_mod_converse};
use vstd::slice::slice_subrange;

verus! {

/// An ASCII decimal digit.
pub open spec fn is_dec_digit(b: u8) -> bool {
    0x30 <= b <= 0x39
}

/// The numeric value of one digit byte (zero for non-digits).
pub open spec fn digit_val(b: u8) -> nat {
    if is_dec_digit(b) {
        (b - 0x30) as nat
    } else {
        0
    }
}

/// The canonical decimal rendering of a natural number: no sign, no
/// leading zeroes, at least one digit.
pub open spec fn dec_u64(n: nat) -> Seq<u8>
    decreases n,
{
    if n < 10 {
        seq![(0x30 + n) as u8]
    } else {
        dec_u64(n / 10).push((0x30 + n % 10) as u8)
    }
}

/// The canonical decimal rendering of an integer: a minus sign before the
/// magnitude when negative.
pub open spec fn dec_i64(n: int) -> Seq<u8> {
    if n < 0 {
        seq![0x2Du8] + dec_u64((-n) as nat)
    } else {
        dec_u64(n as nat)
    }
}

/// The value of a digit string, most significant digit first.
pub open spec fn dec_value(s: Seq<u8>) -> nat
    decreases s.len(),
{
    if s.len() == 0 {
        0
    } else {
        dec_value(s.drop_last()) * 10 + digit_val(s.last())
    }
}

/// A decimal rendering is nonempty and holds digits only.
pub proof fn lemma_dec_u64_digits(n: nat)
    ensures
        dec_u64(n).len() >= 1,
        forall|i: int| 0 <= i < dec_u64(n).len() ==> is_dec_digit(#[trigger] dec_u64(n)[i]),
    decreases n,
{
    if n >= 10 {
        lemma_dec_u64_digits(n / 10);
    }
}

/// A positive number's rendering does not start with a zero digit.
pub proof fn lemma_dec_u64_first_nonzero(n: nat)
    requires
        n > 0,
    ensures
        dec_u64(n)[0] != 0x30,
    decreases n,
{
    if n >= 10 {
        lemma_dec_u64_digits(n / 10);
        lemma_dec_u64_first_nonzero(n / 10);
    }
}

/// Reading back a rendering yields the number.
pub proof fn lemma_dec_u64_value(n: nat)
    ensures
        dec_value(dec_u64(n)) == n,
    decreases n,
{
    if n < 10 {
        let b = (0x30 + n) as u8;
        assert(dec_u64(n) == seq![b]);
        assert(dec_u64(n).last() == b);
        assert(dec_u64(n).drop_last() =~= Seq::<u8>::empty());
        assert(dec_value(Seq::<u8>::empty()) == 0);
        assert(is_dec_digit(b));
        assert(digit_val(b) == n);
        assert(dec_value(dec_u64(n)) == 0 * 10 + digit_val(b));
    } else {
        let b = (0x30 + n % 10) as u8;
        lemma_dec_u64_value(n / 10);
        lemma_dec_u64_digits(n / 10);
        assert(dec_u64(n) == dec_u64(n / 10).push(b));
        assert(dec_u64(n).last() == b);
        assert(dec_u64(n).drop_last() =~= dec_u64(n / 10));
        assert(is_dec_digit(b));
        assert(digit_val(b) == n % 10);
        assert(dec_value(dec_u64(n)) == dec_value(dec_u64(n / 10)) * 10 + digit_val(b));
        lemma_fundamental_div_mod(n as int, 10);
    }
}

/// Canonical decimal renderings identify their numbers.
pub proof fn lemma_dec_u64_injective(a: nat, b: nat)
    requires
        dec_u64(a) == dec_u64(b),
    ensures
        a == b,
{
    lemma_dec_u64_value(a);
    lemma_dec_u64_value(b);
}

/// A digit string with a nonzero first digit has a positive value.
pub proof fn lemma_dec_value_pos(s: Seq<u8>)
    requires
        s.len() >= 1,
        forall|i: int| 0 <= i < s.len() ==> is_dec_digit(#[trigger] s[i]),
        s[0] != 0x30,
    ensures
        dec_value(s) >= 1,
    decreases s.len(),
{
    if s.len() > 1 {
        assert(s.drop_last()[0] == s[0]);
        lemma_dec_value_pos(s.drop_last());
    }
}

/// A digit string without a leading zero is the canonical rendering of its
/// own value.
pub proof fn lemma_canonical_dec(s: Seq<u8>)
    requires
        s.len() >= 1,
        forall|i: int| 0 <= i < s.len() ==> is_dec_digit(#[trigger] s[i]),
        s.len() > 1 ==> s[0] != 0x30,
    ensures
        dec_u64(dec_value(s)) == s,
    decreases s.len(),
{
    if s.len() == 1 {
        assert(is_dec_digit(s[0]));
        assert(s.last() == s[0]);
        assert(s.drop_last() =~= Seq::<u8>::empty());
        assert(dec_value(Seq::<u8>::empty()) == 0);
        assert(dec_value(s) == dec_value(s.drop_last()) * 10 + digit_val(s.last()));
        assert(dec_value(s) == digit_val(s[0]));
        assert(dec_value(s) < 10);
        assert((0x30 + dec_value(s)) as u8 == s[0]);
        assert(dec_u64(dec_value(s)) =~= s);
    } else {
        let t = s.drop_last();
        let d = digit_val(s.last());
        let v = dec_value(s);
        assert(t[0] == s[0]);
        lemma_dec_value_pos(t);
        assert(v == dec_value(t) * 10 + d);
        assert(v >= 10);
        lemma_fundamental_div_mod_converse(v as int, 10, dec_value(t) as int, d as int);
        lemma_canonical_dec(t);
        assert(dec_u64(v) =~= s);
    }
}

/// The value of a digit string never shrinks as the string extends.
pub proof fn lemma_dec_value_prefix_mono(s: Seq<u8>, i: int, j: int)
    requires
        0 <= i <= j <= s.len(),
    ensures
        dec_value(s.subrange(0, i)) <= dec_value(s.subrange(0, j)),
    decreases j - i,
{
    if i < j {
        lemma_dec_value_prefix_mono(s, i, j - 1);
        assert(s.subrange(0, j).drop_last() =~= s.subrange(0, j - 1));
        assert(dec_value(s.subrange(0, j)) == dec_value(s.subrange(0, j - 1)) * 10 + digit_val(
            s.subrange(0, j).last(),
        ));
    }
}

/// Render a number in canonical decimal.
pub fn u64_to_dec(n: u64) -> (r: Vec<u8>)
    ensures
        r@ == dec_u64(n as nat),
{
    let mut out: Vec<u8> = Vec::new();
    if n == 0 {
        out.push(0x30);
        proof {
            assert(out@ =~= dec_u64(0));
        }
        return out;
    }
    let mut m: u64 = n;
    proof {
        assert(dec_u64(n as nat) =~= dec_u64(m as nat) + out@);
    }
    while m > 0
        invariant
            m > 0 ==> dec_u64(n as nat) == dec_u64(m as nat) + out@,
            m == 0 ==> dec_u64(n as nat) == out@,
        decreases m,
    {
        let d: u8 = 0x30 + (m % 10) as u8;
        out.insert(0, d);
        let m2: u64 = m / 10;
        proof {
            if m2 > 0 {
                assert(m >= 10);
                assert(dec_u64(m as nat) =~= dec_u64(m2 as nat).push(d));
                assert(dec_u64(m2 as nat) + out@ =~= dec_u64(n as nat));
            } else {
                assert(m < 10);
                assert(dec_u64(m as nat) =~= seq![d]);
                assert(out@ =~= dec_u64(n as nat));
            }
        }
        m = m2;
    }
    out
}

/// Render an integer in canonical decimal.
pub fn i64_to_dec(n: i64) -> (r: Vec<u8>)
    ensures
        r@ == dec_i64(n as int),
{
    if n >= 0 {
        u64_to_dec(n as u64)
    } else {
        let mag: u64 = (-(n as i128)) as u64;
        let mut out: Vec<u8> = u64_to_dec(mag);
        out.insert(0, 0x2D);
        proof {
            assert(out@ =~= dec_i64(n as int));
        }
        out
    }
}

/// Parse a canonical decimal rendering; `None` on anything else.
pub fn parse_u64_dec(s: &[u8]) -> (r: Option<u64>)
    ensures
        match r {
            Some(v) => s@ == dec_u64(v as nat),
            None => forall|n: u64| s@ != dec_u64(n as nat),
        },
{
    let len = s.len();
    if len == 0 {
        proof {
            assert forall|n: u64| s@ != dec_u64(n as nat) by {
                lemma_dec_u64_digits(n as nat);
            }
        }
        return None;
    }
    if len > 1 && s[0] == 0x30 {
        proof {
            assert forall|n: u64| s@ != dec_u64(n as nat) by {
                if s@ == dec_u64(n as nat) {
                    lemma_dec_u64_digits(n as nat);
                    if n > 0 {
                        lemma_dec_u64_first_nonzero(n as nat);
                    }
                }
            }
        }
        return None;
    }
    let mut i: usize = 0;
    let mut v: u64 = 0;
    proof {
        assert(s@.subrange(0, 0) =~= Seq::<u8>::empty());
    }
    while i < len
        invariant
            0 <= i <= len,
            len == s@.len(),
            len >= 1,
            len > 1 ==> s@[0] != 0x30,
            forall|j: int| 0 <= j < i ==> is_dec_digit(#[trigger] s@[j]),
            v as nat == dec_value(s@.subrange(0, i as int)),
        decreases len - i,
    {
        let b = s[i];
        if b < 0x30 || b > 0x39 {
            proof {
                assert forall|n: u64| s@ != dec_u64(n as nat) by {
                    if s@ == dec_u64(n as nat) {
                        lemma_dec_u64_digits(n as nat);
                    }
                }
            }
            return None;
        }
        let d: u64 = (b - 0x30) as u64;
        proof {
            assert(s@.subrange(0, i + 1).drop_last() =~= s@.subrange(0, i as int));
            assert(s@.subrange(0, i + 1).last() == s@[i as int]);
            assert(dec_value(s@.subrange(0, i + 1)) == (v as nat) * 10 + (d as nat));
        }
        let step = match v.checked_mul(10) {
            Some(v10) => v10.checked_add(d),
            None => None,
        };
        match step {
            Some(v2) => {
                v = v2;
            },
            None => {
                proof {
                    assert forall|n: u64| s@ != dec_u64(n as nat) by {
                        if s@ == dec_u64(n as nat) {
                            lemma_dec_u64_value(n as nat);
                            lemma_dec_value_prefix_mono(s@, i + 1, s@.len() as int);
                            assert(s@.subrange(0, s@.len() as int) =~= s@);
                            assert(dec_value(s@) >= (v as nat) * 10 + (d as nat));
                            assert(dec_value(s@) > u64::MAX);
                        }
                    }
                }
                return None;
            },
        }
        i = i + 1;
    }
    proof {
        assert(s@.subrange(0, len as int) =~= s@);
        lemma_canonical_dec(s@);
    }
    Some(v)
}

/// Parse a canonical signed decimal rendering; `None` on anything else.
pub fn parse_i64_dec(s: &[u8]) -> (r: Option<i64>)
    ensures
        match r {
            Some(v) => s@ == dec_i64(v as int),
            None => forall|n: i64| s@ != dec_i64(n as int),
        },
{
    let len = s.len();
    if len == 0 {
        proof {
            assert forall|n: i64| s@ != dec_i64(n as int) by {
                lemma_dec_u64_digits(n as nat);
                lemma_dec_u64_digits((-(n as int)) as nat);
            }
        }
        return None;
    }
    if s[0] == 0x2D {
        let rest = slice_subrange(s, 1, len);
        let parsed = parse_u64_dec(rest);
        proof {
            assert(rest@ =~= s@.subrange(1, len as int));
        }
        match parsed {
            Some(v) => {
                if v == 0 || v > 0x8000_0000_0000_0000u64 {
                    proof {
                        assert forall|n: i64| s@ != dec_i64(n as int) by {
                            if s@ == dec_i64(n as int) {
                                lemma_dec_u64_digits(n as nat);
                                if n < 0 {
                                    assert(rest@ =~= dec_u64((-(n as int)) as nat));
                                    lemma_dec_u64_injective(v as nat, (-(n as int)) as nat);
                                }
                            }
                        }
                    }
                    None
                } else {
                    let r: i64 = if v == 0x8000_0000_0000_0000u64 {
                        i64::MIN
                    } else {
                        -((v as i64))
                    };
                    proof {
                        assert(s@ =~= seq![0x2Du8] + rest@);
                        assert(s@ =~= dec_i64(r as int));
                    }
                    Some(r)
                }
            },
            None => {
                proof {
                    assert forall|n: i64| s@ != dec_i64(n as int) by {
                        if s@ == dec_i64(n as int) {
                            lemma_dec_u64_digits(n as nat);
                            if n < 0 {
                                assert(rest@ =~= dec_u64((-(n as int)) as nat));
                            }
                        }
                    }
                }
                None
            },
        }
    } else {
        let parsed = parse_u64_dec(s);
        match parsed {
            Some(v) => {
                if v > i64::MAX as u64 {
                    proof {
                        assert forall|n: i64| s@ != dec_i64(n as int) by {
                            if s@ == dec_i64(n as int) {
                                if n < 0 {
                                    assert(s@[0] == 0x2D);
                                } else {
                                    lemma_dec_u64_injective(v as nat, n as nat);
                                }
                            }
                        }
                    }
                    None
                } else {
                    Some(v as i64)
                }
            },
            None => {
                proof {
                    assert forall|n: i64| s@ != dec_i64(n as int) by {
                        if s@ == dec_i64(n as int) && n >= 0 {
                            assert(s@ == dec_u64(n as nat));
                        }
                    }
                }
                None
            },
        }
    }
}

/// Strict byte-wise lexicographic order on byte strings, a proper prefix
/// ordering before its extensions: the order in which the store's tree
/// iterates its keys.
pub open spec fn lex_lt(a: Seq<u8>, b: Seq<u8>) -> bool
    decreases a.len(),
{
    if b.len() == 0 {
        false
    } else if a.len() == 0 {
        true
    } else if a[0] < b[0] {
        true
    } else if a[0] > b[0] {
        false
    } else {
        lex_lt(a.drop_first(), b.drop_first())
    }
}

/// One decimal digit as a character.
pub open spec fn dec_digit_char(d: nat) -> char {
    if d == 0 {
        '0'
    } else if d == 1 {
        '1'
    } else if d == 2 {
        '2'
    } else if d == 3 {
        '3'
    } else if d == 4 {
        '4'
    } else if d == 5 {
        '5'
    } else if d == 6 {
        '6'
    } else if d == 7 {
        '7'
    } else if d == 8 {
        '8'
    } else {
        '9'
    }
}

/// The canonical decimal rendering of a natural number, as characters.
pub open spec fn dec_chars_u64(n: nat) -> Seq<char>
    decreases n,
{
    if n < 10 {
        seq![dec_digit_char(n)]
    } else {
        dec_chars_u64(n / 10).push(dec_digit_char(n % 10))
    }
}

/// The canonical decimal rendering of an integer, as characters.
pub open spec fn dec_chars_i64(n: int) -> Seq<char> {
    if n < 0 {
        seq!['-'] + dec_chars_u64((-n) as nat)
    } else {
        dec_chars_u64(n as nat)
    }
}

/// Append the decimal rendering of `n`.
pub fn push_dec_u64(n: u64, out: &mut String)
    ensures
        final(out)@ == old(out)@ + dec_chars_u64(n as nat),
    decreases n,
{
    if n >= 10 {
        push_dec_u64(n / 10, out);
    }
    let d = n % 10;
    proof {
        reveal_strlit("0");
        reveal_strlit("1");
        reveal_strlit("2");
        reveal_strlit("3");
        reveal_strlit("4");
        reveal_strlit("5");
        reveal_strlit("6");
        reveal_strlit("7");
        reveal_strlit("8");
        reveal_strlit("9");
    }
    match d {
        0 => out.append("0"),
        1 => out.append("1"),
        2 => out.append("2"),
        3 => out.append("3"),
        4 => out.append("4"),
        5 => out.append("5"),
        6 => out.append("6"),
        7 => out.append("7"),
        8 => out.append("8"),
        _ => out.append("9"),
    }
    proof {
        assert(out@ =~= old(out)@ + dec_chars_u64(n as nat));
    }
}

/// Append the decimal rendering of `n`, minus sign included.
pub fn push_dec_i64(n: i64, out: &mut String)
    ensures
        final(out)@ == old(out)@ + dec_chars_i64(n as int),
{
    if n >= 0 {
        push_dec_u64(n as u64, out);
    } else {
        proof {
            reveal_strlit("-");
        }
        out.append("-");
        let mag: u64 = (-(n as i128)) as u64;
        push_dec_u64(mag, out);
        proof {
            assert(out@ =~= old(out)@ + dec_chars_i64(n as int));
        }
    }
}

/// The eight-byte big-endian encoding of a user id.
pub open spec fn u64_be(n: u64) -> Seq<u8> {
    seq![
        (n / 0x100000000000000) as u8,
        ((n / 0x1000000000000) % 0x100) as u8,
        ((n / 0x10000000000) % 0x100) as u8,
        ((n / 0x100000000) % 0x100) as u8,
        ((n / 0x1000000) % 0x100) as u8,
        ((n / 0x10000) % 0x100) as u8,
        ((n / 0x100) % 0x100) as u8,
        (n % 0x100) as u8,
    ]
}

/// Encode a user id as eight big-endian bytes.
pub fn u64_to_be(n: u64) -> (r: Vec<u8>)
    ensures
        r@ == u64_be(n),
{
    let mut out: Vec<u8> = Vec::new();
    out.push((n / 0x100000000000000) as u8);
    out.push(((n / 0x1000000000000) % 0x100) as u8);
    out.push(((n / 0x10000000000) % 0x100) as u8);
    out.push(((n / 0x100000000) % 0x100) as u8);
    out.push(((n / 0x1000000) % 0x100) as u8);
    out.push(((n / 0x10000) % 0x100) as u8);
    out.push(((n / 0x100) % 0x100) as u8);
    out.push((n % 0x100) as u8);
    proof {
        assert(out@ =~= u64_be(n));
    }
    out
}

/// Big-endian encodings identify their numbers.
pub proof fn lemma_u64_be_injective(a: u64, b: u64)
    requires
        u64_be(a) == u64_be(b),
    ensures
        a == b,
{
    assert(u64_be(a)[0] == u64_be(b)[0]);
    assert(u64_be(a)[1] == u64_be(b)[1]);
    assert(u64_be(a)[2] == u64_be(b)[2]);
    assert(u64_be(a)[3] == u64_be(b)[3]);
    assert(u64_be(a)[4] == u64_be(b)[4]);
    assert(u64_be(a)[5] == u64_be(b)[5]);
    assert(u64_be(a)[6] == u64_be(b)[6]);
    assert(u64_be(a)[7] == u64_be(b)[7]);
    assert(a / 0x100000000000000 < 0x100) by (bit_vector);
    assert(b / 0x100000000000000 < 0x100) by (bit_vector);
    assert(a == b) by (bit_vector)
        requires
            a / 0x100000000000000 == b / 0x100000000000000,
            (a / 0x1000000000000) % 0x100 == (b / 0x1000000000000) % 0x100,
            (a / 0x10000000000) % 0x100 == (b / 0x10000000000) % 0x100,
            (a / 0x100000000) % 0x100 == (b / 0x100000000) % 0x100,
            (a / 0x1000000) % 0x100 == (b / 0x1000000) % 0x100,
            (a / 0x10000) % 0x100 == (b / 0x10000) % 0x100,
            (a / 0x100) % 0x100 == (b / 0x100) % 0x100,
            a % 0x100 == b % 0x100,
    ;
}

/// Decode eight big-endian bytes into a user id; `None` unless exactly
/// eight bytes long.
pub fn u64_from_be(s: &[u8]) -> (r: Option<u64>)
    ensures
        match r {
            Some(v) => s@ == u64_be(v),
            None => s@.len() != 8,
        },
{
    if s.len() != 8 {
        return None;
    }
    let v: u64 = (s[0] as u64) * 0x100000000000000 + (s[1] as u64) * 0x1000000000000 + (s[2]
        as u64) * 0x10000000000 + (s[3] as u64) * 0x100000000 + (s[4] as u64) * 0x1000000 + (s[5]
        as u64) * 0x10000 + (s[6] as u64) * 0x100 + (s[7] as u64);
    proof {
        let c0: u64 = s@[0] as u64;
        let c1: u64 = s@[1] as u64;
        let c2: u64 = s@[2] as u64;
        let c3: u64 = s@[3] as u64;
        let c4: u64 = s@[4] as u64;
        let c5: u64 = s@[5] as u64;
        let c6: u64 = s@[6] as u64;
        let c7: u64 = s@[7] as u64;
        assert(v / 0x100000000000000 == c0 && (v / 0x1000000000000) % 0x100 == c1 && (v
            / 0x10000000000) % 0x100 == c2 && (v / 0x100000000) % 0x100 == c3 && (v / 0x1000000)
            % 0x100 == c4 && (v / 0x10000) % 0x100 == c5 && (v / 0x100) % 0x100 == c6 && v % 0x100
            == c7) by (bit_vector)
            requires
                c0 < 0x100,
                c1 < 0x100,
                c2 < 0x100,
                c3 < 0x100,
                c4 < 0x100,
                c5 < 0x100,
                c6 < 0x100,
                c7 < 0x100,
                v == c0 * 0x100000000000000 + c1 * 0x1000000000000 + c2 * 0x10000000000 + c3
                    * 0x100000000 + c4 * 0x1000000 + c5 * 0x10000 + c6 * 0x100 + c7,
        ;
        assert(u64_be(v) =~= s@);
    }
    Some(v)
}

} // verus!
