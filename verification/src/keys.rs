//! The store's key layout. Two disjoint key families share one tree:
//! `chat$<chat_id>$<user_id>` maps to a title's UTF-8 bytes, and
//! `title$<chat_id>$<title>` maps to the holder's id in eight big-endian
//! bytes. Chat and user ids are rendered in canonical decimal, which holds
//! no separator byte, so every well-formed key parses back uniquely.

use vstd::prelude::*;
use vstd::utf8::{decode_utf8, encode_utf8, encode_utf8_decode_utf8};
use crate::codec::{
    dec_i64, dec_u64, i64_to_dec, is_dec_digit, lemma_dec_u64_digits, lemma_dec_u64_injective,
    u64_to_dec,
};

verus! {

/// The `$` separator byte.
pub open spec fn sep() -> u8 {
    0x24
}

/// True when no byte of `s` is the separator.
pub open spec fn sep_free(s: Seq<u8>) -> bool {
    forall|i: int| 0 <= i < s.len() ==> s[i] != sep()
}

/// The bytes of `chat$`.
pub open spec fn chat_tag() -> Seq<u8> {
    seq![0x63u8, 0x68u8, 0x61u8, 0x74u8, 0x24u8]
}

/// The bytes of `title$`.
pub open spec fn title_tag() -> Seq<u8> {
    seq![0x74u8, 0x69u8, 0x74u8, 0x6Cu8, 0x65u8, 0x24u8]
}

/// The scan prefix of one chat's forward records: `chat$<chat_id>$`.
pub open spec fn chat_prefix(chat: int) -> Seq<u8> {
    chat_tag() + dec_i64(chat) + seq![sep()]
}

/// The forward key `chat$<chat_id>$<user_id>`.
pub open spec fn chat_key(chat: int, user: nat) -> Seq<u8> {
    chat_prefix(chat) + dec_u64(user)
}

/// The reverse key `title$<chat_id>$<title>`.
pub open spec fn title_key(chat: int, title: Seq<char>) -> Seq<u8> {
    title_tag() + dec_i64(chat) + seq![sep()] + encode_utf8(title)
}

/// A decimal rendering holds no separator byte.
pub proof fn lemma_dec_i64_sep_free(n: int)
    ensures
        sep_free(dec_i64(n)),
        sep_free(dec_u64(n as nat)),
        sep_free(dec_u64((-n) as nat)),
{
    lemma_dec_u64_digits(n as nat);
    lemma_dec_u64_digits((-n) as nat);
}

/// Splitting at the first separator is unambiguous: if two concatenations
/// `a + $ + b` agree and neither `a` holds a separator, the parts agree.
pub proof fn lemma_sep_split(a1: Seq<u8>, b1: Seq<u8>, a2: Seq<u8>, b2: Seq<u8>)
    requires
        sep_free(a1),
        sep_free(a2),
        a1 + seq![sep()] + b1 == a2 + seq![sep()] + b2,
    ensures
        a1 == a2,
        b1 == b2,
{
    let l = a1 + seq![sep()] + b1;
    let r = a2 + seq![sep()] + b2;
    if a1.len() < a2.len() {
        assert(l[a1.len() as int] == sep());
        assert(r[a1.len() as int] == a2[a1.len() as int]);
        assert(false);
    }
    if a2.len() < a1.len() {
        assert(r[a2.len() as int] == sep());
        assert(l[a2.len() as int] == a1[a2.len() as int]);
        assert(false);
    }
    assert(a1 =~= a2) by {
        assert(forall|i: int| 0 <= i < a1.len() ==> l[i] == a1[i] && r[i] == a2[i]);
    }
    assert(l.len() == a1.len() + 1 + b1.len());
    assert(r.len() == a2.len() + 1 + b2.len());
    assert(b1.len() == b2.len());
    assert forall|i: int| 0 <= i < b1.len() implies b1[i] == b2[i] by {
        assert(l[a1.len() + 1 + i] == b1[i]);
        assert(r[a2.len() + 1 + i] == b2[i]);
    }
    assert(b1 =~= b2);
}

/// As above, but with only a prefix of the second concatenation given:
/// if `a2 + $` is a prefix of `a1 + $ + b1` and neither part holds a
/// separator, then `a1 == a2`.
pub proof fn lemma_sep_split_prefix(a1: Seq<u8>, b1: Seq<u8>, a2: Seq<u8>)
    requires
        sep_free(a1),
        sep_free(a2),
        (a2 + seq![sep()]).is_prefix_of(a1 + seq![sep()] + b1),
    ensures
        a1 == a2,
{
    let l = a1 + seq![sep()] + b1;
    let p = a2 + seq![sep()];
    if a1.len() < a2.len() {
        assert(p[a1.len() as int] == a2[a1.len() as int]);
        assert(l[a1.len() as int] == sep());
        assert(false);
    }
    if a2.len() < a1.len() {
        assert(p[a2.len() as int] == sep());
        assert(l[a2.len() as int] == a1[a2.len() as int]);
        assert(false);
    }
    assert(a1 =~= a2) by {
        assert(forall|i: int| 0 <= i < a1.len() ==> l[i] == a1[i] && p[i] == a2[i]);
    }
}

/// Signed decimal renderings identify their numbers.
pub proof fn lemma_dec_i64_injective(a: int, b: int)
    requires
        dec_i64(a) == dec_i64(b),
    ensures
        a == b,
{
    lemma_dec_u64_digits(a as nat);
    lemma_dec_u64_digits(b as nat);
    lemma_dec_u64_digits((-a) as nat);
    lemma_dec_u64_digits((-b) as nat);
    if a < 0 && b < 0 {
        assert(dec_i64(a).subrange(1, dec_i64(a).len() as int) =~= dec_u64((-a) as nat));
        assert(dec_i64(b).subrange(1, dec_i64(b).len() as int) =~= dec_u64((-b) as nat));
        lemma_dec_u64_injective((-a) as nat, (-b) as nat);
    } else if a >= 0 && b >= 0 {
        lemma_dec_u64_injective(a as nat, b as nat);
    } else if a < 0 {
        assert(dec_i64(a)[0] == 0x2D);
        assert(is_dec_digit(dec_i64(b)[0]));
        assert(false);
    } else {
        assert(dec_i64(b)[0] == 0x2D);
        assert(is_dec_digit(dec_i64(a)[0]));
        assert(false);
    }
}

/// Forward keys identify chat and user.
pub proof fn lemma_chat_key_injective(c1: int, u1: nat, c2: int, u2: nat)
    requires
        chat_key(c1, u1) == chat_key(c2, u2),
    ensures
        c1 == c2,
        u1 == u2,
{
    let k1 = chat_key(c1, u1);
    let t1 = dec_i64(c1) + seq![sep()] + dec_u64(u1);
    let t2 = dec_i64(c2) + seq![sep()] + dec_u64(u2);
    assert(t1 =~= k1.subrange(5, k1.len() as int));
    assert(t2 =~= chat_key(c2, u2).subrange(5, chat_key(c2, u2).len() as int));
    lemma_dec_i64_sep_free(c1);
    lemma_dec_i64_sep_free(c2);
    lemma_sep_split(dec_i64(c1), dec_u64(u1), dec_i64(c2), dec_u64(u2));
    lemma_dec_i64_injective(c1, c2);
    lemma_dec_u64_injective(u1, u2);
}

/// Reverse keys identify chat and title.
pub proof fn lemma_title_key_injective(c1: int, t1: Seq<char>, c2: int, t2: Seq<char>)
    requires
        title_key(c1, t1) == title_key(c2, t2),
    ensures
        c1 == c2,
        t1 == t2,
{
    let k1 = title_key(c1, t1);
    let s1 = dec_i64(c1) + seq![sep()] + encode_utf8(t1);
    let s2 = dec_i64(c2) + seq![sep()] + encode_utf8(t2);
    assert(s1 =~= k1.subrange(6, k1.len() as int));
    assert(s2 =~= title_key(c2, t2).subrange(6, title_key(c2, t2).len() as int));
    lemma_dec_i64_sep_free(c1);
    lemma_dec_i64_sep_free(c2);
    lemma_sep_split(dec_i64(c1), encode_utf8(t1), dec_i64(c2), encode_utf8(t2));
    lemma_dec_i64_injective(c1, c2);
    lemma_encode_utf8_injective(t1, t2);
}

/// UTF-8 encodings identify their character sequences.
pub proof fn lemma_encode_utf8_injective(t1: Seq<char>, t2: Seq<char>)
    requires
        encode_utf8(t1) == encode_utf8(t2),
    ensures
        t1 == t2,
{
    broadcast use encode_utf8_decode_utf8;

    assert(decode_utf8(encode_utf8(t1)) == t1);
    assert(decode_utf8(encode_utf8(t2)) == t2);
}

/// A forward key never equals a reverse key.
pub proof fn lemma_key_families_disjoint(c1: int, u: nat, c2: int, t: Seq<char>)
    ensures
        chat_key(c1, u) != title_key(c2, t),
{
    assert(chat_key(c1, u)[0] == 0x63);
    assert(title_key(c2, t)[0] == 0x74);
}

/// A forward key carrying one chat's scan prefix belongs to that chat.
pub proof fn lemma_chat_prefix_determines(c: int, c2: int, u2: nat)
    requires
        chat_prefix(c).is_prefix_of(chat_key(c2, u2)),
    ensures
        c2 == c,
{
    let k = chat_key(c2, u2);
    let t = dec_i64(c2) + seq![sep()] + dec_u64(u2);
    let p = dec_i64(c) + seq![sep()];
    assert(t =~= k.subrange(5, k.len() as int));
    assert(p.is_prefix_of(t)) by {
        assert(p =~= chat_prefix(c).subrange(5, chat_prefix(c).len() as int));
        assert(forall|i: int|
            0 <= i < p.len() ==> p[i] == chat_prefix(c)[i + 5] && t[i] == k[i + 5]);
        assert(p =~= t.subrange(0, p.len() as int));
    }
    lemma_dec_i64_sep_free(c);
    lemma_dec_i64_sep_free(c2);
    lemma_sep_split_prefix(dec_i64(c2), dec_u64(u2), dec_i64(c));
    lemma_dec_i64_injective(c, c2);
}

/// Build the forward key for one record.
pub fn make_chat_key(chat_id: i64, user_id: u64) -> (r: Vec<u8>)
    ensures
        r@ == chat_key(chat_id as int, user_id as nat),
{
    let mut k: Vec<u8> = Vec::new();
    k.push(0x63);
    k.push(0x68);
    k.push(0x61);
    k.push(0x74);
    k.push(0x24);
    let mut c = i64_to_dec(chat_id);
    k.append(&mut c);
    k.push(0x24);
    let mut u = u64_to_dec(user_id);
    k.append(&mut u);
    proof {
        assert(k@ =~= chat_key(chat_id as int, user_id as nat));
    }
    k
}

/// Build the scan prefix that covers one chat's forward keys.
pub fn make_chat_prefix(chat_id: i64) -> (r: Vec<u8>)
    ensures
        r@ == chat_prefix(chat_id as int),
{
    let mut k: Vec<u8> = Vec::new();
    k.push(0x63);
    k.push(0x68);
    k.push(0x61);
    k.push(0x74);
    k.push(0x24);
    let mut c = i64_to_dec(chat_id);
    k.append(&mut c);
    k.push(0x24);
    proof {
        assert(k@ =~= chat_prefix(chat_id as int));
    }
    k
}

/// Build the reverse key for one title.
pub fn make_title_key(chat_id: i64, title: &str) -> (r: Vec<u8>)
    ensures
        r@ == title_key(chat_id as int, title@),
{
    let mut k: Vec<u8> = Vec::new();
    k.push(0x74);
    k.push(0x69);
    k.push(0x74);
    k.push(0x6C);
    k.push(0x65);
    k.push(0x24);
    let mut c = i64_to_dec(chat_id);
    k.append(&mut c);
    k.push(0x24);
    let mut t = title.as_bytes_vec();
    k.append(&mut t);
    proof {
        assert(k@ =~= title_key(chat_id as int, title@));
    }
    k
}

} // verus!
