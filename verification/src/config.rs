//! The process configuration the core reads, with its documented defaults,
//! and the run-instance hash that tags one process lifetime in operational
//! notices.
//!
//! Reading the environment is left to the surrounding binary; it fills a
//! [`Config`] with plain values and hands it in.

use vstd::prelude::*;
use vstd::utf8::encode_utf8;
use crate::codec::u64_be;

verus! {

/// The verbosity floor of process logging.
#[derive(Debug, Clone, Copy, PartialEq, Eq, Structural)]
pub enum LogLevel {
    Error,
    Warn,
    Info,
    Debug,
    Trace,
}

/// The default log level.
pub fn log() -> (r: LogLevel)
    ensures
        r == LogLevel::Info,
{
    LogLevel::Info
}

/// The default path of the embedded store's directory.
pub fn db_path() -> (r: String)
    ensures
        r@ == "/data/db.sled"@,
{
    "/data/db.sled".to_owned()
}

/// The default delay, in seconds, before handled command messages are
/// deleted.
pub fn delete_after() -> (r: u64)
    ensures
        r == 10,
{
    10
}

/// What the process needs to run: where to log, where the store lives, how
/// long replies linger, the platform token, and the optional operational
/// chat that receives escalations.
#[derive(Debug, Clone, PartialEq, Eq)]
pub struct Config {
    pub log: LogLevel,
    pub db_path: String,
    pub delete_after: u64,
    pub token: String,
    pub debug_chat: Option<i64>,
}

/// The offset basis of the 64-bit FNV-1a hash.
pub open spec fn fnv_basis() -> u64 {
    0xcbf29ce484222325
}

/// One FNV-1a step: fold a byte in, then multiply (wrapping) by the FNV
/// prime.
pub open spec fn fnv_step(h: u64, b: u8) -> u64 {
    (((h ^ (b as u64)) as nat * 0x100000001b3_nat) % 0x1_0000_0000_0000_0000_nat) as u64
}

/// The 64-bit FNV-1a hash of a byte string.
pub open spec fn fnv1a(s: Seq<u8>) -> u64
    decreases s.len(),
{
    if s.len() == 0 {
        fnv_basis()
    } else {
        fnv_step(fnv1a(s.drop_last()), s.last())
    }
}

/// One uppercase hexadecimal digit.
pub open spec fn hex_digit(d: nat) -> char {
    if d == 0 {
        '0'
    } else if d == 1 {
        '1'
    } else if d == 2 {
        '2'
    } else if d == 3 {
        '3'
    } else if d == 4 {
        '4'
    } else if d == 5 {
        '5'
    } else if d == 6 {
        '6'
    } else if d == 7 {
        '7'
    } else if d == 8 {
        '8'
    } else if d == 9 {
        '9'
    } else if d == 10 {
        'A'
    } else if d == 11 {
        'B'
    } else if d == 12 {
        'C'
    } else if d == 13 {
        'D'
    } else if d == 14 {
        'E'
    } else {
        'F'
    }
}

/// The canonical uppercase hexadecimal rendering of a number: no leading
/// zeroes, at least one digit.
pub open spec fn hex_u64(n: nat) -> Seq<char>
    decreases n,
{
    if n < 16 {
        seq![hex_digit(n)]
    } else {
        hex_u64(n / 16).push(hex_digit(n % 16))
    }
}

/// The run-instance hash: the FNV-1a digest of the token's bytes followed
/// by the start instant's bytes, rendered in uppercase hexadecimal.
pub open spec fn spec_run_hash(token: Seq<char>, now_nanos: u64) -> Seq<char> {
    hex_u64(fnv1a(encode_utf8(token) + u64_be(now_nanos)) as nat)
}

/// Append the uppercase hexadecimal rendering of `n`.
fn push_hex(n: u64, out: &mut String)
    ensures
        final(out)@ == old(out)@ + hex_u64(n as nat),
    decreases n,
{
    if n >= 16 {
        push_hex(n / 16, out);
    }
    let d = n % 16;
    proof {
        reveal_strlit("0");
        reveal_strlit("1");
        reveal_strlit("2");
        reveal_strlit("3");
        reveal_strlit("4");
        reveal_strlit("5");
        reveal_strlit("6");
        reveal_strlit("7");
        reveal_strlit("8");
        reveal_strlit("9");
        reveal_strlit("A");
        reveal_strlit("B");
        reveal_strlit("C");
        reveal_strlit("D");
        reveal_strlit("E");
        reveal_strlit("F");
    }
    match d {
        0 => out.append("0"),
        1 => out.append("1"),
        2 => out.append("2"),
        3 => out.append("3"),
        4 => out.append("4"),
        5 => out.append("5"),
        6 => out.append("6"),
        7 => out.append("7"),
        8 => out.append("8"),
        9 => out.append("9"),
        10 => out.append("A"),
        11 => out.append("B"),
        12 => out.append("C"),
        13 => out.append("D"),
        14 => out.append("E"),
        _ => out.append("F"),
    }
    proof {
        assert(out@ =~= old(out)@ + hex_u64(n as nat));
    }
}

impl Config {
    /// The run-instance hash for a process started at `now_nanos`
    /// (nanoseconds since the epoch, read once by the binary at startup):
    /// a short tag telling two runs with one token apart.
    pub fn run_hash(&self, now_nanos: u64) -> (r: String)
        ensures
            r@ == spec_run_hash(self.token@, now_nanos),
    {
        let mut data = self.token.as_str().as_bytes_vec();
        let mut tail = crate::codec::u64_to_be(now_nanos);
        data.append(&mut tail);
        let n = data.len();
        let mut h: u64 = 0xcbf29ce484222325;
        let mut i: usize = 0;
        proof {
            assert(data@.subrange(0, 0) =~= Seq::<u8>::empty());
        }
        while i < n
            invariant
                0 <= i <= n,
                n == data@.len(),
                h == fnv1a(data@.subrange(0, i as int)),
            decreases n - i,
        {
            let b = data[i];
            h = (h ^ (b as u64)).wrapping_mul(0x100000001b3);
            proof {
                assert(data@.subrange(0, i + 1).drop_last() =~= data@.subrange(0, i as int));
                assert(data@.subrange(0, i + 1).last() == data@[i as int]);
            }
            i = i + 1;
        }
        proof {
            assert(data@.subrange(0, n as int) =~= data@);
        }
        let mut out = String::new();
        push_hex(h, &mut out);
        proof {
            assert(out@ =~= spec_run_hash(self.token@, now_nanos));
        }
        out
    }
}

} // verus!
