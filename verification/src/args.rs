//! Flag lookup in an argument list.
//!
//! Small pure helpers over an already-collected argument vector: presence
//! of a flag, and the value following a named flag as a string or a
//! decimal number, with a default when the flag is absent or its value
//! does not parse. Collecting the arguments from the process environment
//! is the caller's business.

use vstd::prelude::*;

use vstd::utf8::encode_utf8;

verus! {

/// Operating mode chosen on the command line: the interactive loop, file
/// encryption or decryption, or one of the streaming directions.
#[derive(Clone, Copy, Debug, PartialEq, Eq, Structural)]
pub enum ArgMode {
    Interactive,
    Enc,
    Dec,
    TcpSend,
    TcpRecv,
    UdpSend,
    UdpRecv,
}

/// Relies on `str`'s `PartialEq`: two string slices compare equal exactly
/// when their character sequences are equal.
#[verifier::external_body]
fn str_eq(a: &str, b: &str) -> (r: bool)
    ensures
        r == (a@ == b@),
{
    a == b
}

/// True when some argument equals `f`.
pub open spec fn spec_has_flag(args: Seq<String>, f: Seq<char>) -> bool {
    exists|i: int| 0 <= i < args.len() && #[trigger] args[i]@ == f
}

/// Reports whether the flag occurs among the arguments.
pub fn has_flag(args: &[String], f: &str) -> (r: bool)
    ensures
        r == spec_has_flag(args@, f@),
{
    let n = args.len();
    let mut i: usize = 0;
    while i < n
        invariant
            i <= n,
            n == args@.len(),
            forall|k: int| 0 <= k < i ==> #[trigger] args@[k]@ != f@,
        decreases n - i,
    {
        if str_eq(args[i].as_str(), f) {
            return true;
        }
        i = i + 1;
    }
    false
}

/// True when `s` consists of one or more ASCII decimal digits.
pub open spec fn spec_is_dec(s: Seq<u8>) -> bool {
    s.len() > 0 && forall|i: int| 0 <= i < s.len() ==> 48 <= #[trigger] s[i] <= 57
}

/// The number written by a decimal digit string, most significant first.
pub open spec fn spec_dec_val(s: Seq<u8>) -> int
    decreases s.len(),
{
    if s.len() == 0 {
        0
    } else {
        spec_dec_val(s.drop_last()) * 10 + (s.last() - 48)
    }
}

/// A digit string is worth at least as much as any of its prefixes.
proof fn lemma_dec_val_prefix(s: Seq<u8>, k: int)
    requires
        0 <= k <= s.len(),
        forall|i: int| 0 <= i < s.len() ==> 48 <= #[trigger] s[i] <= 57,
    ensures
        spec_dec_val(s.subrange(0, k)) <= spec_dec_val(s),
    decreases s.len() - k,
{
    if k == s.len() {
        assert(s.subrange(0, k) =~= s);
    } else {
        lemma_dec_val_prefix(s, k + 1);
        assert(s.subrange(0, k + 1).drop_last() =~= s.subrange(0, k));
        assert(spec_dec_val(s.subrange(0, k)) >= 0) by {
            lemma_dec_val_nonneg(s.subrange(0, k));
        }
    }
}

/// The value of a digit string is never negative.
proof fn lemma_dec_val_nonneg(s: Seq<u8>)
    requires
        forall|i: int| 0 <= i < s.len() ==> 48 <= #[trigger] s[i] <= 57,
    ensures
        spec_dec_val(s) >= 0,
    decreases s.len(),
{
    if s.len() > 0 {
        lemma_dec_val_nonneg(s.drop_last());
    }
}

/// Parses an unsigned decimal number. Nothing is returned when the bytes
/// are empty, hold a non-digit, or write a value above `u64::MAX`.
pub fn parse_u64_dec(s: &[u8]) -> (r: Option<u64>)
    ensures
        r is Some <==> spec_is_dec(s@) && spec_dec_val(s@) <= u64::MAX,
        r matches Some(n) ==> n == spec_dec_val(s@),
{
    if s.len() == 0 {
        return None;
    }
    let n = s.len();
    let mut acc: u64 = 0;
    let mut i: usize = 0;
    while i < n
        invariant
            0 < n == s@.len(),
            i <= n,
            forall|k: int| 0 <= k < i ==> 48 <= #[trigger] s@[k] <= 57,
            acc == spec_dec_val(s@.subrange(0, i as int)),
        decreases n - i,
    {
        let d = s[i];
        if d < 48 || d > 57 {
            return None;
        }
        let v: u64 = (d - 48) as u64;
        proof {
            assert(s@.subrange(0, i + 1 as int).drop_last() =~= s@.subrange(0, i as int));
        }
        if acc > (u64::MAX - v) / 10 {
            proof {
                assert(acc * 10 + v > u64::MAX) by (nonlinear_arith)
                    requires
                        acc > (u64::MAX - v) / 10,
                        v <= 9,
                ;
                if spec_is_dec(s@) {
                    lemma_dec_val_prefix(s@, i + 1);
                }
            }
            return None;
        }
        acc = acc * 10 + v;
        i = i + 1;
    }
    proof {
        assert(s@.subrange(0, n as int) =~= s@);
    }
    Some(acc)
}

/// Parses an unsigned 32-bit decimal number.
pub fn parse_u32_dec(s: &[u8]) -> (r: Option<u32>)
    ensures
        r is Some <==> spec_is_dec(s@) && spec_dec_val(s@) <= u32::MAX,
        r matches Some(n) ==> n == spec_dec_val(s@),
{
    match parse_u64_dec(s) {
        Some(n) if n <= u32::MAX as u64 => Some(n as u32),
        _ => None,
    }
}

/// The value following the first occurrence of `name`, as this module
/// parses it: the parsed number of the next argument, or `def` when
/// `name` is absent, is last, or its follower is not a number in range.
pub open spec fn spec_flag_u64(args: Seq<String>, name: Seq<char>, def: u64) -> u64 {
    if !spec_has_flag(args, name) {
        def
    } else {
        let i = choose|i: int|
            0 <= i < args.len() && #[trigger] args[i]@ == name && forall|k: int|
                0 <= k < i ==> #[trigger] args[k]@ != name;
        if i + 1 < args.len() && spec_is_dec(encode_utf8(args[i + 1]@)) && spec_dec_val(
            encode_utf8(args[i + 1]@),
        ) <= u64::MAX {
            spec_dec_val(encode_utf8(args[i + 1]@)) as u64
        } else {
            def
        }
    }
}

/// Looks up the numeric value following flag `name`, with a default.
pub fn read_flag_u64(args: &[String], name: &str, def: u64) -> (r: u64)
    ensures
        r == spec_flag_u64(args@, name@, def),
{
    let n = args.len();
    let mut i: usize = 0;
    while i < n
        invariant
            i <= n,
            n == args@.len(),
            forall|k: int| 0 <= k < i ==> #[trigger] args@[k]@ != name@,
        decreases n - i,
    {
        if str_eq(args[i].as_str(), name) {
            proof {
                let w = choose|w: int|
                    0 <= w < args@.len() && #[trigger] args@[w]@ == name@ && forall|k: int|
                        0 <= k < w ==> #[trigger] args@[k]@ != name@;
                assert(args@[i as int]@ == name@);
                if w < i {
                    assert(args@[w]@ != name@);
                }
                if w > i {
                    assert(args@[i as int]@ != name@);
                }
                assert(w == i);
            }
            if i + 1 < n {
                return match parse_u64_dec(args[i + 1].as_str().as_bytes()) {
                    Some(v) => v,
                    None => def,
                };
            } else {
                return def;
            }
        }
        i = i + 1;
    }
    def
}

/// Same lookup for a 32-bit value.
pub open spec fn spec_flag_u32(args: Seq<String>, name: Seq<char>, def: u32) -> u32 {
    if !spec_has_flag(args, name) {
        def
    } else {
        let i = choose|i: int|
            0 <= i < args.len() && #[trigger] args[i]@ == name && forall|k: int|
                0 <= k < i ==> #[trigger] args[k]@ != name;
        if i + 1 < args.len() && spec_is_dec(encode_utf8(args[i + 1]@)) && spec_dec_val(
            encode_utf8(args[i + 1]@),
        ) <= u32::MAX {
            spec_dec_val(encode_utf8(args[i + 1]@)) as u32
        } else {
            def
        }
    }
}

/// Looks up the 32-bit numeric value following flag `name`, with a default.
pub fn read_flag_u32(args: &[String], name: &str, def: u32) -> (r: u32)
    ensures
        r == spec_flag_u32(args@, name@, def),
{
    let n = args.len();
    let mut i: usize = 0;
    while i < n
        invariant
            i <= n,
            n == args@.len(),
            forall|k: int| 0 <= k < i ==> #[trigger] args@[k]@ != name@,
        decreases n - i,
    {
        if str_eq(args[i].as_str(), name) {
            proof {
                let w = choose|w: int|
                    0 <= w < args@.len() && #[trigger] args@[w]@ == name@ && forall|k: int|
                        0 <= k < w ==> #[trigger] args@[k]@ != name@;
                assert(args@[i as int]@ == name@);
                if w < i {
                    assert(args@[w]@ != name@);
                }
                if w > i {
                    assert(args@[i as int]@ != name@);
                }
                assert(w == i);
            }
            if i + 1 < n {
                return match parse_u32_dec(args[i + 1].as_str().as_bytes()) {
                    Some(v) => v,
                    None => def,
                };
            } else {
                return def;
            }
        }
        i = i + 1;
    }
    def
}

/// The string following the first occurrence of `name`, or `def` when the
/// flag is absent or last.
pub open spec fn spec_flag_str(args: Seq<String>, name: Seq<char>, def: Seq<char>) -> Seq<char> {
    if !spec_has_flag(args, name) {
        def
    } else {
        let i = choose|i: int|
            0 <= i < args.len() && #[trigger] args[i]@ == name && forall|k: int|
                0 <= k < i ==> #[trigger] args[k]@ != name;
        if i + 1 < args.len() {
            args[i + 1]@
        } else {
            def
        }
    }
}

/// Looks up the string value following flag `name`, with a default.
pub fn read_flag_str<'a>(args: &'a [String], name: &str, def: &'a str) -> (r: &'a str)
    ensures
        r@ == spec_flag_str(args@, name@, def@),
{
    let n = args.len();
    let mut i: usize = 0;
    while i < n
        invariant
            i <= n,
            n == args@.len(),
            forall|k: int| 0 <= k < i ==> #[trigger] args@[k]@ != name@,
        decreases n - i,
    {
        if str_eq(args[i].as_str(), name) {
            proof {
                let w = choose|w: int|
                    0 <= w < args@.len() && #[trigger] args@[w]@ == name@ && forall|k: int|
                        0 <= k < w ==> #[trigger] args@[k]@ != name@;
                assert(args@[i as int]@ == name@);
                if w < i {
                    assert(args@[w]@ != name@);
                }
                if w > i {
                    assert(args@[i as int]@ != name@);
                }
                assert(w == i);
            }
            if i + 1 < n {
                return args[i + 1].as_str();
            } else {
                return def;
            }
        }
        i = i + 1;
    }
    def
}

} // verus!
