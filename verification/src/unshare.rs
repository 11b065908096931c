//! Agent-namespace session ids: validation of the id the kernel exposes,
//! synthesis of a fallback id on stock kernels, the error mapping of
//! namespace creation, and the kernel-surface probe.
//!
//! The `prctl` calls themselves carry raw pointers and live with the
//! launcher binary; this module decides what their outcomes mean.

use vstd::prelude::*;
use vstd::utf8::{encode_utf8, is_ascii_chars, is_ascii_chars_encode_utf8};
use vstd::arithmetic::power::pow;
use vstd::string::to_string_from_display_ensures;
use crate::text::{
    chars_of, decimal, digit_str, hex_char, occurs_at_exec, parse_u32, pieces, push_decimal, sub_vec,
    range_equals, contains_char, trim, trim_bounds, u32_from_str, IntErrorKind,
};

verus! {

/// A character the kernel may use in a session id.
pub open spec fn is_lower_hex(c: char) -> bool {
    ('0' <= c && c <= '9') || ('a' <= c && c <= 'f')
}

pub open spec fn all_lower_hex(s: Seq<char>) -> bool {
    forall|i: int| 0 <= i < s.len() ==> is_lower_hex(#[trigger] s[i])
}

pub open spec fn all_zero(s: Seq<char>) -> bool {
    forall|i: int| 0 <= i < s.len() ==> #[trigger] s[i] == '0'
}

/// A well-formed session id: 32 lowercase hex characters, not all zero.
pub open spec fn valid_session_id(id: Seq<char>) -> bool {
    id.len() == 32 && all_lower_hex(id) && !all_zero(id)
}

/// Why the contents of the session file were rejected.
#[derive(Clone, Copy, Debug, PartialEq, Eq, Structural)]
pub enum SessionIdError {
    /// The trimmed id is not 32 bytes long; its length in bytes.
    WrongLength(usize),
    /// A character outside `0-9a-f`.
    NotLowercaseHex,
    /// The id is all zeros: the namespace was not initialised.
    AllZero,
}

/// The check applied to a trimmed id, in order: byte length, alphabet,
/// all-zero. `None` when the id is accepted.
pub open spec fn session_fault(id: Seq<char>) -> Option<SessionIdError> {
    if encode_utf8(id).len() != 32 {
        Some(SessionIdError::WrongLength(encode_utf8(id).len() as usize))
    } else if !all_lower_hex(id) {
        Some(SessionIdError::NotLowercaseHex)
    } else if all_zero(id) {
        Some(SessionIdError::AllZero)
    } else {
        None
    }
}

/// An id passes the check exactly when it is well formed.
pub proof fn lemma_session_fault_iff_invalid(id: Seq<char>)
    ensures
        session_fault(id) is None <==> valid_session_id(id),
{
    if all_lower_hex(id) {
        assert(is_ascii_chars(id));
        is_ascii_chars_encode_utf8(id);
    }
}

/// Validate the raw contents of the session file: surrounding whitespace is
/// dropped, then the id must be 32 lowercase hex characters and not all
/// zeros. Returns the trimmed id.
pub fn validate_agent_session(raw: &str) -> (r: Result<String, SessionIdError>)
    ensures
        match r {
            Ok(id) => id@ == trim(raw@) && session_fault(id@) is None && valid_session_id(id@),
            Err(e) => session_fault(trim(raw@)) == Some(e),
        },
        r is Ok <==> valid_session_id(trim(raw@)),
{
    proof {
        lemma_session_fault_iff_invalid(trim(raw@));
    }
    let v = chars_of(raw);
    let (a, b) = trim_bounds(&v);
    let t = raw.substring_char(a, b);
    let len = t.as_bytes().len();
    assert(t@ == trim(raw@));
    if len != 32 {
        return Err(SessionIdError::WrongLength(len));
    }
    let mut i: usize = a;
    while i < b
        invariant
            a <= i <= b,
            b <= v@.len(),
            forall|k: int| a <= k < i ==> is_lower_hex(#[trigger] v@[k]),
            t@ == v@.subrange(a as int, b as int),
            t@ == trim(raw@),
            encode_utf8(t@).len() == 32,
        decreases b - i,
    {
        let c = v[i];
        if !(('0' <= c && c <= '9') || ('a' <= c && c <= 'f')) {
            assert(v@.subrange(a as int, b as int)[i - a] == c);
            return Err(SessionIdError::NotLowercaseHex);
        }
        i = i + 1;
    }
    assert(all_lower_hex(t@)) by {
        assert forall|k: int| 0 <= k < t@.len() implies is_lower_hex(#[trigger] t@[k]) by {
            assert(t@[k] == v@[a + k]);
        }
    }
    let mut j: usize = a;
    while j < b
        invariant
            a <= j <= b,
            b <= v@.len(),
            forall|k: int| a <= k < j ==> #[trigger] v@[k] == '0',
            t@ == v@.subrange(a as int, b as int),
            t@ == trim(raw@),
            encode_utf8(t@).len() == 32,
            all_lower_hex(t@),
        decreases b - j,
    {
        if v[j] != '0' {
            assert(t@[j - a] != '0');
            assert(!all_zero(t@));
            proof {
                lemma_session_fault_iff_invalid(t@);
            }
            return Ok(t.to_owned());
        }
        j = j + 1;
    }
    assert(all_zero(t@)) by {
        assert forall|k: int| 0 <= k < t@.len() implies #[trigger] t@[k] == '0' by {
            assert(t@[k] == v@[a + k]);
        }
    }
    Err(SessionIdError::AllZero)
}

/// The description of a session-id fault.
pub open spec fn session_message(e: SessionIdError) -> Seq<char> {
    match e {
        SessionIdError::WrongLength(n) => "agent_session: expected 32 hex chars, got "@ + decimal(
            n as nat,
        ),
        SessionIdError::NotLowercaseHex => "agent_session: non-lowercase-hex character in id (expected 0-9, a-f)"@,
        SessionIdError::AllZero => "agent_session: all-zero id — namespace was not initialised"@,
    }
}

impl SessionIdError {
    /// Human-readable description of the fault.
    pub fn to_string(&self) -> (r: String)
        ensures
            r@ == session_message(*self),
            match *self {
                SessionIdError::WrongLength(n) => r@ == "agent_session: expected 32 hex chars, got "@
                    + decimal(n as nat),
                SessionIdError::NotLowercaseHex => r@
                    == "agent_session: non-lowercase-hex character in id (expected 0-9, a-f)"@,
                SessionIdError::AllZero => r@
                    == "agent_session: all-zero id — namespace was not initialised"@,
            },
    {
        match self {
            SessionIdError::WrongLength(n) => {
                let mut r = String::from_str("agent_session: expected 32 hex chars, got ");
                push_decimal(&mut r, *n as u64);
                r
            },
            SessionIdError::NotLowercaseHex => String::from_str(
                "agent_session: non-lowercase-hex character in id (expected 0-9, a-f)",
            ),
            SessionIdError::AllZero => String::from_str(
                "agent_session: all-zero id — namespace was not initialised",
            ),
        }
    }
}

/// `n` lowercase hexadecimal digits of `v`, most significant first, zero
/// padded (`{:0nx}` for `v < 16^n`).
pub open spec fn hex_fixed(v: nat, n: nat) -> Seq<char>
    decreases n,
{
    if n == 0 {
        Seq::<char>::empty()
    } else {
        hex_fixed(v / 16, (n - 1) as nat).push(hex_char(v % 16))
    }
}

/// The layout of a synthesized id: `[uid:u32][boot_secs:u32][monotonic_ns:u64]`
/// as 8 + 8 + 16 lowercase hex digits.
pub open spec fn session_chars(uid: u32, btime: u32, mono_ns: u64) -> Seq<char> {
    hex_fixed(uid as nat, 8) + hex_fixed(btime as nat, 8) + hex_fixed(mono_ns as nat, 16)
}

/// `u64::try_from(x).unwrap_or(0)`.
pub open spec fn nonneg_or_zero(x: i64) -> nat {
    if x < 0 {
        0
    } else {
        x as nat
    }
}

/// Monotonic clock reading in nanoseconds, saturating at `u64::MAX`; a
/// negative component counts as zero.
pub open spec fn monotonic_ns(sec: i64, nsec: i64) -> u64 {
    let s = nonneg_or_zero(sec) * 1_000_000_000;
    let s_sat: nat = if s > u64::MAX { u64::MAX as nat } else { s };
    let t = s_sat + nonneg_or_zero(nsec);
    if t > u64::MAX {
        u64::MAX
    } else {
        t as u64
    }
}

/// Append `hex_fixed(v, n)` to `out`.
fn push_hex(out: &mut String, v: u64, n: u64)
    ensures
        final(out)@ == old(out)@ + hex_fixed(v as nat, n as nat),
    decreases n,
{
    if n == 0 {
        assert(old(out)@ + hex_fixed(v as nat, 0) =~= old(out)@);
        return;
    }
    push_hex(out, v / 16, n - 1);
    out.append(digit_str(v % 16));
    assert(old(out)@ + hex_fixed(v as nat, n as nat) =~= old(out)@ + hex_fixed(
        (v / 16) as nat,
        (n - 1) as nat,
    ) + seq![hex_char((v % 16) as nat)]);
}

/// Render the fallback session id for the given uid, boot time (seconds)
/// and monotonic clock reading.
pub fn format_session_id(uid: u32, btime: u32, mono_sec: i64, mono_nsec: i64) -> (r: String)
    ensures
        r@ == session_chars(uid, btime, monotonic_ns(mono_sec, mono_nsec)),
{
    let s: u64 = if mono_sec < 0 {
        0
    } else {
        mono_sec as u64
    };
    let n: u64 = if mono_nsec < 0 {
        0
    } else {
        mono_nsec as u64
    };
    let s_sat: u64 = match s.checked_mul(1_000_000_000) {
        Some(x) => x,
        None => u64::MAX,
    };
    let mono: u64 = match s_sat.checked_add(n) {
        Some(x) => x,
        None => u64::MAX,
    };
    let mut out = String::new();
    push_hex(&mut out, uid as u64, 8);
    push_hex(&mut out, btime as u64, 8);
    push_hex(&mut out, mono, 16);
    assert(out@ =~= session_chars(uid, btime, monotonic_ns(mono_sec, mono_nsec)));
    out
}

proof fn lemma_hex_char_injective(d1: nat, d2: nat)
    requires
        d1 < 16,
        d2 < 16,
        hex_char(d1) == hex_char(d2),
    ensures
        d1 == d2,
{
    assert(hex_char(d1) as int == (if d1 < 10 { 48 + d1 } else { 87 + d1 }));
    assert(hex_char(d2) as int == (if d2 < 10 { 48 + d2 } else { 87 + d2 }));
}

proof fn lemma_hex_fixed_shape(v: nat, n: nat)
    ensures
        hex_fixed(v, n).len() == n,
        all_lower_hex(hex_fixed(v, n)),
    decreases n,
{
    if n > 0 {
        lemma_hex_fixed_shape(v / 16, (n - 1) as nat);
        let d = v % 16;
        assert(hex_char(d) as int == (if d < 10 { 48 + d } else { 87 + d }));
        assert(is_lower_hex(hex_char(d)));
        let s = hex_fixed(v, n);
        assert forall|i: int| 0 <= i < s.len() implies is_lower_hex(#[trigger] s[i]) by {
            if i < n - 1 {
                assert(s[i] == hex_fixed(v / 16, (n - 1) as nat)[i]);
            }
        }
    }
}

proof fn lemma_pow16_step(n: nat)
    requires
        n > 0,
    ensures
        pow(16, n) == 16 * pow(16, (n - 1) as nat),
{
    reveal_with_fuel(pow, 2);
}

proof fn lemma_hex_fixed_injective(a: nat, b: nat, n: nat)
    requires
        a < pow(16, n),
        b < pow(16, n),
        hex_fixed(a, n) == hex_fixed(b, n),
    ensures
        a == b,
    decreases n,
{
    if n == 0 {
        reveal_with_fuel(pow, 1);
    } else {
        lemma_pow16_step(n);
        let sa = hex_fixed(a, n);
        let sb = hex_fixed(b, n);
        assert(sa.last() == hex_char(a % 16));
        assert(sb.last() == hex_char(b % 16));
        lemma_hex_char_injective(a % 16, b % 16);
        assert(sa.drop_last() =~= hex_fixed(a / 16, (n - 1) as nat));
        assert(sb.drop_last() =~= hex_fixed(b / 16, (n - 1) as nat));
        lemma_hex_fixed_injective(a / 16, b / 16, (n - 1) as nat);
    }
}

proof fn lemma_hex_fixed_zero(v: nat, n: nat)
    requires
        v < pow(16, n),
    ensures
        all_zero(hex_fixed(v, n)) <==> v == 0,
    decreases n,
{
    if n == 0 {
        reveal_with_fuel(pow, 1);
    } else {
        lemma_pow16_step(n);
        lemma_hex_fixed_zero(v / 16, (n - 1) as nat);
        let s = hex_fixed(v, n);
        let p = hex_fixed(v / 16, (n - 1) as nat);
        let d = v % 16;
        assert(hex_char(d) as int == (if d < 10 { 48 + d } else { 87 + d }));
        lemma_hex_fixed_shape(v / 16, (n - 1) as nat);
        if v == 0 {
            assert forall|i: int| 0 <= i < s.len() implies #[trigger] s[i] == '0' by {
                if i < n - 1 {
                    assert(s[i] == p[i]);
                }
            }
        } else {
            if all_zero(s) {
                lemma_hex_fixed_shape(v / 16, (n - 1) as nat);
                assert(s[n - 1] == hex_char(d));
                assert forall|i: int| 0 <= i < p.len() implies #[trigger] p[i] == '0' by {
                    assert(s[i] == p[i]);
                }
            }
        }
    }
}

proof fn lemma_pow16_bounds()
    ensures
        pow(16, 8) == 0x1_0000_0000,
        pow(16, 16) == 0x1_0000_0000_0000_0000,
{
    reveal_with_fuel(pow, 17);
}

/// Synthesized ids tell their inputs apart: two ids are equal only when
/// uid, boot time and monotonic reading are all equal, so consecutive
/// invocations (whose monotonic readings differ) get distinct ids.
pub proof fn lemma_session_chars_injective(
    uid1: u32,
    btime1: u32,
    ns1: u64,
    uid2: u32,
    btime2: u32,
    ns2: u64,
)
    requires
        session_chars(uid1, btime1, ns1) == session_chars(uid2, btime2, ns2),
    ensures
        uid1 == uid2,
        btime1 == btime2,
        ns1 == ns2,
{
    lemma_pow16_bounds();
    let s1 = session_chars(uid1, btime1, ns1);
    let s2 = session_chars(uid2, btime2, ns2);
    lemma_hex_fixed_shape(uid1 as nat, 8);
    lemma_hex_fixed_shape(uid2 as nat, 8);
    lemma_hex_fixed_shape(btime1 as nat, 8);
    lemma_hex_fixed_shape(btime2 as nat, 8);
    lemma_hex_fixed_shape(ns1 as nat, 16);
    lemma_hex_fixed_shape(ns2 as nat, 16);
    assert(s1.subrange(0, 8) =~= hex_fixed(uid1 as nat, 8));
    assert(s2.subrange(0, 8) =~= hex_fixed(uid2 as nat, 8));
    assert(s1.subrange(8, 16) =~= hex_fixed(btime1 as nat, 8));
    assert(s2.subrange(8, 16) =~= hex_fixed(btime2 as nat, 8));
    assert(s1.subrange(16, 32) =~= hex_fixed(ns1 as nat, 16));
    assert(s2.subrange(16, 32) =~= hex_fixed(ns2 as nat, 16));
    lemma_hex_fixed_injective(uid1 as nat, uid2 as nat, 8);
    lemma_hex_fixed_injective(btime1 as nat, btime2 as nat, 8);
    lemma_hex_fixed_injective(ns1 as nat, ns2 as nat, 16);
}

/// `a` comes strictly before `b` in lexicographic order of characters.
pub open spec fn lex_lt(a: Seq<char>, b: Seq<char>) -> bool {
    exists|i: int|
        0 <= i < a.len() && i < b.len() && a.take(i) == b.take(i) && (a[i] as int) < (
        #[trigger] b[i] as int)
}

proof fn lemma_hex_fixed_order(v1: nat, v2: nat, n: nat)
    requires
        v1 < v2,
        v2 < pow(16, n),
    ensures
        lex_lt(hex_fixed(v1, n), hex_fixed(v2, n)),
    decreases n,
{
    if n == 0 {
        reveal_with_fuel(pow, 1);
    } else {
        lemma_pow16_step(n);
        let q1 = v1 / 16;
        let q2 = v2 / 16;
        let p1 = hex_fixed(q1, (n - 1) as nat);
        let p2 = hex_fixed(q2, (n - 1) as nat);
        let s1 = hex_fixed(v1, n);
        let s2 = hex_fixed(v2, n);
        lemma_hex_fixed_shape(q1, (n - 1) as nat);
        lemma_hex_fixed_shape(q2, (n - 1) as nat);
        assert(q1 <= q2);
        if q1 < q2 {
            lemma_hex_fixed_order(q1, q2, (n - 1) as nat);
            let i = choose|i: int|
                0 <= i < p1.len() && i < p2.len() && p1.take(i) == p2.take(i) && (p1[i] as int) < (
                #[trigger] p2[i] as int);
            assert(s1.take(i) =~= p1.take(i));
            assert(s2.take(i) =~= p2.take(i));
            assert(s1[i] == p1[i]);
            assert(s2[i] == p2[i]);
        } else {
            let d1 = v1 % 16;
            let d2 = v2 % 16;
            assert(d1 < d2);
            assert(hex_char(d1) as int == (if d1 < 10 { 48 + d1 } else { 87 + d1 }));
            assert(hex_char(d2) as int == (if d2 < 10 { 48 + d2 } else { 87 + d2 }));
            let i = n - 1;
            assert(s1.take(i) =~= p1);
            assert(s2.take(i) =~= p2);
            assert(s1[i] == hex_char(d1));
            assert(s2[i] == hex_char(d2));
        }
    }
}

/// Ids synthesized for the same uid and boot time share their first 16
/// characters and order as their monotonic readings: a later reading gives
/// a lexicographically greater id.
pub proof fn lemma_session_chars_order(uid: u32, btime: u32, ns1: u64, ns2: u64)
    requires
        ns1 < ns2,
    ensures
        session_chars(uid, btime, ns1).take(16) == session_chars(uid, btime, ns2).take(16),
        lex_lt(session_chars(uid, btime, ns1), session_chars(uid, btime, ns2)),
{
    lemma_pow16_bounds();
    let head = hex_fixed(uid as nat, 8) + hex_fixed(btime as nat, 8);
    let c1 = hex_fixed(ns1 as nat, 16);
    let c2 = hex_fixed(ns2 as nat, 16);
    let s1 = session_chars(uid, btime, ns1);
    let s2 = session_chars(uid, btime, ns2);
    lemma_hex_fixed_shape(uid as nat, 8);
    lemma_hex_fixed_shape(btime as nat, 8);
    lemma_hex_fixed_shape(ns1 as nat, 16);
    lemma_hex_fixed_shape(ns2 as nat, 16);
    assert(s1 =~= head + c1);
    assert(s2 =~= head + c2);
    assert(s1.take(16) =~= head);
    assert(s2.take(16) =~= head);
    lemma_hex_fixed_order(ns1 as nat, ns2 as nat, 16);
    let i = choose|i: int|
        0 <= i < c1.len() && i < c2.len() && c1.take(i) == c2.take(i) && (c1[i] as int) < (
        #[trigger] c2[i] as int);
    assert(s1.take(i + 16) =~= head + c1.take(i));
    assert(s2.take(i + 16) =~= head + c2.take(i));
    assert(s1[i + 16] == c1[i]);
    assert(s2[i + 16] == c2[i]);
}

/// A synthesized id has the shape of a kernel session id (32 lowercase hex
/// characters), and it passes the read-back validation exactly when not
/// all three of its inputs are zero.
pub proof fn lemma_session_chars_validate(uid: u32, btime: u32, ns: u64)
    ensures
        session_chars(uid, btime, ns).len() == 32,
        all_lower_hex(session_chars(uid, btime, ns)),
        session_fault(session_chars(uid, btime, ns)) is None <==> !(uid == 0 && btime == 0 && ns
            == 0),
{
    lemma_pow16_bounds();
    let s = session_chars(uid, btime, ns);
    let hu = hex_fixed(uid as nat, 8);
    let hb = hex_fixed(btime as nat, 8);
    let hn = hex_fixed(ns as nat, 16);
    lemma_hex_fixed_shape(uid as nat, 8);
    lemma_hex_fixed_shape(btime as nat, 8);
    lemma_hex_fixed_shape(ns as nat, 16);
    lemma_hex_fixed_zero(uid as nat, 8);
    lemma_hex_fixed_zero(btime as nat, 8);
    lemma_hex_fixed_zero(ns as nat, 16);
    assert forall|i: int| 0 <= i < s.len() implies is_lower_hex(#[trigger] s[i]) by {
        if i < 8 {
            assert(s[i] == hu[i]);
        } else if i < 16 {
            assert(s[i] == hb[i - 8]);
        } else {
            assert(s[i] == hn[i - 16]);
        }
    }
    if all_zero(s) {
        assert forall|i: int| 0 <= i < 8 implies #[trigger] hu[i] == '0' by {
            assert(s[i] == hu[i]);
        }
        assert forall|i: int| 0 <= i < 8 implies #[trigger] hb[i] == '0' by {
            assert(s[i + 8] == hb[i]);
        }
        assert forall|i: int| 0 <= i < 16 implies #[trigger] hn[i] == '0' by {
            assert(s[i + 16] == hn[i]);
        }
    }
    if uid == 0 && btime == 0 && ns == 0 {
        assert forall|i: int| 0 <= i < s.len() implies #[trigger] s[i] == '0' by {
            if i < 8 {
                assert(s[i] == hu[i]);
            } else if i < 16 {
                assert(s[i] == hb[i - 8]);
            } else {
                assert(s[i] == hn[i - 16]);
            }
        }
    }
    lemma_session_fault_iff_invalid(s);
}

/// Why the boot time could not be read from `/proc/stat`.
#[derive(Clone, Copy, Debug, PartialEq, Eq, Structural)]
pub enum BtimeError {
    /// No line starts with `btime `.
    Missing,
    /// The value after `btime ` is not a `u32`.
    Invalid(IntErrorKind),
}

pub open spec fn btime_prefix() -> Seq<char> {
    seq!['b', 't', 'i', 'm', 'e', ' ']
}

pub open spec fn is_btime_line(l: Seq<char>) -> bool {
    l.len() >= 6 && l.take(6) == btime_prefix()
}

/// The text after `btime ` on the first line that starts with it.
pub open spec fn first_btime(ls: Seq<Seq<char>>) -> Option<Seq<char>>
    decreases ls.len(),
{
    if ls.len() == 0 {
        None
    } else {
        match first_btime(ls.drop_last()) {
            Some(x) => Some(x),
            None => if is_btime_line(ls.last()) {
                Some(ls.last().skip(6))
            } else {
                None
            },
        }
    }
}

/// The boot time in `/proc/stat` contents: the first line starting with
/// `btime `, its remainder trimmed and parsed as a `u32`.
pub open spec fn btime_of(stat: Seq<char>) -> Result<u32, BtimeError> {
    match first_btime(pieces(stat, '\n')) {
        None => Err(BtimeError::Missing),
        Some(rest) => match u32_from_str(trim(rest)) {
            Ok(v) => Ok(v),
            Err(k) => Err(BtimeError::Invalid(k)),
        },
    }
}

/// Whether the line `v[a..c]` starts with `btime `.
fn is_btime_line_exec(v: &Vec<char>, a: usize, c: usize) -> (r: bool)
    requires
        a <= c <= v@.len(),
    ensures
        r == is_btime_line(v@.subrange(a as int, c as int)),
{
    let prefix: [char; 6] = ['b', 't', 'i', 'm', 'e', ' '];
    let ps: &[char] = &prefix;
    assert(ps@ =~= btime_prefix());
    if c - a < 6 {
        return false;
    }
    let r = occurs_at_exec(v, a, ps);
    assert(v@.subrange(a as int, c as int).take(6) =~= v@.subrange(a as int, a + 6));
    r
}

/// Read the boot time out of the contents of `/proc/stat`.
pub fn parse_btime(stat: &str) -> (r: Result<u32, BtimeError>)
    ensures
        r == btime_of(stat@),
{
    let v = chars_of(stat);
    let n = v.len();
    let ghost mut done: Seq<Seq<char>> = Seq::empty();
    let mut found: Option<(usize, usize)> = None;
    let mut start: usize = 0;
    let mut i: usize = 0;
    assert(v@.take(0) =~= Seq::<char>::empty());
    assert(pieces(v@.take(0), '\n') =~= done.push(v@.subrange(0, 0)));
    while i < n
        invariant
            start <= i <= n,
            n == v@.len(),
            pieces(v@.take(i as int), '\n') == done.push(v@.subrange(start as int, i as int)),
            match found {
                None => first_btime(done) is None,
                Some((p, q)) => p <= q <= n && first_btime(done) == Some(
                    v@.subrange(p as int, q as int),
                ),
            },
        decreases n - i,
    {
        assert(v@.take(i + 1).drop_last() =~= v@.take(i as int));
        assert(v@.take(i + 1).last() == v@[i as int]);
        if v[i] == '\n' {
            let line_is_btime = is_btime_line_exec(&v, start, i);
            proof {
                let old_done = done;
                let line = v@.subrange(start as int, i as int);
                done = done.push(line);
                assert(done.drop_last() =~= old_done);
                assert(v@.subrange(i + 1, i + 1) =~= Seq::<char>::empty());
                if line_is_btime {
                    assert(line.skip(6) =~= v@.subrange(start + 6, i as int));
                }
            }
            if found.is_none() && line_is_btime {
                found = Some((start + 6, i));
            }
            start = i + 1;
        } else {
            proof {
                let p = pieces(v@.take(i as int), '\n');
                assert(p.len() - 1 == done.len());
                assert(v@.subrange(start as int, i + 1) =~= v@.subrange(start as int, i as int).push(
                    v@[i as int],
                ));
                assert(p.update(p.len() - 1, p.last().push(v@[i as int])) =~= done.push(
                    v@.subrange(start as int, i + 1),
                ));
            }
        }
        i = i + 1;
    }
    assert(v@.take(n as int) =~= v@);
    let last_is_btime = is_btime_line_exec(&v, start, n);
    let ghost all = done.push(v@.subrange(start as int, n as int));
    assert(all.drop_last() =~= done);
    let range = match found {
        Some(r) => r,
        None => {
            if !last_is_btime {
                return Err(BtimeError::Missing);
            }
            assert(v@.subrange(start as int, n as int).skip(6) =~= v@.subrange(start + 6, n as int));
            (start + 6, n)
        },
    };
    let (p, q) = range;
    let rest = sub_vec(&v, p, q);
    let (a, b) = trim_bounds(&rest);
    match parse_u32(&rest, a, b) {
        Ok(x) => Ok(x),
        Err(k) => Err(BtimeError::Invalid(k)),
    }
}

#[verifier::external_type_specification]
#[verifier::external_body]
pub struct ExIoError(std::io::Error);

#[verifier::external_type_specification]
#[verifier::external_body]
pub struct ExErrno(nix::errno::Errno);

/// The `std::io::ErrorKind` values that errors of this module carry.
#[derive(Clone, Copy, Debug, PartialEq, Eq, Structural)]
pub enum IoKind {
    NotFound,
    Unsupported,
    PermissionDenied,
    InvalidData,
    Other,
}

/// The kind of an I/O error (`std::io::Error::kind`), when it is one of the
/// kinds [`IoKind`] lists (the variant of the same name); `None` for any
/// other kind.
pub uninterp spec fn io_error_kind(e: std::io::Error) -> Option<IoKind>;

/// The OS error code an I/O error carries (`std::io::Error::raw_os_error`).
pub uninterp spec fn io_error_os_code(e: std::io::Error) -> Option<i32>;

/// `std::io::Error::new(k, msg)` with `k` the `ErrorKind` variant named like
/// `kind`. Per its documentation the result has that kind, carries no OS
/// error code, and displays as `msg` (the payload is a `String`, whose
/// `Display` is the string itself).
#[verifier::external_body]
fn io_error_new(kind: IoKind, msg: String) -> (r: std::io::Error)
    ensures
        io_error_kind(r) == Some(kind),
        io_error_os_code(r) == None::<i32>,
        forall|s: String| to_string_from_display_ensures::<std::io::Error>(&r, s) ==> s@ == msg@,
{
    let k = match kind {
        IoKind::NotFound => std::io::ErrorKind::NotFound,
        IoKind::Unsupported => std::io::ErrorKind::Unsupported,
        IoKind::PermissionDenied => std::io::ErrorKind::PermissionDenied,
        IoKind::InvalidData => std::io::ErrorKind::InvalidData,
        IoKind::Other => std::io::ErrorKind::Other,
    };
    std::io::Error::new(k, msg)
}

/// `std::io::Error::from_raw_os_error(code)`; per its documentation the
/// result's `raw_os_error()` is `Some(code)`. Its kind (decoded from the
/// code by a platform table) is not stated.
#[verifier::external_body]
fn io_error_from_os(code: i32) -> (r: std::io::Error)
    ensures
        io_error_os_code(r) == Some(code),
{
    std::io::Error::from_raw_os_error(code)
}

/// The `Debug` rendering of a string (`format!("{:?}", s)`): quoted, with
/// escapes as `str::escape_debug` gives them.
pub uninterp spec fn debug_rendering(s: Seq<char>) -> Seq<char>;

/// `format!("{:?}", s)`; the result is the `Debug` rendering of `s`.
#[verifier::external_body]
pub(crate) fn debug_quoted(s: &str) -> (r: String)
    ensures
        r@ == debug_rendering(s@),
{
    format!("{:?}", s)
}

/// Errors from the creation of an agent namespace.
#[derive(Debug)]
pub enum AgentNsError {
    /// The kernel does not implement the namespace prctl (ENOSYS or EINVAL).
    KernelLacksPrctl,
    /// The caller lacks `CAP_SYS_ADMIN` in its user namespace (EPERM).
    NeedsCapSysAdmin,
    /// The prctl succeeded but the session id reads back as all zeros.
    CreateSucceededButZero,
    /// Any other OS error.
    Io(std::io::Error),
}

/// The I/O error kind each non-I/O variant converts to.
pub open spec fn io_kind_of(e: AgentNsError) -> Option<IoKind> {
    match e {
        AgentNsError::KernelLacksPrctl => Some(IoKind::Unsupported),
        AgentNsError::NeedsCapSysAdmin => Some(IoKind::PermissionDenied),
        AgentNsError::CreateSucceededButZero => Some(IoKind::InvalidData),
        AgentNsError::Io(_) => None,
    }
}

/// The description of the variants that do not hold an I/O error.
pub open spec fn agent_ns_message(e: AgentNsError) -> Seq<char> {
    match e {
        AgentNsError::KernelLacksPrctl => "kernel lacks prctl(PR_SET_AGENT_NS): ENOSYS/EINVAL"@,
        AgentNsError::NeedsCapSysAdmin => "prctl(PR_SET_AGENT_NS) requires CAP_SYS_ADMIN in the user namespace"@,
        AgentNsError::CreateSucceededButZero => "prctl(PR_SET_AGENT_NS) succeeded but agent_session is all-zeros"@,
        AgentNsError::Io(_) => Seq::<char>::empty(),
    }
}

impl AgentNsError {
    /// The I/O error this error wraps, if any (what `Error::source` gives).
    pub fn source(&self) -> (r: Option<&std::io::Error>)
        ensures
            match *self {
                AgentNsError::Io(e) => r == Some(&e),
                _ => r is None,
            },
    {
        match self {
            AgentNsError::Io(e) => Some(e),
            _ => None,
        }
    }

    /// The `std::io::ErrorKind` this error converts to, for the variants
    /// that do not already hold an I/O error.
    pub fn io_kind(&self) -> (r: Option<IoKind>)
        ensures
            r == io_kind_of(*self),
    {
        match self {
            AgentNsError::KernelLacksPrctl => Some(IoKind::Unsupported),
            AgentNsError::NeedsCapSysAdmin => Some(IoKind::PermissionDenied),
            AgentNsError::CreateSucceededButZero => Some(IoKind::InvalidData),
            AgentNsError::Io(_) => None,
        }
    }

    /// Human-readable description of the error.
    pub fn to_string(&self) -> (r: String)
        ensures
            match *self {
                AgentNsError::Io(e) => exists|s: String|
                    to_string_from_display_ensures::<std::io::Error>(&e, s) && r@ == "io: "@ + s@,
                _ => r@ == agent_ns_message(*self),
            },
    {
        match self {
            AgentNsError::KernelLacksPrctl => String::from_str(
                "kernel lacks prctl(PR_SET_AGENT_NS): ENOSYS/EINVAL",
            ),
            AgentNsError::NeedsCapSysAdmin => String::from_str(
                "prctl(PR_SET_AGENT_NS) requires CAP_SYS_ADMIN in the user namespace",
            ),
            AgentNsError::CreateSucceededButZero => String::from_str(
                "prctl(PR_SET_AGENT_NS) succeeded but agent_session is all-zeros",
            ),
            AgentNsError::Io(e) => {
                let mut r = String::from_str("io: ");
                let inner = e.to_string();
                r.append(inner.as_str());
                r
            },
        }
    }
}

impl From<std::io::Error> for AgentNsError {
    fn from(e: std::io::Error) -> (r: AgentNsError)
        ensures
            r == AgentNsError::Io(e),
    {
        AgentNsError::Io(e)
    }
}

impl vstd::std_specs::convert::FromSpecImpl<std::io::Error> for AgentNsError {
    open spec fn obeys_from_spec() -> bool {
        true
    }

    open spec fn from_spec(v: std::io::Error) -> AgentNsError {
        AgentNsError::Io(v)
    }
}

impl From<AgentNsError> for std::io::Error {
    /// An `Io` error is handed back unchanged; the other variants become a
    /// new error of kind [`AgentNsError::io_kind`] whose message is
    /// [`AgentNsError::to_string`].
    fn from(e: AgentNsError) -> (r: std::io::Error)
        ensures
            match e {
                AgentNsError::Io(inner) => r == inner,
                _ => {
                    &&& io_error_kind(r) == io_kind_of(e)
                    &&& io_error_os_code(r) == None::<i32>
                    &&& forall|s: String|
                        to_string_from_display_ensures::<std::io::Error>(&r, s) ==> s@
                            == agent_ns_message(e)
                },
            },
    {
        let kind = e.io_kind();
        match e {
            AgentNsError::Io(inner) => inner,
            other => {
                let msg = other.to_string();
                let k = match kind {
                    Some(k) => k,
                    None => IoKind::Other,
                };
                io_error_new(k, msg)
            },
        }
    }
}

impl vstd::std_specs::convert::FromSpecImpl<AgentNsError> for std::io::Error {
    /// The error built for a non-`Io` variant is a fresh opaque value, so no
    /// conversion is promised as an equation; `from` states the `Io` case
    /// and the kind, OS code and message of the others.
    open spec fn obeys_from_spec() -> bool {
        false
    }

    open spec fn from_spec(v: AgentNsError) -> std::io::Error {
        match v {
            AgentNsError::Io(inner) => inner,
            _ => vstd::pervasive::arbitrary(),
        }
    }
}

impl SessionIdError {
    /// The `std::io::ErrorKind` a rejected session id is reported with.
    pub fn io_kind(&self) -> (r: IoKind)
        ensures
            r == IoKind::InvalidData,
    {
        IoKind::InvalidData
    }
}

impl From<SessionIdError> for std::io::Error {
    /// A rejected session id is an `InvalidData` error whose message is
    /// [`SessionIdError::to_string`].
    fn from(e: SessionIdError) -> (r: std::io::Error)
        ensures
            io_error_kind(r) == Some(IoKind::InvalidData),
            io_error_os_code(r) == None::<i32>,
            forall|s: String|
                to_string_from_display_ensures::<std::io::Error>(&r, s) ==> s@ == session_message(e),
    {
        io_error_new(e.io_kind(), e.to_string())
    }
}

impl vstd::std_specs::convert::FromSpecImpl<SessionIdError> for std::io::Error {
    /// The converted error is a fresh opaque value, so no conversion is
    /// promised as an equation; `from` states its kind, OS code and message.
    open spec fn obeys_from_spec() -> bool {
        false
    }

    open spec fn from_spec(v: SessionIdError) -> std::io::Error {
        vstd::pervasive::arbitrary()
    }
}

/// Base of the agent-namespace prctl options (`"ATNS"`).
pub const PR_AGENT_BASE: i32 = 0x41544E53;
/// `prctl` option that creates a fresh agent namespace.
pub const PR_SET_AGENT_NS: i32 = PR_AGENT_BASE + 7;
/// `prctl` option that reads the session id.
pub const PR_GET_AGENT_SESSION_ID: i32 = PR_AGENT_BASE + 1;
/// `prctl` option that writes the intent tag.
pub const PR_SET_AGENT_INTENT_TAG: i32 = PR_AGENT_BASE + 2;

/// `EPERM` on Linux.
pub const EPERM: i32 = 1;
/// `EIO` on Linux.
pub const EIO: i32 = 5;
/// `EINVAL` on Linux.
pub const EINVAL: i32 = 22;
/// `ENOSYS` on Linux.
pub const ENOSYS: i32 = 38;

/// The errno a failed prctl is judged by: the last OS error, or `EIO` when
/// there is none.
pub open spec fn failure_errno(errno: Option<i32>) -> i32 {
    match errno {
        Some(e) => e,
        None => EIO,
    }
}

/// Meaning of the namespace prctl's return code `rc` and of the last OS
/// error `errno` read right after it.
pub fn prctl_create_outcome(rc: i32, errno: Option<i32>) -> (r: Result<(), AgentNsError>)
    ensures
        match r {
            Ok(()) => rc == 0,
            Err(AgentNsError::KernelLacksPrctl) => rc != 0 && (failure_errno(errno) == ENOSYS
                || failure_errno(errno) == EINVAL),
            Err(AgentNsError::NeedsCapSysAdmin) => rc != 0 && failure_errno(errno) == EPERM,
            Err(AgentNsError::CreateSucceededButZero) => false,
            Err(AgentNsError::Io(x)) => rc != 0 && failure_errno(errno) != ENOSYS
                && failure_errno(errno) != EINVAL && failure_errno(errno) != EPERM
                && io_error_os_code(x) == Some(failure_errno(errno)),
        },
{
    if rc == 0 {
        return Ok(());
    }
    let e = match errno {
        Some(e) => e,
        None => EIO,
    };
    if e == ENOSYS || e == EINVAL {
        Err(AgentNsError::KernelLacksPrctl)
    } else if e == EPERM {
        Err(AgentNsError::NeedsCapSysAdmin)
    } else {
        Err(AgentNsError::Io(io_error_from_os(e)))
    }
}

pub open spec fn word_0() -> Seq<char> {
    seq!['0']
}

pub open spec fn word_enosys() -> Seq<char> {
    seq!['E', 'N', 'O', 'S', 'Y', 'S']
}

pub open spec fn word_einval() -> Seq<char> {
    seq!['E', 'I', 'N', 'V', 'A', 'L']
}

pub open spec fn word_eperm() -> Seq<char> {
    seq!['E', 'P', 'E', 'R', 'M']
}

/// Meaning of an injected errno name (the test seam variable), trimmed:
/// `0` or empty succeeds, `ENOSYS`/`EINVAL` mean the kernel lacks the
/// prctl, `EPERM` means a missing capability, anything else is an I/O
/// error naming the value.
pub fn mock_create_outcome(val: &str) -> (r: Result<(), AgentNsError>)
    ensures
        ({
            let t = trim(val@);
            match r {
                Ok(()) => t == word_0() || t.len() == 0,
                Err(AgentNsError::KernelLacksPrctl) => t == word_enosys() || t == word_einval(),
                Err(AgentNsError::NeedsCapSysAdmin) => t == word_eperm(),
                Err(AgentNsError::CreateSucceededButZero) => false,
                Err(AgentNsError::Io(x)) => {
                    &&& t != word_0() && t.len() != 0 && t != word_enosys() && t != word_einval()
                        && t != word_eperm()
                    &&& io_error_kind(x) == Some(IoKind::Other)
                    &&& forall|s: String|
                        to_string_from_display_ensures::<std::io::Error>(&x, s) ==> s@
                            == "AGENTNS_PRCTL_MOCK_ERRNO: unknown value "@ + debug_rendering(t)
                },
            }
        }),
{
    let v = chars_of(val);
    let (a, b) = trim_bounds(&v);
    let zero: [char; 1] = ['0'];
    let enosys: [char; 6] = ['E', 'N', 'O', 'S', 'Y', 'S'];
    let einval: [char; 6] = ['E', 'I', 'N', 'V', 'A', 'L'];
    let eperm: [char; 5] = ['E', 'P', 'E', 'R', 'M'];
    let zs: &[char] = &zero;
    let ns: &[char] = &enosys;
    let is: &[char] = &einval;
    let ps: &[char] = &eperm;
    assert(zs@ =~= word_0());
    assert(ns@ =~= word_enosys());
    assert(is@ =~= word_einval());
    assert(ps@ =~= word_eperm());
    if a == b || range_equals(&v, a, b, zs) {
        return Ok(());
    }
    if range_equals(&v, a, b, ns) || range_equals(&v, a, b, is) {
        return Err(AgentNsError::KernelLacksPrctl);
    }
    if range_equals(&v, a, b, ps) {
        return Err(AgentNsError::NeedsCapSysAdmin);
    }
    let t = val.substring_char(a, b);
    let mut msg = String::from_str("AGENTNS_PRCTL_MOCK_ERRNO: unknown value ");
    let q = debug_quoted(t);
    msg.append(q.as_str());
    Err(AgentNsError::Io(io_error_new(IoKind::Other, msg)))
}

/// Whether an intent tag can be handed to the kernel as a C string: it
/// holds no NUL character. A tag that cannot is skipped.
pub fn intent_tag_is_representable(tag: &str) -> (r: bool)
    ensures
        r == !tag@.contains('\0'),
{
    !contains_char(tag, '\0')
}

/// The file through which the kernel exposes the session id.
pub const AGENT_SESSION_PATH: &'static str = "/proc/self/agent_session";

/// `std::path::Path::new(path).exists()`, used only to probe the session
/// file. Its answer depends on the machine, so nothing is stated of it.
#[verifier::external_body]
fn path_exists(path: &str) -> bool
    requires
        path@ == AGENT_SESSION_PATH@,
{
    std::path::Path::new(path).exists()
}

/// Whether the agent-namespace surface is live on this kernel: the session
/// file exists (it does for every process under a kernel with the patch
/// series, and does not on a stock kernel). The answer is the machine's.
pub fn kernel_has_agent_ns() -> bool {
    path_exists(AGENT_SESSION_PATH)
}

/// `nix::unistd::getuid`, as the raw `uid_t`. The uid is the process's.
#[verifier::external_body]
fn current_uid() -> u32 {
    nix::unistd::getuid().as_raw()
}

/// `nix::time::clock_gettime(ClockId::CLOCK_MONOTONIC)`, with the seconds
/// and nanoseconds of the `TimeSpec` widened to `i64`. The reading is the
/// clock's, so nothing is stated of it.
#[verifier::external_body]
fn monotonic_clock() -> Result<(i64, i64), nix::errno::Errno> {
    match nix::time::clock_gettime(nix::time::ClockId::CLOCK_MONOTONIC) {
        Ok(ts) => Ok((i64::from(ts.tv_sec()), i64::from(ts.tv_nsec()))),
        Err(e) => Err(e),
    }
}

/// Why a fallback session id could not be synthesized.
#[derive(Debug)]
pub enum SynthError {
    /// The boot time could not be read from `/proc/stat`.
    Btime(BtimeError),
    /// The monotonic clock could not be read.
    Clock(nix::errno::Errno),
}

/// Mint a fallback session id from the process's uid, the boot time found
/// in `proc_stat` (the contents of `/proc/stat`) and the monotonic clock.
pub fn synthesize_session_id(proc_stat: &str) -> (r: Result<String, SynthError>)
    ensures
        btime_of(proc_stat@) matches Err(e) ==> r matches Err(SynthError::Btime(e2)) && e2 == e,
        r matches Err(SynthError::Btime(e)) ==> btime_of(proc_stat@) == Err::<u32, BtimeError>(e),
        r matches Ok(id) ==> {
            &&& btime_of(proc_stat@) is Ok
            &&& exists|uid: u32, ns: u64| id@ == session_chars(uid, btime_of(proc_stat@)->Ok_0, ns)
            &&& id@.len() == 32
            &&& all_lower_hex(id@)
        },
{
    let uid = current_uid();
    let btime = match parse_btime(proc_stat) {
        Ok(b) => b,
        Err(e) => return Err(SynthError::Btime(e)),
    };
    let (sec, nsec) = match monotonic_clock() {
        Ok(t) => t,
        Err(e) => return Err(SynthError::Clock(e)),
    };
    let id = format_session_id(uid, btime, sec, nsec);
    proof {
        lemma_session_chars_validate(uid, btime, monotonic_ns(sec, nsec));
    }
    Ok(id)
}

/// The description of a boot-time fault.
pub open spec fn btime_message(e: BtimeError) -> Seq<char> {
    match e {
        BtimeError::Missing => "btime line missing from /proc/stat"@,
        BtimeError::Invalid(k) => "btime parse: "@ + match k {
            IntErrorKind::Empty => "cannot parse integer from empty string"@,
            IntErrorKind::InvalidDigit => "invalid digit found in string"@,
            IntErrorKind::PosOverflow => "number too large to fit in target type"@,
        },
    }
}

impl BtimeError {
    /// Human-readable description of the fault.
    pub fn to_string(&self) -> (r: String)
        ensures
            r@ == btime_message(*self),
    {
        match self {
            BtimeError::Missing => String::from_str("btime line missing from /proc/stat"),
            BtimeError::Invalid(k) => {
                let mut r = String::from_str("btime parse: ");
                r.append(k.description());
                r
            },
        }
    }

    /// The `std::io::ErrorKind` this fault is reported with.
    pub fn io_kind(&self) -> (r: IoKind)
        ensures
            r == (match *self {
                BtimeError::Missing => IoKind::NotFound,
                BtimeError::Invalid(_) => IoKind::InvalidData,
            }),
    {
        match self {
            BtimeError::Missing => IoKind::NotFound,
            BtimeError::Invalid(_) => IoKind::InvalidData,
        }
    }
}

impl SynthError {
    /// Human-readable description of the fault.
    pub fn to_string(&self) -> (r: String)
        ensures
            match self {
                SynthError::Btime(b) => r@ == btime_message(*b),
                SynthError::Clock(e) => exists|s: String|
                    to_string_from_display_ensures::<nix::errno::Errno>(e, s) && r@
                        == "clock_gettime: "@ + s@,
            },
    {
        match self {
            SynthError::Btime(b) => {
                b.to_string()
            },
            SynthError::Clock(e) => {
                let mut r = String::from_str("clock_gettime: ");
                let s = e.to_string();
                r.append(s.as_str());
                r
            },
        }
    }
}

/// Whether `text` is the description of `e`.
pub open spec fn synth_message(e: SynthError, text: Seq<char>) -> bool {
    match e {
        SynthError::Btime(b) => text == btime_message(b),
        SynthError::Clock(c) => exists|s: String|
            to_string_from_display_ensures::<nix::errno::Errno>(&c, s) && text == "clock_gettime: "@
                + s@,
    }
}

impl From<SynthError> for std::io::Error {
    /// A missing boot time becomes `NotFound`, an unparsable one
    /// `InvalidData`, a clock failure `Other`; the message is
    /// [`SynthError::to_string`].
    fn from(e: SynthError) -> (r: std::io::Error)
        ensures
            io_error_kind(r) == Some(
                match e {
                    SynthError::Btime(BtimeError::Missing) => IoKind::NotFound,
                    SynthError::Btime(BtimeError::Invalid(_)) => IoKind::InvalidData,
                    SynthError::Clock(_) => IoKind::Other,
                },
            ),
            io_error_os_code(r) == None::<i32>,
            forall|t: String|
                to_string_from_display_ensures::<std::io::Error>(&r, t) ==> synth_message(e, t@),
    {
        let msg = e.to_string();
        let kind = match &e {
            SynthError::Btime(b) => b.io_kind(),
            SynthError::Clock(_) => IoKind::Other,
        };
        io_error_new(kind, msg)
    }
}

impl vstd::std_specs::convert::FromSpecImpl<SynthError> for std::io::Error {
    /// The converted error is a fresh opaque value, so no conversion is
    /// promised as an equation; `from` states its kind, OS code and message.
    open spec fn obeys_from_spec() -> bool {
        false
    }

    open spec fn from_spec(v: SynthError) -> std::io::Error {
        vstd::pervasive::arbitrary()
    }
}

} // verus!
