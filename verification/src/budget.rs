//! `--budget` spec parser.
//!
//! A budget spec is a comma-separated list of `key=value` entries, for
//! example `wall=3600s,syscalls=1e7,write_bytes=10G,fork=1000`. Known keys:
//!
//! * `wall` — a duration: decimal digits with an optional unit `s`, `m` or
//!   `h` (seconds when the unit is omitted), stored in seconds;
//! * `syscalls`, `fork` — a count: decimal digits, or `<digits>e<digits>`
//!   meaning mantissa times ten to the exponent;
//! * `write_bytes` — a size: decimal digits with an optional binary suffix
//!   `K`, `M`, `G` or `T`, stored in bytes.
//!
//! Every value must fit in 64 bits. An empty entry, an entry without `=`,
//! an unknown key, a key given twice or a malformed value rejects the whole
//! spec, so a typo fails fast instead of being dropped.

use vstd::prelude::*;
use vstd::arithmetic::power::{pow, lemma_pow_positive, lemma_pow_increases};
use vstd::arithmetic::mul::{lemma_mul_inequality, lemma_mul_increases};
use crate::text::{
    all_digits, all_digits_exec, chars_of, dec, decimal_u64, find, find_from, is_numeral,
    occurs_at_exec, pieces, sub_vec,
};

verus! {

/// Always `true`.
pub fn is_stub() -> (r: bool)
    ensures
        r,
{
    true
}

/// The keys a budget spec may set.
#[derive(Clone, Copy, Debug, PartialEq, Eq, Structural)]
pub enum BudgetKey {
    Wall,
    Syscalls,
    WriteBytes,
    Fork,
}

/// The limits a budget spec sets; `None` for a key the spec leaves out.
#[derive(Clone, Copy, Debug, PartialEq, Eq, Structural)]
pub struct BudgetLimits {
    /// Wall-clock limit in seconds.
    pub wall_secs: Option<u64>,
    /// Number of system calls.
    pub syscalls: Option<u64>,
    /// Bytes written.
    pub write_bytes: Option<u64>,
    /// Number of forks.
    pub fork: Option<u64>,
}

/// Why a budget spec was rejected.
#[derive(Debug)]
pub enum ParseError {
    /// An entry between commas is empty (this includes an empty spec).
    EmptyEntry,
    /// An entry has no `=`; the entry's text.
    MissingEquals(String),
    /// The key of an entry is not one of the known keys; the key's text.
    UnknownKey(String),
    /// A key is given more than once.
    DuplicateKey(BudgetKey),
    /// The value of a key does not follow that key's grammar.
    BadValue(BudgetKey),
    /// The value of a key is well formed but exceeds `u64::MAX`.
    TooLarge(BudgetKey),
}

/// The mathematical form of [`ParseError`].
pub enum BudgetFault {
    EmptyEntry,
    MissingEquals(Seq<char>),
    UnknownKey(Seq<char>),
    DuplicateKey(BudgetKey),
    BadValue(BudgetKey),
    TooLarge(BudgetKey),
}

impl View for ParseError {
    type V = BudgetFault;

    open spec fn view(&self) -> BudgetFault {
        match self {
            ParseError::EmptyEntry => BudgetFault::EmptyEntry,
            ParseError::MissingEquals(s) => BudgetFault::MissingEquals(s@),
            ParseError::UnknownKey(s) => BudgetFault::UnknownKey(s@),
            ParseError::DuplicateKey(k) => BudgetFault::DuplicateKey(*k),
            ParseError::BadValue(k) => BudgetFault::BadValue(*k),
            ParseError::TooLarge(k) => BudgetFault::TooLarge(*k),
        }
    }
}

/// The mathematical form of a parse result.
pub open spec fn result_view(r: Result<BudgetLimits, ParseError>) -> Result<BudgetLimits, BudgetFault> {
    match r {
        Ok(b) => Ok(b),
        Err(e) => Err(e@),
    }
}

/// No limit set.
pub open spec fn no_limits() -> BudgetLimits {
    BudgetLimits { wall_secs: None, syscalls: None, write_bytes: None, fork: None }
}

/// The limit `b` sets for key `k`.
pub open spec fn limit_of(b: BudgetLimits, k: BudgetKey) -> Option<u64> {
    match k {
        BudgetKey::Wall => b.wall_secs,
        BudgetKey::Syscalls => b.syscalls,
        BudgetKey::WriteBytes => b.write_bytes,
        BudgetKey::Fork => b.fork,
    }
}

/// `b` with the limit for `k` set to `x`.
pub open spec fn with_limit(b: BudgetLimits, k: BudgetKey, x: u64) -> BudgetLimits {
    match k {
        BudgetKey::Wall => BudgetLimits { wall_secs: Some(x), ..b },
        BudgetKey::Syscalls => BudgetLimits { syscalls: Some(x), ..b },
        BudgetKey::WriteBytes => BudgetLimits { write_bytes: Some(x), ..b },
        BudgetKey::Fork => BudgetLimits { fork: Some(x), ..b },
    }
}

/// The spelling of each key.
pub open spec fn key_name(k: BudgetKey) -> Seq<char> {
    match k {
        BudgetKey::Wall => seq!['w', 'a', 'l', 'l'],
        BudgetKey::Syscalls => seq!['s', 'y', 's', 'c', 'a', 'l', 'l', 's'],
        BudgetKey::WriteBytes => seq!['w', 'r', 'i', 't', 'e', '_', 'b', 'y', 't', 'e', 's'],
        BudgetKey::Fork => seq!['f', 'o', 'r', 'k'],
    }
}

/// The key spelled `s`, if any.
pub open spec fn key_of(s: Seq<char>) -> Option<BudgetKey> {
    if s == key_name(BudgetKey::Wall) {
        Some(BudgetKey::Wall)
    } else if s == key_name(BudgetKey::Syscalls) {
        Some(BudgetKey::Syscalls)
    } else if s == key_name(BudgetKey::WriteBytes) {
        Some(BudgetKey::WriteBytes)
    } else if s == key_name(BudgetKey::Fork) {
        Some(BudgetKey::Fork)
    } else {
        None
    }
}

/// Multiplier of a unit suffix of `wall`.
pub open spec fn wall_unit(c: char) -> Option<nat> {
    if c == 's' {
        Some(1)
    } else if c == 'm' {
        Some(60)
    } else if c == 'h' {
        Some(3600)
    } else {
        None
    }
}

/// Multiplier of a binary suffix of `write_bytes`.
pub open spec fn byte_unit(c: char) -> Option<nat> {
    if c == 'K' {
        Some(1024)
    } else if c == 'M' {
        Some(1048576)
    } else if c == 'G' {
        Some(1073741824)
    } else if c == 'T' {
        Some(1099511627776)
    } else {
        None
    }
}

pub open spec fn unit_of(k: BudgetKey, c: char) -> Option<nat> {
    match k {
        BudgetKey::Wall => wall_unit(c),
        BudgetKey::WriteBytes => byte_unit(c),
        _ => None,
    }
}

/// Amount denoted by a numeral with an optional unit suffix.
pub open spec fn scaled_amount(k: BudgetKey, v: Seq<char>) -> Option<nat> {
    let has_unit = v.len() > 0 && unit_of(k, v.last()) is Some;
    let digits = if has_unit { v.drop_last() } else { v };
    let mult: nat = if has_unit { unit_of(k, v.last())->0 } else { 1 };
    if is_numeral(digits) {
        Some(dec(digits) * mult)
    } else {
        None
    }
}

/// Amount denoted by a count: a numeral, or `<numeral>e<numeral>`.
pub open spec fn count_amount(v: Seq<char>) -> Option<nat> {
    match find(v, seq!['e']) {
        None => if is_numeral(v) {
            Some(dec(v))
        } else {
            None
        },
        Some(i) => {
            let m = v.take(i);
            let x = v.skip(i + 1);
            if is_numeral(m) && is_numeral(x) {
                Some((dec(m) * pow(10, dec(x))) as nat)
            } else {
                None
            }
        },
    }
}

/// Amount denoted by the value text `v` of key `k`, `None` if malformed.
pub open spec fn amount(k: BudgetKey, v: Seq<char>) -> Option<nat> {
    match k {
        BudgetKey::Syscalls | BudgetKey::Fork => count_amount(v),
        _ => scaled_amount(k, v),
    }
}

/// The limit value for key `k` with value text `v`.
pub open spec fn value_of(k: BudgetKey, v: Seq<char>) -> Result<u64, BudgetFault> {
    match amount(k, v) {
        None => Err(BudgetFault::BadValue(k)),
        Some(a) => if a <= u64::MAX {
            Ok(a as u64)
        } else {
            Err(BudgetFault::TooLarge(k))
        },
    }
}

/// Apply one entry `e` to the limits `b` gathered so far.
pub open spec fn apply_entry(b: BudgetLimits, e: Seq<char>) -> Result<BudgetLimits, BudgetFault> {
    if e.len() == 0 {
        Err(BudgetFault::EmptyEntry)
    } else {
        match find(e, seq!['=']) {
            None => Err(BudgetFault::MissingEquals(e)),
            Some(i) => {
                let key = e.take(i);
                match key_of(key) {
                    None => Err(BudgetFault::UnknownKey(key)),
                    Some(k) => if limit_of(b, k) is Some {
                        Err(BudgetFault::DuplicateKey(k))
                    } else {
                        match value_of(k, e.skip(i + 1)) {
                            Err(f) => Err(f),
                            Ok(x) => Ok(with_limit(b, k, x)),
                        }
                    },
                }
            },
        }
    }
}

/// Apply the entries `es` in order, stopping at the first fault.
pub open spec fn apply_all(es: Seq<Seq<char>>) -> Result<BudgetLimits, BudgetFault>
    decreases es.len(),
{
    if es.len() == 0 {
        Ok(no_limits())
    } else {
        match apply_all(es.drop_last()) {
            Err(f) => Err(f),
            Ok(b) => apply_entry(b, es.last()),
        }
    }
}

/// What a budget spec means.
pub open spec fn parse_budget(s: Seq<char>) -> Result<BudgetLimits, BudgetFault> {
    apply_all(pieces(s, ','))
}

/// `m * 10^x` where `x` is the value of the digits `v[xa..xb]`, or `None`
/// when it exceeds `u64::MAX`.
fn times_pow10(m: u64, v: &Vec<char>, xa: usize, xb: usize) -> (r: Option<u64>)
    requires
        xa <= xb <= v@.len(),
        all_digits(v@.subrange(xa as int, xb as int)),
    ensures
        ({
            let p = m * pow(10, dec(v@.subrange(xa as int, xb as int)));
            r == (if p <= u64::MAX {
                Some(p as u64)
            } else {
                None::<u64>
            })
        }),
{
    let ghost x = dec(v@.subrange(xa as int, xb as int));
    proof {
        lemma_pow_positive(10, x);
    }
    if m == 0 {
        assert(m * pow(10, x) == 0);
        return Some(0);
    }
    let xo = decimal_u64(v, xa, xb);
    let big = match xo {
        None => true,
        Some(xv) => xv > 19,
    };
    if big {
        proof {
            reveal_with_fuel(pow, 21);
            assert(pow(10, 20) == 100000000000000000000int);
            lemma_pow_increases(10, 20, x);
            lemma_mul_increases(m as int, pow(10, x));
        }
        return None;
    }
    let xv = match xo {
        None => 0,
        Some(xv) => xv,
    };
    assert(xv == x);
    let mut acc: u64 = m;
    let mut t: u64 = 0;
    assert(pow(10, 0) == 1) by {
        reveal_with_fuel(pow, 1);
    }
    while t < xv
        invariant
            t <= xv,
            xv == x,
            x == dec(v@.subrange(xa as int, xb as int)),
            m >= 1,
            acc == m * pow(10, t as nat),
        decreases xv - t,
    {
        proof {
            reveal_with_fuel(pow, 2);
            assert(pow(10, (t + 1) as nat) == 10 * pow(10, t as nat));
            assert(m * pow(10, (t + 1) as nat) == (m * pow(10, t as nat)) * 10) by (nonlinear_arith)
                requires
                    pow(10, (t + 1) as nat) == 10 * pow(10, t as nat),
            ;
        }
        if acc > u64::MAX / 10 {
            proof {
                let p1 = pow(10, (t + 1) as nat);
                let px = pow(10, x);
                lemma_pow_increases(10, (t + 1) as nat, x);
                lemma_mul_inequality(p1, px, m as int);
                assert(p1 * m == m * p1) by (nonlinear_arith);
                assert(px * m == m * px) by (nonlinear_arith);
                assert(acc * 10 > u64::MAX);
                assert(m * px > u64::MAX);
            }
            return None;
        }
        acc = acc * 10;
        t = t + 1;
    }
    Some(acc)
}

/// Which key `e[0..i]` spells, if any.
fn key_exec(e: &Vec<char>, i: usize) -> (r: Option<BudgetKey>)
    requires
        i <= e@.len(),
    ensures
        r == key_of(e@.take(i as int)),
{
    let wall: [char; 4] = ['w', 'a', 'l', 'l'];
    let syscalls: [char; 8] = ['s', 'y', 's', 'c', 'a', 'l', 'l', 's'];
    let write_bytes: [char; 11] = ['w', 'r', 'i', 't', 'e', '_', 'b', 'y', 't', 'e', 's'];
    let fork: [char; 4] = ['f', 'o', 'r', 'k'];
    let ws: &[char] = &wall;
    let ss: &[char] = &syscalls;
    let bs: &[char] = &write_bytes;
    let fs: &[char] = &fork;
    assert(ws@ =~= key_name(BudgetKey::Wall));
    assert(ss@ =~= key_name(BudgetKey::Syscalls));
    assert(bs@ =~= key_name(BudgetKey::WriteBytes));
    assert(fs@ =~= key_name(BudgetKey::Fork));
    let ghost key = e@.take(i as int);
    assert(e@.subrange(0, i as int) =~= key);
    if i == 4 && occurs_at_exec(e, 0, ws) {
        return Some(BudgetKey::Wall);
    }
    if i == 8 && occurs_at_exec(e, 0, ss) {
        return Some(BudgetKey::Syscalls);
    }
    if i == 11 && occurs_at_exec(e, 0, bs) {
        return Some(BudgetKey::WriteBytes);
    }
    if i == 4 && occurs_at_exec(e, 0, fs) {
        return Some(BudgetKey::Fork);
    }
    None
}

/// Multiplier of the unit suffix `c` for key `k`.
fn unit_exec(k: BudgetKey, c: char) -> (r: Option<u64>)
    ensures
        match r {
            Some(u) => unit_of(k, c) == Some(u as nat) && u >= 1,
            None => unit_of(k, c) is None,
        },
{
    match k {
        BudgetKey::Wall => if c == 's' {
            Some(1)
        } else if c == 'm' {
            Some(60)
        } else if c == 'h' {
            Some(3600)
        } else {
            None
        },
        BudgetKey::WriteBytes => if c == 'K' {
            Some(1024)
        } else if c == 'M' {
            Some(1048576)
        } else if c == 'G' {
            Some(1073741824)
        } else if c == 'T' {
            Some(1099511627776)
        } else {
            None
        },
        _ => None,
    }
}

/// Value of a numeral with an optional unit suffix, `e[a..]`.
fn scaled_value(k: BudgetKey, e: &Vec<char>, a: usize) -> (r: Result<u64, ParseError>)
    requires
        a <= e@.len(),
        k != BudgetKey::Syscalls,
        k != BudgetKey::Fork,
    ensures
        match r {
            Ok(x) => value_of(k, e@.skip(a as int)) == Ok::<u64, BudgetFault>(x),
            Err(f) => value_of(k, e@.skip(a as int)) == Err::<u64, BudgetFault>(f@),
        },
{
    let ghost v = e@.skip(a as int);
    let n = e.len();
    let mut b = n;
    let mut mult: u64 = 1;
    if n > a {
        assert(v.last() == e@[n - 1]);
        match unit_exec(k, e[n - 1]) {
            Some(u) => {
                b = n - 1;
                mult = u;
            },
            None => {},
        }
    }
    let ghost has_unit = v.len() > 0 && unit_of(k, v.last()) is Some;
    let ghost digits = if has_unit { v.drop_last() } else { v };
    assert(e@.subrange(a as int, b as int) =~= digits);
    assert(mult as nat == (if has_unit { unit_of(k, v.last())->0 } else { 1nat }));
    if b == a || !all_digits_exec(e, a, b) {
        return Err(ParseError::BadValue(k));
    }
    assert(scaled_amount(k, v) == Some(dec(digits) * (mult as nat)));
    match decimal_u64(e, a, b) {
        None => {
            proof {
                lemma_mul_increases(mult as int, dec(digits) as int);
                assert(dec(digits) * mult == mult * dec(digits)) by (nonlinear_arith);
            }
            Err(ParseError::TooLarge(k))
        },
        Some(d) => match d.checked_mul(mult) {
            None => Err(ParseError::TooLarge(k)),
            Some(x) => Ok(x),
        },
    }
}

/// Value of a count, `e[a..]`.
fn count_value(k: BudgetKey, e: &Vec<char>, a: usize) -> (r: Result<u64, ParseError>)
    requires
        a <= e@.len(),
        k == BudgetKey::Syscalls || k == BudgetKey::Fork,
    ensures
        match r {
            Ok(x) => value_of(k, e@.skip(a as int)) == Ok::<u64, BudgetFault>(x),
            Err(f) => value_of(k, e@.skip(a as int)) == Err::<u64, BudgetFault>(f@),
        },
{
    let ghost v = e@.skip(a as int);
    let n = e.len();
    let exp_mark: [char; 1] = ['e'];
    let em: &[char] = &exp_mark;
    assert(em@ =~= seq!['e']);
    match find_from(e, a, em) {
        None => {
            assert(e@.subrange(a as int, n as int) =~= v);
            if n == a || !all_digits_exec(e, a, n) {
                return Err(ParseError::BadValue(k));
            }
            match decimal_u64(e, a, n) {
                None => Err(ParseError::TooLarge(k)),
                Some(d) => Ok(d),
            }
        },
        Some(i) => {
            assert(e@.subrange(a as int, i as int) =~= v.take(i - a));
            assert(e@.subrange(i + 1, n as int) =~= v.skip(i - a + 1));
            if i == a || i + 1 == n || !all_digits_exec(e, a, i) || !all_digits_exec(e, i + 1, n) {
                return Err(ParseError::BadValue(k));
            }
            let ghost m = dec(v.take(i - a));
            let ghost x = dec(v.skip(i - a + 1));
            proof {
                lemma_pow_positive(10, x);
            }
            match decimal_u64(e, a, i) {
                None => {
                    proof {
                        lemma_mul_increases(pow(10, x), m as int);
                        assert(pow(10, x) * m == m * pow(10, x)) by (nonlinear_arith);
                    }
                    Err(ParseError::TooLarge(k))
                },
                Some(mv) => match times_pow10(mv, e, i + 1, n) {
                    None => Err(ParseError::TooLarge(k)),
                    Some(p) => Ok(p),
                },
            }
        },
    }
}

/// The limit for key `k` whose value text is `e[a..]`.
fn parse_value(k: BudgetKey, e: &Vec<char>, a: usize) -> (r: Result<u64, ParseError>)
    requires
        a <= e@.len(),
    ensures
        match r {
            Ok(x) => value_of(k, e@.skip(a as int)) == Ok::<u64, BudgetFault>(x),
            Err(f) => value_of(k, e@.skip(a as int)) == Err::<u64, BudgetFault>(f@),
        },
{
    match k {
        BudgetKey::Syscalls | BudgetKey::Fork => count_value(k, e, a),
        _ => scaled_value(k, e, a),
    }
}

fn limit_of_exec(b: &BudgetLimits, k: BudgetKey) -> (r: Option<u64>)
    ensures
        r == limit_of(*b, k),
{
    match k {
        BudgetKey::Wall => b.wall_secs,
        BudgetKey::Syscalls => b.syscalls,
        BudgetKey::WriteBytes => b.write_bytes,
        BudgetKey::Fork => b.fork,
    }
}

fn with_limit_exec(b: BudgetLimits, k: BudgetKey, x: u64) -> (r: BudgetLimits)
    ensures
        r == with_limit(b, k, x),
{
    match k {
        BudgetKey::Wall => BudgetLimits { wall_secs: Some(x), ..b },
        BudgetKey::Syscalls => BudgetLimits { syscalls: Some(x), ..b },
        BudgetKey::WriteBytes => BudgetLimits { write_bytes: Some(x), ..b },
        BudgetKey::Fork => BudgetLimits { fork: Some(x), ..b },
    }
}

/// Apply the entry `v[a..c]` of the spec `src` to `b`.
fn apply_entry_exec(b: BudgetLimits, src: &str, v: &Vec<char>, a: usize, c: usize) -> (r: Result<
    BudgetLimits,
    ParseError,
>)
    requires
        src@ == v@,
        a <= c <= v@.len(),
    ensures
        result_view(r) == apply_entry(b, v@.subrange(a as int, c as int)),
{
    if a == c {
        return Err(ParseError::EmptyEntry);
    }
    let e = sub_vec(v, a, c);
    let eq_mark: [char; 1] = ['='];
    let es: &[char] = &eq_mark;
    assert(es@ =~= seq!['=']);
    assert(e@.skip(0) =~= e@);
    match find_from(&e, 0, es) {
        None => {
            let t = src.substring_char(a, c).to_owned();
            Err(ParseError::MissingEquals(t))
        },
        Some(i) => {
            match key_exec(&e, i) {
                None => {
                    assert(v@.subrange(a as int, a + i) =~= e@.take(i as int));
                    let t = src.substring_char(a, a + i).to_owned();
                    Err(ParseError::UnknownKey(t))
                },
                Some(k) => {
                    if limit_of_exec(&b, k).is_some() {
                        return Err(ParseError::DuplicateKey(k));
                    }
                    match parse_value(k, &e, i + 1) {
                        Err(f) => Err(f),
                        Ok(x) => Ok(with_limit_exec(b, k, x)),
                    }
                },
            }
        },
    }
}

/// Parse and validate a `--budget` spec.
pub fn parse(spec: &str) -> (r: Result<BudgetLimits, ParseError>)
    ensures
        result_view(r) == parse_budget(spec@),
{
    let v = chars_of(spec);
    let n = v.len();
    let mut acc: Result<BudgetLimits, ParseError> = Ok(BudgetLimits {
        wall_secs: None,
        syscalls: None,
        write_bytes: None,
        fork: None,
    });
    let ghost mut done: Seq<Seq<char>> = Seq::empty();
    let mut start: usize = 0;
    let mut i: usize = 0;
    assert(v@.take(0) =~= Seq::<char>::empty());
    assert(pieces(v@.take(0), ',') =~= done.push(v@.subrange(0, 0)));
    while i < n
        invariant
            start <= i <= n,
            n == v@.len(),
            spec@ == v@,
            pieces(v@.take(i as int), ',') == done.push(v@.subrange(start as int, i as int)),
            result_view(acc) == apply_all(done),
        decreases n - i,
    {
        assert(v@.take(i + 1).drop_last() =~= v@.take(i as int));
        assert(v@.take(i + 1).last() == v@[i as int]);
        if v[i] == ',' {
            let next = match acc {
                Err(f) => Err(f),
                Ok(b) => apply_entry_exec(b, spec, &v, start, i),
            };
            proof {
                let old_done = done;
                done = done.push(v@.subrange(start as int, i as int));
                assert(done.drop_last() =~= old_done);
                assert(v@.subrange(i + 1, i + 1) =~= Seq::<char>::empty());
            }
            acc = next;
            start = i + 1;
        } else {
            proof {
                let p = pieces(v@.take(i as int), ',');
                assert(p.len() - 1 == done.len());
                assert(v@.subrange(start as int, i + 1) =~= v@.subrange(start as int, i as int).push(v@[i as int]));
                assert(p.update(p.len() - 1, p.last().push(v@[i as int])) =~= done.push(v@.subrange(start as int, i + 1)));
            }
        }
        i = i + 1;
    }
    assert(v@.take(n as int) =~= v@);
    let result = match acc {
        Err(f) => Err(f),
        Ok(b) => apply_entry_exec(b, spec, &v, start, n),
    };
    proof {
        let all = done.push(v@.subrange(start as int, n as int));
        assert(all.drop_last() =~= done);
    }
    result
}

impl BudgetKey {
    /// The key as written in a spec.
    pub fn name(&self) -> (r: &'static str)
        ensures
            r@ == key_name(*self),
    {
        proof {
            reveal_strlit("wall");
            reveal_strlit("syscalls");
            reveal_strlit("write_bytes");
            reveal_strlit("fork");
        }
        match self {
            BudgetKey::Wall => "wall",
            BudgetKey::Syscalls => "syscalls",
            BudgetKey::WriteBytes => "write_bytes",
            BudgetKey::Fork => "fork",
        }
    }
}

/// The description of a budget fault.
pub open spec fn fault_message(f: BudgetFault) -> Seq<char> {
    match f {
        BudgetFault::EmptyEntry => "empty entry (expected key=value)"@,
        BudgetFault::MissingEquals(t) => "entry '"@ + t + "' is not key=value"@,
        BudgetFault::UnknownKey(t) => "unknown key '"@ + t
            + "' (expected wall, syscalls, write_bytes or fork)"@,
        BudgetFault::DuplicateKey(k) => "key '"@ + key_name(k) + "' given more than once"@,
        BudgetFault::BadValue(k) => "malformed value for '"@ + key_name(k) + "'"@,
        BudgetFault::TooLarge(k) => "value for '"@ + key_name(k) + "' does not fit in 64 bits"@,
    }
}

impl ParseError {
    /// Human-readable description of the fault.
    pub fn to_string(&self) -> (r: String)
        ensures
            r@ == fault_message(self@),
    {
        match self {
            ParseError::EmptyEntry => String::from_str("empty entry (expected key=value)"),
            ParseError::MissingEquals(t) => {
                let mut r = String::from_str("entry '");
                r.append(t.as_str());
                r.append("' is not key=value");
                r
            },
            ParseError::UnknownKey(t) => {
                let mut r = String::from_str("unknown key '");
                r.append(t.as_str());
                r.append("' (expected wall, syscalls, write_bytes or fork)");
                r
            },
            ParseError::DuplicateKey(k) => {
                let mut r = String::from_str("key '");
                r.append(k.name());
                r.append("' given more than once");
                r
            },
            ParseError::BadValue(k) => {
                let mut r = String::from_str("malformed value for '");
                r.append(k.name());
                r.append("'");
                r
            },
            ParseError::TooLarge(k) => {
                let mut r = String::from_str("value for '");
                r.append(k.name());
                r.append("' does not fit in 64 bits");
                r
            },
        }
    }
}

/// The key an entry sets, when it is `key=value` with a known key.
pub open spec fn entry_key(e: Seq<char>) -> Option<BudgetKey> {
    match find(e, seq!['=']) {
        None => None,
        Some(i) => key_of(e.take(i)),
    }
}

/// The limit an entry sets, when it is well formed.
pub open spec fn entry_limit(e: Seq<char>) -> Option<u64> {
    match find(e, seq!['=']) {
        None => None,
        Some(i) => match key_of(e.take(i)) {
            None => None,
            Some(k) => match value_of(k, e.skip(i + 1)) {
                Ok(x) => Some(x),
                Err(_) => None,
            },
        },
    }
}

/// What an accepted list of entries establishes: each entry names a known
/// key and its limit is the one recorded, no two entries name the same key,
/// and every recorded limit comes from some entry.
pub open spec fn entries_recorded(es: Seq<Seq<char>>, b: BudgetLimits) -> bool {
    &&& forall|j: int|
        0 <= j < es.len() ==> (#[trigger] entry_key(es[j])) is Some && limit_of(
            b,
            entry_key(es[j])->0,
        ) == entry_limit(es[j]) && entry_limit(es[j]) is Some
    &&& forall|j1: int, j2: int|
        0 <= j1 < es.len() && 0 <= j2 < es.len() && j1 != j2 ==> #[trigger] entry_key(es[j1])
            != #[trigger] entry_key(es[j2])
    &&& forall|k: BudgetKey|
        #![trigger limit_of(b, k)]
        limit_of(b, k) is Some ==> exists|j: int| 0 <= j < es.len() && entry_key(es[j]) == Some(k)
}

proof fn lemma_apply_all_recorded(es: Seq<Seq<char>>)
    ensures
        apply_all(es) matches Ok(b) ==> entries_recorded(es, b),
    decreases es.len(),
{
    if es.len() > 0 {
        let init = es.drop_last();
        lemma_apply_all_recorded(init);
        if let Ok(b) = apply_all(es) {
            let b0 = apply_all(init)->Ok_0;
            let e = es.last();
            let i = find(e, seq!['='])->0;
            let k = key_of(e.take(i))->0;
            assert(entry_key(e) == Some(k));
            assert(limit_of(b0, k) is None);
            assert forall|j: int| 0 <= j < es.len() implies (#[trigger] entry_key(es[j])) is Some
                && limit_of(b, entry_key(es[j])->0) == entry_limit(es[j]) && entry_limit(
                es[j],
            ) is Some by {
                if j < init.len() {
                    assert(es[j] == init[j]);
                    assert(entry_key(init[j]) is Some);
                    assert(entry_key(init[j])->0 != k);
                }
            }
            assert forall|j1: int, j2: int|
                0 <= j1 < es.len() && 0 <= j2 < es.len() && j1 != j2 implies #[trigger] entry_key(
                es[j1],
            ) != #[trigger] entry_key(es[j2]) by {
                if j1 < init.len() && j2 < init.len() {
                    assert(es[j1] == init[j1]);
                    assert(es[j2] == init[j2]);
                } else if j1 < init.len() {
                    assert(es[j1] == init[j1]);
                    assert(entry_key(init[j1]) is Some);
                } else {
                    assert(es[j2] == init[j2]);
                    assert(entry_key(init[j2]) is Some);
                }
            }
            assert forall|k2: BudgetKey| #![trigger limit_of(b, k2)] limit_of(b, k2) is Some implies exists|
                j: int,
            | 0 <= j < es.len() && entry_key(es[j]) == Some(k2) by {
                if k2 == k {
                    assert(entry_key(es[es.len() - 1]) == Some(k2));
                } else {
                    assert(limit_of(b0, k2) is Some);
                    let j = choose|j: int| 0 <= j < init.len() && entry_key(init[j]) == Some(k2);
                    assert(es[j] == init[j]);
                }
            }
        }
    }
}

/// A budget spec is accepted only when every comma-separated entry is
/// `key=value` with a known key and a well-formed value; keys appear at
/// most once; and the accepted limits are exactly those the entries give,
/// so no entry is ever silently dropped.
pub proof fn lemma_accepted_spec_records_every_entry(s: Seq<char>)
    ensures
        parse_budget(s) matches Ok(b) ==> entries_recorded(pieces(s, ','), b),
{
    lemma_apply_all_recorded(pieces(s, ','));
}

} // verus!
