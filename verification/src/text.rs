//! Character-level helpers shared by the parsers: whitespace, trimming,
//! first-occurrence search and conversion between `&str` and `Vec<char>`.

use vstd::prelude::*;
use vstd::string::StrSliceExecFns;

verus! {

/// Rust's `char::is_whitespace`: the Unicode `White_Space` property.
pub open spec fn is_ws(c: char) -> bool {
    ||| c == '\t'
    ||| c == '\n'
    ||| c == '\u{0B}'
    ||| c == '\u{0C}'
    ||| c == '\r'
    ||| c == ' '
    ||| c == '\u{85}'
    ||| c == '\u{A0}'
    ||| c == '\u{1680}'
    ||| ('\u{2000}' <= c && c <= '\u{200A}')
    ||| c == '\u{2028}'
    ||| c == '\u{2029}'
    ||| c == '\u{202F}'
    ||| c == '\u{205F}'
    ||| c == '\u{3000}'
}

/// Executable form of [`is_ws`].
pub fn char_is_ws(c: char) -> (r: bool)
    ensures
        r == is_ws(c),
{
    c == '\t' || c == '\n' || c == '\u{0B}' || c == '\u{0C}' || c == '\r' || c == ' '
        || c == '\u{85}' || c == '\u{A0}' || c == '\u{1680}' || ('\u{2000}' <= c && c
        <= '\u{200A}') || c == '\u{2028}' || c == '\u{2029}' || c == '\u{202F}' || c
        == '\u{205F}' || c == '\u{3000}'
}

/// `str::trim_start`: drop leading whitespace.
pub open spec fn trim_start(s: Seq<char>) -> Seq<char>
    decreases s.len(),
{
    if s.len() > 0 && is_ws(s[0]) {
        trim_start(s.drop_first())
    } else {
        s
    }
}

/// `str::trim_end`: drop trailing whitespace.
pub open spec fn trim_end(s: Seq<char>) -> Seq<char>
    decreases s.len(),
{
    if s.len() > 0 && is_ws(s.last()) {
        trim_end(s.drop_last())
    } else {
        s
    }
}

/// `str::trim`: drop leading and trailing whitespace.
pub open spec fn trim(s: Seq<char>) -> Seq<char> {
    trim_end(trim_start(s))
}

/// `pat` occurs in `s` starting at index `i`.
pub open spec fn occurs_at(s: Seq<char>, pat: Seq<char>, i: int) -> bool {
    0 <= i && i + pat.len() <= s.len() && s.subrange(i, i + pat.len()) == pat
}

/// `i` is the first index at which `pat` occurs in `s`.
pub open spec fn first_occurrence(s: Seq<char>, pat: Seq<char>, i: int) -> bool {
    occurs_at(s, pat, i) && forall|j: int| 0 <= j < i ==> !occurs_at(s, pat, j)
}

/// `str::find`: the index of the first occurrence of `pat` in `s`, if any.
pub open spec fn find(s: Seq<char>, pat: Seq<char>) -> Option<int> {
    if exists|i: int| occurs_at(s, pat, i) {
        Some(choose|i: int| first_occurrence(s, pat, i))
    } else {
        None
    }
}

/// A first occurrence is unique, so [`find`] returns it.
pub proof fn lemma_find_is_first(s: Seq<char>, pat: Seq<char>, i: int)
    requires
        first_occurrence(s, pat, i),
    ensures
        find(s, pat) == Some(i),
{
    assert(exists|k: int| occurs_at(s, pat, k));
    assert(exists|k: int| first_occurrence(s, pat, k));
    let c = choose|k: int| first_occurrence(s, pat, k);
    if c < i {
        assert(!occurs_at(s, pat, c));
    } else if i < c {
        assert(!occurs_at(s, pat, i));
    }
}

/// The characters of `s`, in order.
pub fn chars_of(s: &str) -> (v: Vec<char>)
    ensures
        v@ == s@,
{
    let n = s.unicode_len();
    let mut v: Vec<char> = Vec::new();
    let mut i: usize = 0;
    while i < n
        invariant
            n == s@.len(),
            i <= n,
            v@ == s@.take(i as int),
        decreases n - i,
    {
        let c = s.get_char(i);
        v.push(c);
        i = i + 1;
        assert(v@ =~= s@.take(i as int));
    }
    assert(v@ =~= s@);
    v
}

/// Bounds `[a, b)` of `v` with leading and trailing whitespace removed.
pub fn trim_bounds(v: &Vec<char>) -> (r: (usize, usize))
    ensures
        r.0 <= r.1 <= v@.len(),
        v@.subrange(r.0 as int, r.1 as int) == trim(v@),
        trim_start(v@) == v@.skip(r.0 as int),
{
    let n = v.len();
    let mut a: usize = 0;
    assert(v@.skip(0) =~= v@);
    while a < n && char_is_ws(v[a])
        invariant
            a <= n,
            n == v@.len(),
            trim_start(v@) == trim_start(v@.skip(a as int)),
        decreases n - a,
    {
        assert(v@.skip(a as int).drop_first() =~= v@.skip(a + 1));
        a = a + 1;
    }
    assert(trim_start(v@.skip(a as int)) == v@.skip(a as int));
    let mut b: usize = n;
    assert(v@.skip(a as int) =~= v@.subrange(a as int, n as int));
    while b > a && char_is_ws(v[b - 1])
        invariant
            a <= b <= n,
            n == v@.len(),
            trim(v@) == trim_end(v@.subrange(a as int, b as int)),
        decreases b,
    {
        assert(v@.subrange(a as int, b as int).drop_last() =~= v@.subrange(a as int, b - 1));
        b = b - 1;
    }
    assert(v@.skip(a as int) =~= v@.subrange(a as int, n as int));
    (a, b)
}

/// Whether `pat` occurs in `v` at index `k`.
pub fn occurs_at_exec(v: &Vec<char>, k: usize, pat: &[char]) -> (r: bool)
    ensures
        r == occurs_at(v@, pat@, k as int),
{
    if k > v.len() || pat.len() > v.len() - k {
        return false;
    }
    let mut j: usize = 0;
    while j < pat.len()
        invariant
            k + pat@.len() <= v@.len(),
            v@.len() == v.len(),
            j <= pat@.len(),
            forall|t: int| 0 <= t < j ==> v@[k + t] == pat@[t],
        decreases pat@.len() - j,
    {
        if v[k + j] != pat[j] {
            assert(v@.subrange(k as int, k + pat@.len())[j as int] != pat@[j as int]);
            return false;
        }
        j = j + 1;
    }
    assert(v@.subrange(k as int, k + pat@.len()) =~= pat@);
    true
}

/// The first occurrence of `pat` in `v` at or after `from`, as an index
/// into `v`.
pub fn find_from(v: &Vec<char>, from: usize, pat: &[char]) -> (r: Option<usize>)
    requires
        from <= v@.len(),
    ensures
        match r {
            Some(i) => {
                &&& from <= i
                &&& i + pat@.len() <= v@.len()
                &&& first_occurrence(v@.skip(from as int), pat@, i - from)
                &&& find(v@.skip(from as int), pat@) == Some(i - from)
            },
            None => find(v@.skip(from as int), pat@) is None,
        },
{
    let ghost tail = v@.skip(from as int);
    let n = v.len();
    let mut k: usize = from;
    loop
        invariant
            from <= k <= n,
            n == v@.len(),
            tail == v@.skip(from as int),
            forall|j: int| 0 <= j < k - from ==> !occurs_at(tail, pat@, j),
        decreases n - k,
    {
        let hit = occurs_at_exec(v, k, pat);
        proof {
            let rel = k - from;
            if k + pat@.len() <= v@.len() {
                assert(tail.subrange(rel, rel + pat@.len()) =~= v@.subrange(
                    k as int,
                    k + pat@.len(),
                ));
            }
        }
        if hit {
            proof {
                lemma_find_is_first(tail, pat@, k - from);
            }
            return Some(k);
        }
        if k == n {
            assert forall|i: int| !occurs_at(tail, pat@, i) by {
                if 0 <= i && i < k - from {
                }
            }
            return None;
        }
        k = k + 1;
    }
}

/// Index of the first non-whitespace character of `v` at or after `from`
/// (or `v.len()`).
pub fn skip_ws_from(v: &Vec<char>, from: usize) -> (r: usize)
    requires
        from <= v@.len(),
    ensures
        from <= r <= v@.len(),
        trim_start(v@.skip(from as int)) == v@.skip(r as int),
{
    let n = v.len();
    let mut p: usize = from;
    while p < n && char_is_ws(v[p])
        invariant
            from <= p <= n,
            n == v@.len(),
            trim_start(v@.skip(from as int)) == trim_start(v@.skip(p as int)),
        decreases n - p,
    {
        assert(v@.skip(p as int).drop_first() =~= v@.skip(p + 1));
        p = p + 1;
    }
    p
}

/// A copy of `v[a..b]`.
pub fn sub_vec(v: &Vec<char>, a: usize, b: usize) -> (r: Vec<char>)
    requires
        a <= b <= v@.len(),
    ensures
        r@ == v@.subrange(a as int, b as int),
{
    let mut r: Vec<char> = Vec::new();
    let mut i: usize = a;
    while i < b
        invariant
            a <= i <= b,
            b <= v@.len(),
            r@ == v@.subrange(a as int, i as int),
        decreases b - i,
    {
        r.push(v[i]);
        i = i + 1;
        assert(r@ =~= v@.subrange(a as int, i as int));
    }
    r
}

/// The pieces of `s` between occurrences of `sep` (as `str::split`): a
/// separator ends the current piece and starts a new, empty one.
pub open spec fn pieces(s: Seq<char>, sep: char) -> Seq<Seq<char>>
    decreases s.len(),
{
    if s.len() == 0 {
        seq![Seq::<char>::empty()]
    } else {
        let p = pieces(s.drop_last(), sep);
        if s.last() == sep {
            p.push(Seq::<char>::empty())
        } else {
            p.update(p.len() - 1, p.last().push(s.last()))
        }
    }
}

pub open spec fn is_digit(c: char) -> bool {
    '0' <= c && c <= '9'
}

pub open spec fn all_digits(s: Seq<char>) -> bool {
    forall|i: int| 0 <= i < s.len() ==> is_digit(#[trigger] s[i])
}

/// A non-empty run of decimal digits.
pub open spec fn is_numeral(s: Seq<char>) -> bool {
    s.len() > 0 && all_digits(s)
}

/// The value of a run of decimal digits.
pub open spec fn dec(s: Seq<char>) -> nat
    decreases s.len(),
{
    if s.len() == 0 {
        0
    } else {
        dec(s.drop_last()) * 10 + ((s.last() as int - '0' as int) as nat)
    }
}

pub proof fn lemma_dec_step(s: Seq<char>, j: int)
    requires
        0 <= j < s.len(),
    ensures
        dec(s.take(j + 1)) == dec(s.take(j)) * 10 + ((s[j] as int - '0' as int) as nat),
{
    assert(s.take(j + 1).drop_last() =~= s.take(j));
}

/// Whether `v[a..b]` is all decimal digits.
pub fn all_digits_exec(v: &Vec<char>, a: usize, b: usize) -> (r: bool)
    requires
        a <= b <= v@.len(),
    ensures
        r == all_digits(v@.subrange(a as int, b as int)),
{
    let mut i: usize = a;
    while i < b
        invariant
            a <= i <= b,
            b <= v@.len(),
            forall|t: int| a <= t < i ==> is_digit(#[trigger] v@[t]),
        decreases b - i,
    {
        if !('0' <= v[i] && v[i] <= '9') {
            assert(!is_digit(v@.subrange(a as int, b as int)[i - a]));
            return false;
        }
        i = i + 1;
    }
    assert forall|t: int| 0 <= t < b - a implies is_digit(
        #[trigger] v@.subrange(a as int, b as int)[t],
    ) by {
        assert(v@.subrange(a as int, b as int)[t] == v@[a + t]);
    }
    true
}

/// The value of the digits `v[a..b]`, or `None` when it exceeds `u64::MAX`.
pub fn decimal_u64(v: &Vec<char>, a: usize, b: usize) -> (r: Option<u64>)
    requires
        a <= b <= v@.len(),
        all_digits(v@.subrange(a as int, b as int)),
    ensures
        r == (if dec(v@.subrange(a as int, b as int)) <= u64::MAX {
            Some(dec(v@.subrange(a as int, b as int)) as u64)
        } else {
            None::<u64>
        }),
{
    let ghost s = v@.subrange(a as int, b as int);
    let mut acc: Option<u64> = Some(0);
    let mut i: usize = a;
    assert(s.take(0) =~= Seq::<char>::empty());
    while i < b
        invariant
            a <= i <= b,
            b <= v@.len(),
            s == v@.subrange(a as int, b as int),
            all_digits(s),
            acc == (if dec(s.take(i - a)) <= u64::MAX {
                Some(dec(s.take(i - a)) as u64)
            } else {
                None::<u64>
            }),
        decreases b - i,
    {
        let c = v[i];
        assert(c == s[i - a]);
        assert(is_digit(s[i - a]));
        let d = (c as u32 - '0' as u32) as u64;
        proof {
            lemma_dec_step(s, i - a);
        }
        acc = match acc {
            None => None,
            Some(x) => if x > (u64::MAX - d) / 10 {
                None
            } else {
                Some(x * 10 + d)
            },
        };
        i = i + 1;
    }
    assert(s.take(b - a) =~= s);
    acc
}

/// The lowercase hexadecimal digit for `d < 16` (also the decimal digit
/// for `d < 10`).
pub open spec fn hex_char(d: nat) -> char {
    if d < 10 {
        (('0' as int) + d) as char
    } else {
        (('a' as int) + d - 10) as char
    }
}

/// Decimal rendering of `n` without leading zeros (`{}` of an integer).
pub open spec fn decimal(n: nat) -> Seq<char>
    decreases n,
{
    if n < 10 {
        seq![hex_char(n)]
    } else {
        decimal(n / 10).push(hex_char(n % 10))
    }
}

/// The one-character string holding `hex_char(d)`.
pub fn digit_str(d: u64) -> (r: &'static str)
    requires
        d < 16,
    ensures
        r@ == seq![hex_char(d as nat)],
{
    proof {
        reveal_strlit("0");
        reveal_strlit("1");
        reveal_strlit("2");
        reveal_strlit("3");
        reveal_strlit("4");
        reveal_strlit("5");
        reveal_strlit("6");
        reveal_strlit("7");
        reveal_strlit("8");
        reveal_strlit("9");
        reveal_strlit("a");
        reveal_strlit("b");
        reveal_strlit("c");
        reveal_strlit("d");
        reveal_strlit("e");
        reveal_strlit("f");
    }
    let r = if d == 0 {
        "0"
    } else if d == 1 {
        "1"
    } else if d == 2 {
        "2"
    } else if d == 3 {
        "3"
    } else if d == 4 {
        "4"
    } else if d == 5 {
        "5"
    } else if d == 6 {
        "6"
    } else if d == 7 {
        "7"
    } else if d == 8 {
        "8"
    } else if d == 9 {
        "9"
    } else if d == 10 {
        "a"
    } else if d == 11 {
        "b"
    } else if d == 12 {
        "c"
    } else if d == 13 {
        "d"
    } else if d == 14 {
        "e"
    } else {
        "f"
    };
    r
}

/// Append the decimal rendering of `n` to `out`.
pub fn push_decimal(out: &mut String, n: u64)
    ensures
        final(out)@ == old(out)@ + decimal(n as nat),
    decreases n,
{
    if n >= 10 {
        push_decimal(out, n / 10);
    }
    out.append(digit_str(n % 10));
    proof {
        if n >= 10 {
            assert(old(out)@ + decimal(n as nat) =~= old(out)@ + decimal((n / 10) as nat) + seq![
                hex_char((n % 10) as nat),
            ]);
        } else {
            assert(decimal(n as nat) =~= seq![hex_char((n % 10) as nat)]);
        }
    }
}

/// Why `str::parse::<u32>` rejects a string (`core::num::IntErrorKind`).
#[derive(Clone, Copy, Debug, PartialEq, Eq, Structural)]
pub enum IntErrorKind {
    /// The string is empty.
    Empty,
    /// A character that is not a decimal digit (including a lone sign).
    InvalidDigit,
    /// The value exceeds `u32::MAX`.
    PosOverflow,
}

impl IntErrorKind {
    /// The message `ParseIntError` displays for this kind.
    pub fn description(&self) -> (r: &'static str)
        ensures
            r@ == match *self {
                IntErrorKind::Empty => "cannot parse integer from empty string"@,
                IntErrorKind::InvalidDigit => "invalid digit found in string"@,
                IntErrorKind::PosOverflow => "number too large to fit in target type"@,
            },
    {
        match self {
            IntErrorKind::Empty => "cannot parse integer from empty string",
            IntErrorKind::InvalidDigit => "invalid digit found in string",
            IntErrorKind::PosOverflow => "number too large to fit in target type",
        }
    }
}

/// Left-to-right accumulation of decimal digits into a `u32`, failing at
/// the first non-digit or at the first step that exceeds `u32::MAX`.
pub open spec fn digits_u32(ds: Seq<char>) -> Result<nat, IntErrorKind>
    decreases ds.len(),
{
    if ds.len() == 0 {
        Ok(0)
    } else {
        match digits_u32(ds.drop_last()) {
            Err(e) => Err(e),
            Ok(v) => if !is_digit(ds.last()) {
                Err(IntErrorKind::InvalidDigit)
            } else {
                let w = v * 10 + ((ds.last() as int - '0' as int) as nat);
                if w > u32::MAX {
                    Err(IntErrorKind::PosOverflow)
                } else {
                    Ok(w)
                }
            },
        }
    }
}

/// `<u32 as FromStr>::from_str`: an optional leading `+`, then at least one
/// decimal digit.
pub open spec fn u32_from_str(s: Seq<char>) -> Result<u32, IntErrorKind> {
    if s.len() == 0 {
        Err(IntErrorKind::Empty)
    } else {
        let ds = if s[0] == '+' {
            s.drop_first()
        } else {
            s
        };
        if ds.len() == 0 {
            Err(IntErrorKind::InvalidDigit)
        } else {
            match digits_u32(ds) {
                Ok(v) => Ok(v as u32),
                Err(e) => Err(e),
            }
        }
    }
}

/// Parse `v[a..b]` as `str::parse::<u32>` does.
pub fn parse_u32(v: &Vec<char>, a: usize, b: usize) -> (r: Result<u32, IntErrorKind>)
    requires
        a <= b <= v@.len(),
    ensures
        r == u32_from_str(v@.subrange(a as int, b as int)),
{
    let ghost s = v@.subrange(a as int, b as int);
    if a == b {
        return Err(IntErrorKind::Empty);
    }
    let start: usize = if v[a] == '+' {
        a + 1
    } else {
        a
    };
    let ghost ds = v@.subrange(start as int, b as int);
    assert(ds =~= (if s[0] == '+' { s.drop_first() } else { s }));
    if start == b {
        return Err(IntErrorKind::InvalidDigit);
    }
    let mut acc: u32 = 0;
    let mut i: usize = start;
    assert(ds.take(0) =~= Seq::<char>::empty());
    while i < b
        invariant
            start <= i <= b,
            b <= v@.len(),
            ds == v@.subrange(start as int, b as int),
            s == v@.subrange(a as int, b as int),
            s.len() > 0,
            ds.len() > 0,
            ds == (if s[0] == '+' { s.drop_first() } else { s }),
            digits_u32(ds.take(i - start)) == Ok::<nat, IntErrorKind>(acc as nat),
        decreases b - i,
    {
        let c = v[i];
        let ghost pre = ds.take(i - start);
        assert(ds.take(i - start + 1).drop_last() =~= pre);
        assert(ds.take(i - start + 1).last() == c);
        if !('0' <= c && c <= '9') {
            proof {
                lemma_digits_u32_prefix_err(ds, i - start + 1, IntErrorKind::InvalidDigit);
            }
            return Err(IntErrorKind::InvalidDigit);
        }
        let d = (c as u32 - '0' as u32);
        if acc > (u32::MAX - d) / 10 {
            proof {
                lemma_digits_u32_prefix_err(ds, i - start + 1, IntErrorKind::PosOverflow);
            }
            return Err(IntErrorKind::PosOverflow);
        }
        acc = acc * 10 + d;
        i = i + 1;
    }
    assert(ds.take(b - start) =~= ds);
    Ok(acc)
}

/// Once a prefix of the digits fails, the whole run fails the same way.
pub proof fn lemma_digits_u32_prefix_err(ds: Seq<char>, k: int, e: IntErrorKind)
    requires
        0 <= k <= ds.len(),
        digits_u32(ds.take(k)) == Err::<nat, IntErrorKind>(e),
    ensures
        digits_u32(ds) == Err::<nat, IntErrorKind>(e),
    decreases ds.len() - k,
{
    if k < ds.len() {
        assert(ds.take(k + 1).drop_last() =~= ds.take(k));
        lemma_digits_u32_prefix_err(ds, k + 1, e);
    } else {
        assert(ds.take(k) =~= ds);
    }
}

/// Whether `v[a..b]` is exactly `word`.
pub fn range_equals(v: &Vec<char>, a: usize, b: usize, word: &[char]) -> (r: bool)
    requires
        a <= b <= v@.len(),
    ensures
        r == (v@.subrange(a as int, b as int) == word@),
{
    if b - a != word.len() {
        return false;
    }
    let r = occurs_at_exec(v, a, word);
    assert(v@.subrange(a as int, b as int) =~= v@.subrange(a as int, a + word@.len()));
    r
}

/// Whether `c` occurs in `s`.
pub fn contains_char(s: &str, c: char) -> (r: bool)
    ensures
        r == s@.contains(c),
{
    let v = chars_of(s);
    let mut i: usize = 0;
    while i < v.len()
        invariant
            i <= v@.len(),
            v@ == s@,
            forall|k: int| 0 <= k < i ==> v@[k] != c,
        decreases v@.len() - i,
    {
        if v[i] == c {
            return true;
        }
        i = i + 1;
    }
    false
}

} // verus!
