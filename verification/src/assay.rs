//! Reading the verdict of `assay agentns --json` for the startup gate.
//!
//! The launcher only attempts namespace creation when assay reports the
//! kernel surface as `Live`. Running assay (or reading the mock verdict from
//! the environment) is the caller's job; this module decides what the text
//! it got back means.

use vstd::prelude::*;
use crate::text::{chars_of, find, find_from, occurs_at_exec, trim, trim_bounds, trim_start, skip_ws_from};

verus! {

/// The verdict string assay emits when every layer passes.
pub open spec fn live_word() -> Seq<char> {
    seq!['L', 'i', 'v', 'e']
}

/// The key `"type"`, quotes included.
pub open spec fn type_key() -> Seq<char> {
    seq!['"', 't', 'y', 'p', 'e', '"']
}

/// The value of the first `"type"` key of an assay JSON document: after the
/// key comes the first `:`, then optional whitespace, then a quoted string
/// whose contents run to the next `"`. `None` when any of these is missing.
pub open spec fn verdict_type(json: Seq<char>) -> Option<Seq<char>> {
    match find(json, type_key()) {
        None => None,
        Some(k) => {
            let after_key = json.skip(k + type_key().len());
            match find(after_key, seq![':']) {
                None => None,
                Some(c) => {
                    let after_colon = trim_start(after_key.skip(c + 1));
                    if after_colon.len() == 0 || after_colon[0] != '"' {
                        None
                    } else {
                        let inner = after_colon.skip(1);
                        match find(inner, seq!['"']) {
                            None => None,
                            Some(q) => Some(inner.take(q)),
                        }
                    }
                },
            }
        },
    }
}

/// Extract `verdict.type` from assay's JSON output without a JSON parser.
pub fn extract_verdict_type(json: &str) -> (r: Option<String>)
    ensures
        match r {
            Some(t) => verdict_type(json@) == Some(t@),
            None => verdict_type(json@) is None,
        },
{
    let v = chars_of(json);
    let key: [char; 6] = ['"', 't', 'y', 'p', 'e', '"'];
    assert(key@ =~= type_key());
    let key_s: &[char] = &key;
    assert(key_s@ == type_key());
    let k = match find_from(&v, 0, key_s) {
        None => {
            assert(v@.skip(0) =~= v@);
            return None;
        },
        Some(k) => k,
    };
    assert(v@.skip(0) =~= v@);
    assert(type_key().len() == 6);
    assert(k + 6 <= v.len());
    let after_key = k + 6;
    let colon: [char; 1] = [':'];
    assert(colon@ =~= seq![':']);
    let c = match find_from(&v, after_key, &colon) {
        None => return None,
        Some(c) => c,
    };
    let ghost ak = v@.skip(after_key as int);
    assert(ak.skip(c - after_key + 1) =~= v@.skip(c + 1));
    let n = v.len();
    let p = skip_ws_from(&v, c + 1);
    if p >= n || v[p] != '"' {
        return None;
    }
    let start = p + 1;
    let quote: [char; 1] = ['"'];
    assert(quote@ =~= seq!['"']);
    assert(v@.skip(p as int).skip(1) =~= v@.skip(start as int));
    let e = match find_from(&v, start, &quote) {
        None => return None,
        Some(e) => e,
    };
    assert(v@.skip(start as int).take(e - start) =~= v@.subrange(start as int, e as int));
    let t = json.substring_char(start, e);
    Some(t.to_owned())
}

/// Whether a mock verdict (the value of the test seam variable) says `Live`:
/// the value with surrounding whitespace removed is exactly `Live`.
pub fn mock_verdict_is_live(val: &str) -> (r: bool)
    ensures
        r == (trim(val@) == live_word()),
{
    let v = chars_of(val);
    let (a, b) = trim_bounds(&v);
    let live: [char; 4] = ['L', 'i', 'v', 'e'];
    assert(live@ =~= live_word());
    if b - a != 4 {
        return false;
    }
    let r = occurs_at_exec(&v, a, &live);
    assert(v@.subrange(a as int, b as int) =~= v@.subrange(a as int, a + 4));
    r
}

/// Whether assay's JSON output reports the surface as `Live`: its
/// `verdict.type` exists and is exactly `Live`.
pub fn output_is_live(stdout: &str) -> (r: bool)
    ensures
        r == (verdict_type(stdout@) == Some(live_word())),
{
    match extract_verdict_type(stdout) {
        None => false,
        Some(t) => {
            let v = chars_of(t.as_str());
            let live: [char; 4] = ['L', 'i', 'v', 'e'];
            assert(live@ =~= live_word());
            if v.len() != 4 {
                return false;
            }
            let r = occurs_at_exec(&v, 0, &live);
            assert(v@.subrange(0, 4) =~= v@);
            r
        },
    }
}

/// The startup gate. A mock verdict (the test seam variable), when set,
/// decides alone. Otherwise `assay_run` is what running `assay agentns
/// --json` gave: whether it exited with status 0, and its standard output;
/// `None` when assay could not be run or its output is not UTF-8. The
/// surface is live only when assay exited 0 and its `verdict.type` is
/// exactly `Live`.
pub fn is_live_from(mock_verdict: Option<&str>, assay_run: Option<(bool, &str)>) -> (r: bool)
    ensures
        match mock_verdict {
            Some(v) => r == (trim(v@) == live_word()),
            None => match assay_run {
                Some((exited_zero, o)) => r == (exited_zero && verdict_type(o@) == Some(
                    live_word(),
                )),
                None => !r,
            },
        },
{
    match mock_verdict {
        Some(v) => mock_verdict_is_live(v),
        None => match assay_run {
            Some((exited_zero, o)) => exited_zero && output_is_live(o),
            None => false,
        },
    }
}

} // verus!
