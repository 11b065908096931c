//! Mock-mode session-id resolution.
//!
//! Two escape hatches let downstream tools iterate without the patched
//! kernel: a mock file (`/tmp/agentns-mock`, or `$AGENTNS_MOCK_FILE`) whose
//! trimmed, non-empty contents are the session id, and
//! `$AGENTNS_SESSION_ID_OVERRIDE`, whose non-empty value is. The file wins
//! over the variable because someone deliberately wrote it. Reading the
//! file and the environment is the caller's job.

use vstd::prelude::*;
use crate::text::{chars_of, trim, trim_bounds};

verus! {

/// A session id supplied by a mock source.
#[derive(Debug)]
pub struct Mock {
    /// The identifier the child will see as `$AGENTNS_SESSION_ID`.
    pub session_id: String,
    /// Origin of the id: `"file"` (mock file) or `"env"` (override variable).
    pub source: &'static str,
}

/// The mock id chosen from the mock file's contents (when the file exists
/// and could be read) and the override variable's value (when set):
/// `(session id, source)`.
pub open spec fn mock_choice(file_body: Option<Seq<char>>, env_value: Option<Seq<char>>) -> Option<
    (Seq<char>, Seq<char>),
> {
    match file_body {
        Some(body) if trim(body).len() > 0 => Some((trim(body), "file"@)),
        _ => match env_value {
            Some(val) if val.len() > 0 => Some((val, "env"@)),
            _ => None,
        },
    }
}

/// The mock file is absent (or unreadable) or holds only whitespace.
pub open spec fn file_is_blank(file_body: Option<Seq<char>>) -> bool {
    match file_body {
        Some(b) => trim(b).len() == 0,
        None => true,
    }
}

/// The override variable is unset or empty.
pub open spec fn env_is_unset(env_value: Option<Seq<char>>) -> bool {
    match env_value {
        Some(v) => v.len() == 0,
        None => true,
    }
}

/// A deliberately written mock file wins over the override variable, and
/// the variable is only consulted when the file is absent, unreadable or
/// blank.
pub proof fn lemma_mock_file_wins(file_body: Option<Seq<char>>, env_value: Option<Seq<char>>)
    ensures
        match file_body {
            Some(b) => trim(b).len() > 0 ==> mock_choice(file_body, env_value) == Some(
                (trim(b), "file"@),
            ),
            None => true,
        },
        match mock_choice(file_body, env_value) {
            Some((id, src)) => id.len() > 0 && (src == "env"@ ==> env_value == Some(id)),
            None => true,
        },
        file_is_blank(file_body) ==> match env_value {
            Some(v) => v.len() > 0 ==> mock_choice(file_body, env_value) == Some((v, "env"@)),
            None => true,
        },
        mock_choice(file_body, env_value) is None <==> (file_is_blank(file_body) && env_is_unset(
            env_value,
        )),
{
    reveal_strlit("env");
    reveal_strlit("file");
    assert("file"@.len() != "env"@.len());
}

/// The characters of an optional text.
pub open spec fn text_of(o: Option<&str>) -> Option<Seq<char>> {
    match o {
        Some(t) => Some(t@),
        None => None,
    }
}

/// Pick the mock session id, if any mock source is configured.
pub fn resolve(file_body: Option<&str>, env_value: Option<&str>) -> (r: Option<Mock>)
    ensures
        match r {
            Some(m) => mock_choice(text_of(file_body), text_of(env_value))
                == Some((m.session_id@, m.source@)),
            None => mock_choice(text_of(file_body), text_of(env_value)) is None,
        },
        match file_body {
            Some(b) => trim(b@).len() > 0 ==> match r {
                Some(m) => m.session_id@ == trim(b@) && m.source@ == "file"@,
                None => false,
            },
            None => true,
        },
        file_is_blank(text_of(file_body)) ==> match env_value {
            Some(v) => v@.len() > 0 ==> match r {
                Some(m) => m.session_id@ == v@ && m.source@ == "env"@,
                None => false,
            },
            None => r is None,
        },
        r is None <==> (file_is_blank(text_of(file_body)) && env_is_unset(text_of(env_value))),
{
    if let Some(body) = file_body {
        let v = chars_of(body);
        let (a, b) = trim_bounds(&v);
        if a < b {
            let t = body.substring_char(a, b);
            return Some(Mock { session_id: t.to_owned(), source: "file" });
        }
    }
    if let Some(val) = env_value {
        if !val.is_empty() {
            return Some(Mock { session_id: val.to_owned(), source: "env" });
        }
    }
    None
}

/// The stderr line that marks mock mode, so a mock id is never mistaken for
/// a real session.
pub fn announce_line(session_id: &str, source: &str) -> (r: String)
    ensures
        r@ == "[agentns-launch] MOCK MODE: session_id="@ + session_id@ + " source="@ + source@,
{
    let mut r = String::from_str("[agentns-launch] MOCK MODE: session_id=");
    r.append(session_id);
    r.append(" source=");
    r.append(source);
    r
}

} // verus!
