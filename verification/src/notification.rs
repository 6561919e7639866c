//! The AppleScript line that posts a desktop notification where the native
//! notification centre is not available.
use crate::text::chars_of;
use vstd::prelude::*;
use vstd::string::*;

verus! {

/// A character as it may stand inside an AppleScript string literal: a
/// backslash and a double quote are escaped, a line break becomes a space.
pub open spec fn escaped_char(c: char) -> Seq<char> {
    if c == '\\' {
        seq!['\\', '\\']
    } else if c == '"' {
        seq!['\\', '"']
    } else if c == '\n' {
        seq![' ']
    } else {
        seq![c]
    }
}

/// `s` escaped character by character (see `escaped_char`).
pub open spec fn applescript_escaped(s: Seq<char>) -> Seq<char>
    decreases s.len(),
{
    if s.len() == 0 {
        Seq::empty()
    } else {
        applescript_escaped(s.drop_last()) + escaped_char(s.last())
    }
}

/// `s` escaped for an AppleScript string literal (see `applescript_escaped`).
pub fn applescript_escape(s: &str) -> (out: String)
    ensures
        out@ == applescript_escaped(s@),
{
    let cs = chars_of(s);
    let mut out = String::new();
    let mut i: usize = 0;
    while i < cs.len()
        invariant
            i <= cs@.len(),
            cs@ == s@,
            out@ == applescript_escaped(cs@.subrange(0, i as int)),
        decreases cs@.len() - i,
    {
        let c = cs[i];
        let ghost before = out@;
        if c == '\\' {
            out.push('\\');
            out.push('\\');
        } else if c == '"' {
            out.push('\\');
            out.push('"');
        } else if c == '\n' {
            out.push(' ');
        } else {
            out.push(c);
        }
        proof {
            let ghost pre = cs@.subrange(0, i + 1);
            assert(pre.drop_last() =~= cs@.subrange(0, i as int));
            assert(pre.last() == c);
            assert(out@ =~= before + escaped_char(c));
        }
        i = i + 1;
    }
    proof {
        assert(cs@.subrange(0, cs@.len() as int) =~= s@);
    }
    out
}

/// The script that shows a notification with `title` and `body` and the
/// default sound.
pub open spec fn spec_notification_script(title: Seq<char>, body: Seq<char>) -> Seq<char> {
    "display notification \""@ + applescript_escaped(body) + "\" with title \""@
        + applescript_escaped(title) + "\" sound name \"default\""@
}

/// The script that shows a notification (see `spec_notification_script`).
pub fn notification_script(title: &str, body: &str) -> (script: String)
    ensures
        script@ == spec_notification_script(title@, body@),
{
    let b = applescript_escape(body);
    let t = applescript_escape(title);
    "display notification \"".to_owned().concat(b.as_str()).concat("\" with title \"").concat(
        t.as_str(),
    ).concat("\" sound name \"default\"")
}

} // verus!
