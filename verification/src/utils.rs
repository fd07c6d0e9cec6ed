//! Small text utilities shared across the client: duration formatting,
//! display truncation, input sanitizing, and the read-only query test.

use vstd::prelude::*;
use vstd::string::*;
use crate::text::{
    dec_digits, push_char, spec_starts_with_ci, starts_with_ci, str_eq, trim, trim_spec,
    u64_to_string,
};

verus! {

/// Relies on `Duration::as_secs`: returns the number of whole seconds in
/// the duration. Nothing further is assumed of the value.
#[verifier::external_body]
fn duration_secs(d: &core::time::Duration) -> u64 {
    d.as_secs()
}

/// The human-readable form of a whole number of seconds: seconds alone
/// under a minute, minutes and seconds under an hour, else hours and
/// minutes.
pub open spec fn spec_format_seconds(secs: int) -> Seq<char> {
    if secs < 60 {
        dec_digits(secs as nat) + seq!['s']
    } else if secs < 3600 {
        dec_digits((secs / 60) as nat) + seq!['m', ' '] + dec_digits((secs % 60) as nat)
            + seq!['s']
    } else {
        dec_digits((secs / 3600) as nat) + seq!['h', ' '] + dec_digits(((secs % 3600) / 60) as nat)
            + seq!['m']
    }
}

/// Formats a whole number of seconds as a human-readable string.
pub fn format_seconds(secs: u64) -> (r: String)
    ensures
        r@ == spec_format_seconds(secs as int),
{
    if secs < 60 {
        let mut out = u64_to_string(secs);
        push_char(&mut out, 's');
        assert(out@ =~= spec_format_seconds(secs as int));
        out
    } else if secs < 3600 {
        let mut out = u64_to_string(secs / 60);
        push_char(&mut out, 'm');
        push_char(&mut out, ' ');
        let rest = u64_to_string(secs % 60);
        let mut out = out.concat(rest.as_str());
        push_char(&mut out, 's');
        assert(out@ =~= spec_format_seconds(secs as int));
        out
    } else {
        let mut out = u64_to_string(secs / 3600);
        push_char(&mut out, 'h');
        push_char(&mut out, ' ');
        let rest = u64_to_string((secs % 3600) / 60);
        let mut out = out.concat(rest.as_str());
        push_char(&mut out, 'm');
        assert(out@ =~= spec_format_seconds(secs as int));
        out
    }
}

/// Formats a duration into a human-readable string from its whole seconds.
pub fn format_duration(duration: core::time::Duration) -> (r: String)
    ensures
        exists|secs: int| 0 <= secs && r@ == spec_format_seconds(secs),
{
    let secs = duration_secs(&duration);
    let r = format_seconds(secs);
    proof {
        assert(r@ == spec_format_seconds(secs as int));
    }
    r
}

/// `s` cut to at most `max_len` characters, the last three replaced by
/// `...` when it is cut.
pub open spec fn spec_truncate(s: Seq<char>, max_len: int) -> Seq<char> {
    if s.len() <= max_len {
        s
    } else {
        s.subrange(
            0,
            if max_len >= 3 {
                max_len - 3
            } else {
                0
            },
        ) + seq!['.', '.', '.']
    }
}

/// Truncates a string to a maximum character count, adding `...` when it
/// was truncated.
pub fn truncate_string(s: &str, max_len: usize) -> (r: String)
    ensures
        r@ == spec_truncate(s@, max_len as int),
{
    let len = s.unicode_len();
    if len <= max_len {
        s.to_owned()
    } else {
        let keep: usize = if max_len >= 3 {
            max_len - 3
        } else {
            0
        };
        let head = s.substring_char(0, keep);
        let r = head.to_owned().concat("...");
        proof {
            reveal_strlit("...");
            assert(r@ =~= spec_truncate(s@, max_len as int));
        }
        r
    }
}

/// Tells whether a database kind name is one of the supported backends.
pub fn is_valid_db_type(db_type: &str) -> (r: bool)
    ensures
        r == (db_type@ == "postgres"@ || db_type@ == "mysql"@ || db_type@ == "sqlite"@),
{
    str_eq(db_type, "postgres") || str_eq(db_type, "mysql") || str_eq(db_type, "sqlite")
}

/// A control character: the C0 range, DEL, and the C1 range.
pub open spec fn is_control_char(c: char) -> bool {
    (c as u32) < 32 || (127 <= c as u32 <= 159)
}

/// Characters that survive sanitizing: everything that is not a control
/// character, plus newline and tab.
pub open spec fn keeps_char(c: char) -> bool {
    !is_control_char(c) || c == '\n' || c == '\t'
}

/// `s` with the control characters other than newline and tab removed.
pub open spec fn sanitized(s: Seq<char>) -> Seq<char>
    decreases s.len(),
{
    if s.len() == 0 {
        s
    } else {
        (if keeps_char(s[0]) {
            seq![s[0]]
        } else {
            Seq::empty()
        }) + sanitized(s.drop_first())
    }
}

/// Sanitizes input by removing control characters, keeping newline and
/// tab.
pub fn sanitize_input(input: &str) -> (r: String)
    ensures
        r@ == sanitized(input@),
{
    let len = input.unicode_len();
    let mut out = String::new();
    let mut i: usize = 0;
    assert(input@.subrange(0, len as int) =~= input@);
    while i < len
        invariant
            len == input@.len(),
            i <= len,
            out@ + sanitized(input@.subrange(i as int, len as int)) == sanitized(input@),
        decreases len - i,
    {
        let c = input.get_char(i);
        let u = c as u32;
        let keep = !(u < 32 || (127 <= u && u <= 159)) || c == '\n' || c == '\t';
        proof {
            let tail = input@.subrange(i as int, len as int);
            assert(tail.len() > 0);
            assert(tail[0] == c);
            assert(tail.drop_first() =~= input@.subrange(i + 1, len as int));
        }
        if keep {
            push_char(&mut out, c);
        }
        i += 1;
        assert(out@ + sanitized(input@.subrange(i as int, len as int)) =~= sanitized(input@));
    }
    assert(input@.subrange(i as int, len as int) =~= Seq::<char>::empty());
    assert(out@ =~= sanitized(input@));
    out
}

/// A read-only query: its trimmed text begins, ignoring ASCII case, with
/// one of the row-producing keywords.
pub open spec fn is_readonly_spec(q: Seq<char>) -> bool {
    spec_starts_with_ci(trim_spec(q), "select"@) || spec_starts_with_ci(trim_spec(q), "show"@)
        || spec_starts_with_ci(trim_spec(q), "describe"@) || spec_starts_with_ci(
        trim_spec(q),
        "explain"@,
    )
}

/// Checks if a query is a read-only operation.
pub fn is_readonly_query(query: &str) -> (r: bool)
    ensures
        r == is_readonly_spec(query@),
{
    let t = trim(query);
    starts_with_ci(t, "select") || starts_with_ci(t, "show") || starts_with_ci(t, "describe")
        || starts_with_ci(t, "explain")
}

} // verus!
