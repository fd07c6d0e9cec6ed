//! Turning one submitted query text into an ordered list of trimmed,
//! non-empty statements, and classifying each statement as row-producing
//! or not.
//!
//! The split is purely lexical: a separator inside a string literal ends a
//! statement early. That limitation is deliberate; no quoting or comment
//! tracking is attempted.

use vstd::prelude::*;
use vstd::string::*;
use crate::connection::SessionError;
use crate::text::{
    is_space_char, spec_starts_with_ci, starts_with_ci, trim, trim_spec, lemma_trim_all_space,
};

verus! {

/// Index of the first separator at or after `i`, or the length of `s` if
/// there is none.
pub open spec fn first_sep(s: Seq<char>, i: int) -> int
    decreases s.len() - i,
{
    if i < 0 || i >= s.len() {
        s.len() as int
    } else if s[i] == ';' {
        i
    } else {
        first_sep(s, i + 1)
    }
}

pub proof fn lemma_first_sep(s: Seq<char>, i: int)
    requires
        0 <= i <= s.len(),
    ensures
        i <= first_sep(s, i) <= s.len(),
        forall|j: int| i <= j < first_sep(s, i) ==> s[j] != ';',
        first_sep(s, i) < s.len() ==> s[first_sep(s, i)] == ';',
    decreases s.len() - i,
{
    if i < s.len() && s[i] != ';' {
        lemma_first_sep(s, i + 1);
    }
}

proof fn lemma_first_sep_unique(s: Seq<char>, a: int)
    requires
        0 <= a <= s.len(),
        forall|j: int| 0 <= j < a ==> s[j] != ';',
        a < s.len() ==> s[a] == ';',
    ensures
        first_sep(s, 0) == a,
{
    lemma_first_sep_unique_from(s, 0, a);
}

proof fn lemma_first_sep_unique_from(s: Seq<char>, i: int, a: int)
    requires
        0 <= i <= a <= s.len(),
        forall|j: int| i <= j < a ==> s[j] != ';',
        a < s.len() ==> s[a] == ';',
    ensures
        first_sep(s, i) == a,
    decreases a - i,
{
    if i < a {
        lemma_first_sep_unique_from(s, i + 1, a);
    }
}

/// The statements of one submission: the pieces between separators, each
/// trimmed of surrounding whitespace, with empty pieces discarded, in
/// their original order.
pub open spec fn statements_of(text: Seq<char>) -> Seq<Seq<char>>
    decreases text.len(),
{
    let i = first_sep(text, 0);
    if i < 0 || i >= text.len() {
        if trim_spec(text).len() == 0 {
            Seq::empty()
        } else {
            seq![trim_spec(text)]
        }
    } else {
        let head = trim_spec(text.subrange(0, i));
        let tail = statements_of(text.subrange(i + 1, text.len() as int));
        if head.len() == 0 {
            tail
        } else {
            seq![head] + tail
        }
    }
}

/// Splits one submission on the statement separator, trims each piece,
/// and keeps the non-empty pieces in order.
pub fn split(text: &str) -> (r: Vec<String>)
    ensures
        r.deep_view() == statements_of(text@),
{
    let len = text.unicode_len();
    let mut out: Vec<String> = Vec::new();
    let mut start: usize = 0;
    let mut i: usize = 0;
    proof {
        assert(text@.subrange(0, len as int) =~= text@);
    }
    while i < len
        invariant
            len == text@.len(),
            start <= i <= len,
            out.deep_view() + statements_of(text@.subrange(start as int, len as int))
                =~= statements_of(text@),
            forall|j: int| start <= j < i ==> text@[j] != ';',
        decreases len - i,
    {
        if text.get_char(i) == ';' {
            let piece = text.substring_char(start, i);
            let t = trim(piece);
            let ghost old_dv = out.deep_view();
            if t.unicode_len() > 0 {
                out.push(t.to_owned());
            }
            proof {
                let rest = text@.subrange(start as int, len as int);
                assert forall|j: int| 0 <= j < i - start implies rest[j] != ';' by {
                    assert(rest[j] == text@[start + j]);
                }
                assert(rest[i - start as int] == ';');
                lemma_first_sep_unique(rest, i - start as int);
                assert(rest.subrange(0, i - start as int) =~= text@.subrange(
                    start as int,
                    i as int,
                ));
                assert(rest.subrange(i - start as int + 1, rest.len() as int) =~= text@.subrange(
                    i as int + 1,
                    len as int,
                ));
                assert(piece@ == text@.subrange(start as int, i as int));
                if t@.len() > 0 {
                    assert(out.deep_view() =~= old_dv.push(t@));
                    assert(old_dv.push(t@) =~= old_dv + seq![t@]);
                }
                assert(out.deep_view() + statements_of(text@.subrange(i as int + 1, len as int))
                    =~= statements_of(text@));
            }
            start = i + 1;
        }
        i += 1;
    }
    let piece = text.substring_char(start, len);
    let t = trim(piece);
    let ghost old_dv = out.deep_view();
    if t.unicode_len() > 0 {
        out.push(t.to_owned());
    }
    proof {
        let rest = text@.subrange(start as int, len as int);
        assert forall|j: int| 0 <= j < rest.len() implies rest[j] != ';' by {
            assert(rest[j] == text@[start + j]);
        }
        lemma_first_sep_unique(rest, rest.len() as int);
        assert(piece@ == rest);
        if t@.len() > 0 {
            assert(out.deep_view() =~= old_dv.push(t@));
            assert(old_dv.push(t@) =~= old_dv + seq![t@]);
        }
        assert(out.deep_view() =~= statements_of(text@));
    }
    out
}

/// Splitting text made only of whitespace and separators yields no
/// statements.
pub proof fn lemma_split_blank(text: Seq<char>)
    requires
        forall|i: int| 0 <= i < text.len() ==> is_space_char(text[i]) || text[i] == ';',
    ensures
        statements_of(text).len() == 0,
    decreases text.len(),
{
    lemma_first_sep(text, 0);
    let i = first_sep(text, 0);
    if 0 <= i < text.len() {
        let head = text.subrange(0, i);
        assert forall|j: int| 0 <= j < head.len() implies is_space_char(head[j]) by {
            assert(head[j] == text[j]);
            assert(text[j] != ';');
        }
        lemma_trim_all_space(head);
        let tail = text.subrange(i + 1, text.len() as int);
        assert(forall|j: int|
            0 <= j < tail.len() ==> is_space_char(#[trigger] tail[j]) || tail[j] == ';');
        lemma_split_blank(tail);
    } else {
        assert forall|j: int| 0 <= j < text.len() implies is_space_char(text[j]) by {
            assert(text[j] != ';');
        }
        lemma_trim_all_space(text);
    }
}

/// Readies one submission for execution: blank text is rejected before
/// any statement runs; anything else splits into its statement list,
/// which may still be empty for text made of separators alone.
pub fn prepare_submission(text: &str) -> (r: Result<Vec<String>, SessionError>)
    ensures
        trim_spec(text@).len() == 0 ==> r == Err::<Vec<String>, SessionError>(
            SessionError::EmptyQuery,
        ),
        trim_spec(text@).len() > 0 ==> (r matches Ok(stmts) && stmts.deep_view()
            == statements_of(text@)),
{
    let t = trim(text);
    if t.unicode_len() == 0 {
        Err(SessionError::EmptyQuery)
    } else {
        Ok(split(text))
    }
}

/// Whether a statement is expected to produce rows or only an
/// affected-row count.
#[derive(Clone, Copy, Debug, PartialEq, Eq, Structural)]
pub enum StatementKind {
    Read,
    Write,
}

/// A row-producing statement: its trimmed text begins, ignoring ASCII
/// case, with a keyword for retrieval, listing, description, plan
/// explanation, a common-table-expression entry, or a literal value list.
pub open spec fn is_read_statement(q: Seq<char>) -> bool {
    spec_starts_with_ci(trim_spec(q), "select"@) || spec_starts_with_ci(trim_spec(q), "show"@)
        || spec_starts_with_ci(trim_spec(q), "describe"@) || spec_starts_with_ci(
        trim_spec(q),
        "explain"@,
    ) || spec_starts_with_ci(trim_spec(q), "with"@) || spec_starts_with_ci(trim_spec(q), "values"@)
}

/// Classifies one statement as Read (row-producing) or Write.
pub fn classify(statement: &str) -> (k: StatementKind)
    ensures
        k == (if is_read_statement(statement@) {
            StatementKind::Read
        } else {
            StatementKind::Write
        }),
{
    let t = trim(statement);
    if starts_with_ci(t, "select") || starts_with_ci(t, "show") || starts_with_ci(t, "describe")
        || starts_with_ci(t, "explain") || starts_with_ci(t, "with") || starts_with_ci(
        t,
        "values",
    ) {
        StatementKind::Read
    } else {
        StatementKind::Write
    }
}

} // verus!
