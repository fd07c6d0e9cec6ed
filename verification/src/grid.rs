//! The uniform result grid and the aggregation of per-statement outputs
//! into one grid.
//!
//! The first non-empty header set becomes the grid's headers; before a
//! later statement's rows, when output rows already exist, one separator
//! row of `---` cells marks the statement boundary; and a failing
//! statement makes the whole submission fail, discarding the rows already
//! gathered.

use vstd::prelude::*;
use vstd::string::*;
use crate::connection::SessionError;
use crate::text::{dec_digits, u64_to_string};
use crate::value::{spec_value_to_text, value_to_text, Backend, CellValue};

verus! {

/// Every row has exactly one cell per header.
pub open spec fn rows_fit(headers: Seq<Seq<char>>, rows: Seq<Seq<Seq<char>>>) -> bool {
    forall|i: int| 0 <= i < rows.len() ==> (#[trigger] rows[i]).len() == headers.len()
}

/// The uniform headers-plus-rows structure produced by execution,
/// independent of backend.
#[derive(Clone, Debug)]
pub struct ResultGrid {
    pub headers: Vec<String>,
    pub rows: Vec<Vec<String>>,
}

impl ResultGrid {
    /// The grid invariant: every row's length equals the header length,
    /// and rows exist only under headers.
    pub open spec fn wf(&self) -> bool {
        rows_fit(self.headers.deep_view(), self.rows.deep_view()) && (self.rows.deep_view().len()
            > 0 ==> self.headers.deep_view().len() > 0)
    }

    /// The empty grid: no headers, no rows.
    pub fn new() -> (g: ResultGrid)
        ensures
            g.wf(),
            g.headers.deep_view() == Seq::<Seq<char>>::empty(),
            g.rows.deep_view() == Seq::<Seq<Seq<char>>>::empty(),
    {
        let g = ResultGrid { headers: Vec::new(), rows: Vec::new() };
        proof {
            assert(g.headers.deep_view() =~= Seq::<Seq<char>>::empty());
            assert(g.rows.deep_view() =~= Seq::<Seq<Seq<char>>>::empty());
        }
        g
    }
}

/// The text reporting how many rows a write statement changed.
pub open spec fn affected_text(n: nat) -> Seq<char> {
    dec_digits(n) + " row(s) affected"@
}

/// Formats the affected-row report of a write statement.
pub fn affected_row_text(count: u64) -> (r: String)
    ensures
        r@ == affected_text(count as nat),
{
    let mut out = u64_to_string(count);
    out.append(" row(s) affected");
    assert(out@ =~= affected_text(count as nat));
    out
}

/// The synthetic one-column, one-row output of a write statement: header
/// `Result`, one cell reporting the affected-row count.
pub fn affected_statement(count: u64) -> (r: (Vec<String>, Vec<Vec<String>>))
    ensures
        r.0.deep_view() =~= seq!["Result"@],
        r.1.deep_view() =~= seq![seq![affected_text(count as nat)]],
{
    let mut headers: Vec<String> = Vec::new();
    headers.push(String::new().concat("Result"));
    let mut row: Vec<String> = Vec::new();
    row.push(affected_row_text(count));
    let mut rows: Vec<Vec<String>> = Vec::new();
    proof {
        assert(Seq::<char>::empty() + "Result"@ =~= "Result"@);
        assert(headers.deep_view() =~= seq!["Result"@]);
        assert(row.deep_view() =~= seq![affected_text(count as nat)]);
    }
    let ghost row_dv = row.deep_view();
    rows.push(row);
    proof {
        assert(rows.deep_view() =~= seq![row_dv]);
    }
    (headers, rows)
}

/// Converts one fetched block of raw cells into display text, cell by
/// cell, using each column's reported type name.
pub fn normalize_rows(b: Backend, tnames: &Vec<String>, cells: &Vec<Vec<CellValue>>) -> (r: Vec<
    Vec<String>,
>)
    requires
        forall|i: int| 0 <= i < cells@.len() ==> (#[trigger] cells@[i])@.len() == tnames@.len(),
    ensures
        r.deep_view().len() == cells@.len(),
        forall|i: int| 0 <= i < r.deep_view().len() ==> (#[trigger] r.deep_view()[i]).len()
            == tnames@.len(),
        forall|i: int, j: int|
            0 <= i < cells@.len() && 0 <= j < tnames@.len() ==> r.deep_view()[i][j]
                == spec_value_to_text(b, tnames@[j]@, cells@[i]@[j]),
{
    let mut out: Vec<Vec<String>> = Vec::new();
    let mut i: usize = 0;
    while i < cells.len()
        invariant
            i <= cells@.len(),
            forall|k: int| 0 <= k < cells@.len() ==> (#[trigger] cells@[k])@.len()
                == tnames@.len(),
            out.deep_view().len() == i,
            forall|k: int| 0 <= k < i ==> (#[trigger] out.deep_view()[k]).len() == tnames@.len(),
            forall|k: int, j: int|
                0 <= k < i && 0 <= j < tnames@.len() ==> out.deep_view()[k][j]
                    == spec_value_to_text(b, tnames@[j]@, cells@[k]@[j]),
        decreases cells@.len() - i,
    {
        let row = &cells[i];
        let mut line: Vec<String> = Vec::new();
        let mut j: usize = 0;
        while j < row.len()
            invariant
                j <= row@.len(),
                row@.len() == tnames@.len(),
                row == &cells@[i as int],
                i < cells@.len(),
                line.deep_view().len() == j,
                forall|m: int| 0 <= m < j ==> #[trigger] line.deep_view()[m] == spec_value_to_text(
                    b,
                    tnames@[m]@,
                    cells@[i as int]@[m],
                ),
            decreases row@.len() - j,
        {
            let cell = value_to_text(b, tnames[j].as_str(), &row[j]);
            let ghost prev = line.deep_view();
            line.push(cell);
            proof {
                assert(line.deep_view() =~= prev.push(cell@));
            }
            j += 1;
        }
        let ghost prev_out = out.deep_view();
        let ghost line_dv = line.deep_view();
        out.push(line);
        proof {
            assert(out.deep_view() =~= prev_out.push(line_dv));
        }
        i += 1;
    }
    out
}

/// Which headers the grid keeps after one more statement: the first
/// non-empty header set seen.
pub open spec fn adopted(old_h: Seq<Seq<char>>, new_h: Seq<Seq<char>>) -> Seq<Seq<char>> {
    if old_h.len() == 0 {
        new_h
    } else {
        old_h
    }
}

/// One separator row: `---` in every cell, at least one cell.
pub open spec fn sep_row(w: int) -> Seq<Seq<char>> {
    Seq::new(
        if w < 1 {
            1nat
        } else {
            w as nat
        },
        |i: int| "---"@,
    )
}

/// A row cut or padded with empty cells to exactly `w` cells.
pub open spec fn fit_row(row: Seq<Seq<char>>, w: int) -> Seq<Seq<char>> {
    Seq::new(
        if w < 0 {
            0nat
        } else {
            w as nat
        },
        |i: int|
            if i < row.len() {
                row[i]
            } else {
                Seq::<char>::empty()
            },
    )
}

/// Every row of a block fitted to `w` cells.
pub open spec fn fit_rows(rows: Seq<Seq<Seq<char>>>, w: int) -> Seq<Seq<Seq<char>>> {
    Seq::new(rows.len(), |i: int| fit_row(rows[i], w))
}

/// The grid rows after appending one statement's output: the old rows,
/// then — when a statement came before and rows already exist — one
/// separator row, then the new rows fitted to the adopted header count.
pub open spec fn rows_after_append(
    old_h: Seq<Seq<char>>,
    old_rows: Seq<Seq<Seq<char>>>,
    started: bool,
    new_h: Seq<Seq<char>>,
    new_rows: Seq<Seq<Seq<char>>>,
) -> Seq<Seq<Seq<char>>> {
    old_rows + (if started && old_rows.len() > 0 {
        seq![sep_row(adopted(old_h, new_h).len() as int)]
    } else {
        Seq::<Seq<Seq<char>>>::empty()
    }) + fit_rows(new_rows, adopted(old_h, new_h).len() as int)
}

/// Builds one grid from the outputs of a submission's statements, in
/// order.
pub struct GridBuilder {
    pub grid: ResultGrid,
    pub started: bool,
}

impl GridBuilder {
    pub open spec fn wf(&self) -> bool {
        self.grid.wf()
    }

    /// A builder holding the empty grid, no statement seen yet.
    pub fn new() -> (b: GridBuilder)
        ensures
            b.wf(),
            !b.started,
            b.grid.headers.deep_view() == Seq::<Seq<char>>::empty(),
            b.grid.rows.deep_view() == Seq::<Seq<Seq<char>>>::empty(),
    {
        GridBuilder { grid: ResultGrid::new(), started: false }
    }

    /// Appends one statement's output: adopts its headers when none are
    /// adopted yet, marks the statement boundary with a separator row when
    /// rows already exist, and fits the new rows to the adopted width.
    pub fn append_statement(&mut self, headers: Vec<String>, rows: Vec<Vec<String>>)
        requires
            old(self).wf(),
            rows_fit(headers.deep_view(), rows.deep_view()),
            rows.deep_view().len() > 0 ==> headers.deep_view().len() > 0,
        ensures
            final(self).wf(),
            final(self).started,
            final(self).grid.headers.deep_view() == adopted(
                old(self).grid.headers.deep_view(),
                headers.deep_view(),
            ),
            final(self).grid.rows.deep_view() == rows_after_append(
                old(self).grid.headers.deep_view(),
                old(self).grid.rows.deep_view(),
                old(self).started,
                headers.deep_view(),
                rows.deep_view(),
            ),
    {
        let ghost old_h = self.grid.headers.deep_view();
        let ghost old_rows = self.grid.rows.deep_view();
        let ghost new_h = headers.deep_view();
        let ghost new_rows = rows.deep_view();
        if self.grid.headers.len() == 0 {
            proof {
                assert(old_h.len() == 0);
            }
            self.grid.headers = headers;
        }
        proof {
            assert(self.grid.headers.deep_view() =~= adopted(old_h, new_h));
        }
        let w = self.grid.headers.len();
        let ghost sep_part = if self.started && old_rows.len() > 0 {
            seq![sep_row(w as int)]
        } else {
            Seq::<Seq<Seq<char>>>::empty()
        };
        if self.started && self.grid.rows.len() > 0 {
            proof {
                assert(old_rows.len() > 0);
                assert(old_h.len() > 0);
            }
            let mut sep: Vec<String> = Vec::new();
            let mut k: usize = 0;
            while k < w
                invariant
                    k <= w,
                    sep.deep_view().len() == k,
                    forall|m: int| 0 <= m < k ==> #[trigger] sep.deep_view()[m] == "---"@,
                decreases w - k,
            {
                let cell = String::new().concat("---");
                let ghost prev = sep.deep_view();
                sep.push(cell);
                proof {
                    assert(Seq::<char>::empty() + "---"@ =~= "---"@);
                    assert(sep.deep_view() =~= prev.push(cell@));
                }
                k += 1;
            }
            proof {
                assert(sep.deep_view() =~= sep_row(w as int));
            }
            let ghost prev_rows = self.grid.rows.deep_view();
            let ghost sep_dv = sep.deep_view();
            self.grid.rows.push(sep);
            proof {
                assert(self.grid.rows.deep_view() =~= prev_rows.push(sep_dv));
            }
        }
        proof {
            assert(self.grid.rows.deep_view() =~= old_rows + sep_part);
        }
        let mut i: usize = 0;
        while i < rows.len()
            invariant
                i <= rows@.len(),
                w as int == adopted(old_h, new_h).len(),
                new_rows == rows.deep_view(),
                new_rows.len() == rows@.len(),
                self.grid.headers.deep_view().len() == w as int,
                self.grid.headers.deep_view() == adopted(old_h, new_h),
                self.started == old(self).started,
                self.grid.rows.deep_view() =~= old_rows + sep_part + fit_rows(
                    new_rows.subrange(0, i as int),
                    w as int,
                ),
            decreases rows@.len() - i,
        {
            let src = &rows[i];
            let mut fitted: Vec<String> = Vec::new();
            let take = if src.len() < w {
                src.len()
            } else {
                w
            };
            let mut j: usize = 0;
            while j < take
                invariant
                    j <= take,
                    take <= src@.len(),
                    take <= w,
                    src == &rows@[i as int],
                    i < rows@.len(),
                    fitted.deep_view().len() == j,
                    forall|m: int| 0 <= m < j ==> #[trigger] fitted.deep_view()[m]
                        == src.deep_view()[m],
                decreases take - j,
            {
                let cell = src[j].clone();
                let ghost prev = fitted.deep_view();
                fitted.push(cell);
                proof {
                    assert(fitted.deep_view() =~= prev.push(cell@));
                    assert(cell@ == src.deep_view()[j as int]);
                }
                j += 1;
            }
            while j < w
                invariant
                    take <= j <= w,
                    take <= src@.len(),
                    src == &rows@[i as int],
                    i < rows@.len(),
                    fitted.deep_view().len() == j,
                    forall|m: int| 0 <= m < take ==> #[trigger] fitted.deep_view()[m]
                        == src.deep_view()[m],
                    forall|m: int| take <= m < j ==> #[trigger] fitted.deep_view()[m] == Seq::<
                        char,
                    >::empty(),
                decreases w - j,
            {
                let cell = String::new();
                let ghost prev = fitted.deep_view();
                fitted.push(cell);
                proof {
                    assert(fitted.deep_view() =~= prev.push(Seq::<char>::empty()));
                }
                j += 1;
            }
            proof {
                assert(rows.deep_view()[i as int] == rows@[i as int].deep_view());
                if (src.deep_view().len() as int) < w as int {
                    assert(take as int == src.deep_view().len());
                } else {
                    assert(take as int == w as int);
                }
                assert(fitted.deep_view() =~= fit_row(new_rows[i as int], w as int));
            }
            let ghost prev_rows = self.grid.rows.deep_view();
            let ghost fitted_dv = fitted.deep_view();
            self.grid.rows.push(fitted);
            i += 1;
            proof {
                assert(self.grid.rows.deep_view() =~= prev_rows.push(fitted_dv));
                assert(self.grid.rows.deep_view() =~= old_rows + sep_part + fit_rows(
                    new_rows.subrange(0, i as int),
                    w as int,
                ));
            }
        }
        self.started = true;
        proof {
            assert(new_rows.subrange(0, new_rows.len() as int) =~= new_rows);
            assert(self.grid.rows.deep_view() =~= rows_after_append(
                old_h,
                old_rows,
                old(self).started,
                new_h,
                new_rows,
            ));
            let fh = self.grid.headers.deep_view();
            let fr = self.grid.rows.deep_view();
            assert forall|k: int| 0 <= k < fr.len() implies (#[trigger] fr[k]).len()
                == fh.len() by {
                let fits = fit_rows(new_rows, w as int);
                assert(fr =~= old_rows + sep_part + fits);
                if k < old_rows.len() {
                    assert(fr[k] == old_rows[k]);
                    assert(old_rows[k].len() == old_h.len());
                } else if k < old_rows.len() + sep_part.len() {
                    assert(fr[k] == sep_row(w as int));
                } else {
                    assert(fr[k] == fits[k - old_rows.len() - sep_part.len()]);
                }
            }
            if fr.len() > 0 {
                if old_rows.len() > 0 {
                    assert(old_h.len() > 0);
                } else if sep_part.len() > 0 {
                    assert(old_rows.len() > 0);
                } else {
                    assert(new_rows.len() > 0);
                    assert(new_h.len() > 0);
                }
            }
        }
    }

    /// Hands the aggregated grid over.
    pub fn finish(self) -> (g: ResultGrid)
        ensures
            g == self.grid,
    {
        self.grid
    }
}

/// What one statement produced: a block of output, or the message of its
/// failure.
pub enum StatementOutcome {
    Output { headers: Vec<String>, rows: Vec<Vec<String>> },
    Failure(String),
}

/// A statement output whose rows match its headers and whose rows exist
/// only under headers.
pub open spec fn outcome_wf(o: StatementOutcome) -> bool {
    match o {
        StatementOutcome::Output { headers, rows } => rows_fit(
            headers.deep_view(),
            rows.deep_view(),
        ) && (rows.deep_view().len() > 0 ==> headers.deep_view().len() > 0),
        StatementOutcome::Failure(_) => true,
    }
}

/// Index of the first failed statement, if any failed.
pub open spec fn first_failure(outs: Seq<StatementOutcome>) -> Option<int>
    decreases outs.len(),
{
    if outs.len() == 0 {
        None
    } else {
        match outs[0] {
            StatementOutcome::Failure(m) => Some(0int),
            StatementOutcome::Output { headers, rows } => match first_failure(outs.drop_first()) {
                Some(k) => Some(k + 1),
                None => None,
            },
        }
    }
}

/// The message of a failed statement.
pub open spec fn failure_message(o: StatementOutcome) -> Seq<char> {
    match o {
        StatementOutcome::Failure(m) => m@,
        StatementOutcome::Output { headers, rows } => Seq::empty(),
    }
}

/// An index shifted inside an optional value.
pub open spec fn shifted(o: Option<int>, n: int) -> Option<int> {
    match o {
        Some(k) => Some(k + n),
        None => None,
    }
}

/// The headers and rows after folding a list of statement outputs into a
/// grid, starting from the given state.
pub open spec fn fold_outputs(
    acc_h: Seq<Seq<char>>,
    acc_rows: Seq<Seq<Seq<char>>>,
    started: bool,
    outs: Seq<StatementOutcome>,
) -> (Seq<Seq<char>>, Seq<Seq<Seq<char>>>)
    decreases outs.len(),
{
    if outs.len() == 0 {
        (acc_h, acc_rows)
    } else {
        match outs[0] {
            StatementOutcome::Output { headers, rows } => fold_outputs(
                adopted(acc_h, headers.deep_view()),
                rows_after_append(acc_h, acc_rows, started, headers.deep_view(), rows.deep_view()),
                true,
                outs.drop_first(),
            ),
            StatementOutcome::Failure(m) => (acc_h, acc_rows),
        }
    }
}

/// Aggregates the outputs of one submission's statements, in order. If
/// any statement failed, the whole submission fails with the first failed
/// statement's message and every row already gathered is discarded;
/// otherwise the grid holds the first non-empty header set and all rows,
/// separated at statement boundaries.
pub(crate) fn clone_string_vec(v: &Vec<String>) -> (r: Vec<String>)
    ensures
        r@ == v@,
{
    let mut out: Vec<String> = Vec::new();
    let mut i: usize = 0;
    while i < v.len()
        invariant
            i <= v@.len(),
            out@ == v@.subrange(0, i as int),
        decreases v@.len() - i,
    {
        out.push(v[i].clone());
        i += 1;
        assert(out@ =~= v@.subrange(0, i as int));
    }
    assert(out@ =~= v@);
    out
}

fn clone_rows(v: &Vec<Vec<String>>) -> (r: Vec<Vec<String>>)
    ensures
        r.deep_view() == v.deep_view(),
{
    let mut out: Vec<Vec<String>> = Vec::new();
    let mut i: usize = 0;
    while i < v.len()
        invariant
            i <= v@.len(),
            out@.len() == i,
            forall|k: int| 0 <= k < i ==> (#[trigger] out@[k])@ == v@[k]@,
        decreases v@.len() - i,
    {
        out.push(clone_string_vec(&v[i]));
        i += 1;
    }
    proof {
        assert forall|k: int| 0 <= k < v@.len() implies #[trigger] out.deep_view()[k]
            == v.deep_view()[k] by {
            assert(out@[k]@ == v@[k]@);
            assert(out.deep_view()[k] =~= v.deep_view()[k]);
        }
        assert(out.deep_view() =~= v.deep_view());
    }
    out
}

pub fn aggregate_outcomes(outs: &Vec<StatementOutcome>) -> (r: Result<ResultGrid, SessionError>)
    requires
        forall|i: int| 0 <= i < outs@.len() ==> outcome_wf(#[trigger] outs@[i]),
    ensures
        match first_failure(outs@) {
            Some(k) => r matches Err(e) && e matches SessionError::QueryError(m) && m@
                == failure_message(outs@[k]),
            None => r matches Ok(g) && g.wf() && (g.headers.deep_view(), g.rows.deep_view())
                == fold_outputs(
                Seq::<Seq<char>>::empty(),
                Seq::<Seq<Seq<char>>>::empty(),
                false,
                outs@,
            ),
        },
{
    let ghost all = outs@;
    let mut builder = GridBuilder::new();
    let mut i: usize = 0;
    proof {
        assert(all.skip(0) =~= all);
        assert(builder.grid.headers.deep_view() =~= Seq::<Seq<char>>::empty());
        assert(builder.grid.rows.deep_view() =~= Seq::<Seq<Seq<char>>>::empty());
    }
    while i < outs.len()
        invariant
            all == outs@,
            0 <= i <= all.len(),
            forall|k: int| 0 <= k < all.len() ==> outcome_wf(#[trigger] all[k]),
            builder.wf(),
            fold_outputs(Seq::<Seq<char>>::empty(), Seq::<Seq<Seq<char>>>::empty(), false, all)
                == fold_outputs(
                builder.grid.headers.deep_view(),
                builder.grid.rows.deep_view(),
                builder.started,
                all.skip(i as int),
            ),
            first_failure(all) == shifted(first_failure(all.skip(i as int)), i as int),
        decreases all.len() - i,
    {
        let ghost pre = all.skip(i as int);
        proof {
            assert(pre.len() > 0);
            assert(pre[0] == all[i as int]);
            assert(pre.drop_first() =~= all.skip(i as int + 1));
            assert(outcome_wf(all[i as int]));
        }
        match &outs[i] {
            StatementOutcome::Failure(m) => {
                proof {
                    assert(first_failure(pre) == Some(0int));
                    assert(first_failure(all) == Some(i as int));
                    assert(failure_message(all[i as int]) == m@);
                }
                return Err(SessionError::QueryError(m.clone()));
            },
            StatementOutcome::Output { headers, rows } => {
                let h = clone_string_vec(headers);
                let rws = clone_rows(rows);
                proof {
                    assert(h.deep_view() =~= headers.deep_view());
                    assert(rows_fit(h.deep_view(), rws.deep_view()));
                }
                builder.append_statement(h, rws);
            },
        }
        i += 1;
        proof {
            assert(first_failure(pre) == shifted(first_failure(all.skip(i as int)), 1));
        }
    }
    proof {
        assert(all.skip(i as int) =~= Seq::<StatementOutcome>::empty());
        assert(first_failure(all) is None);
    }
    Ok(builder.finish())
}

} // verus!
