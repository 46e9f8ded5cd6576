//! The `list` view: pairing entries with their last-commit timestamps,
//! ordering them newest first with unknown timestamps last, and rendering a
//! timestamp for display.

use vstd::prelude::*;
use crate::metadata::EntryModel;
use crate::metadata::WorktreeEntry;
use chrono::TimeZone;
use vstd::multiset::Multiset;
use vstd::string::*;

verus! {

/// One row of the `list` table: an entry and its last-commit timestamp,
/// where `0` is the sentinel for "unknown".
pub struct ListRow {
    pub last_commit: i64,
    pub entry: WorktreeEntry,
}

/// The mathematical shape of a row.
pub ghost struct RowModel {
    pub last_commit: int,
    pub entry: EntryModel,
}

impl View for ListRow {
    type V = RowModel;

    open spec fn view(&self) -> RowModel {
        RowModel { last_commit: self.last_commit as int, entry: self.entry@ }
    }
}

/// The views of a sequence of rows.
pub open spec fn rows_model(s: Seq<ListRow>) -> Seq<RowModel> {
    Seq::new(s.len(), |i: int| s[i]@)
}

/// Newest first; rows with the unknown sentinel `0` end up after every row
/// with a positive timestamp.
pub open spec fn sorted_desc(s: Seq<RowModel>) -> bool {
    forall|i: int, j: int| 0 <= i <= j < s.len() ==> s[i].last_commit >= s[j].last_commit
}

/// Orders the rows of `list` by last-commit timestamp, newest first: the
/// result is a permutation of the input and is sorted descending.
pub fn sort_rows(rows: Vec<ListRow>) -> (r: Vec<ListRow>)
    ensures
        sorted_desc(rows_model(r@)),
        rows_model(r@).to_multiset() == rows_model(rows@).to_multiset(),
{
    broadcast use vstd::seq_lib::to_multiset_build;
    broadcast use vstd::seq_lib::to_multiset_remove;
    broadcast use vstd::seq_lib::to_multiset_contains;
    broadcast use vstd::multiset::group_multiset_axioms;

    let mut rest = rows;
    let mut out: Vec<ListRow> = Vec::new();
    proof {
        assert(rows_model(out@) =~= Seq::<RowModel>::empty());
        assert(rows_model(out@).to_multiset() =~= Multiset::<RowModel>::empty());
        assert(rows_model(out@).to_multiset().add(rows_model(rest@).to_multiset())
            =~= rows_model(rows@).to_multiset());
    }
    while rest.len() > 0
        invariant
            sorted_desc(rows_model(out@)),
            forall|i: int, j: int|
                0 <= i < out@.len() && 0 <= j < rest@.len() ==> rows_model(out@)[i].last_commit
                    >= rows_model(rest@)[j].last_commit,
            rows_model(out@).to_multiset().add(rows_model(rest@).to_multiset()) == rows_model(
                rows@,
            ).to_multiset(),
        decreases rest.len(),
    {
        let mut best: usize = 0;
        let mut k: usize = 1;
        while k < rest.len()
            invariant
                best < k <= rest@.len(),
                forall|t: int|
                    0 <= t < k ==> rest@[best as int]@.last_commit >= rows_model(
                        rest@,
                    )[t].last_commit,
            decreases rest@.len() - k,
        {
            if rest[k].last_commit > rest[best].last_commit {
                best = k;
            }
            k = k + 1;
        }
        let ghost pre_rest = rest@;
        let ghost pre_out = out@;
        let e = rest.remove(best);
        out.push(e);
        proof {
            broadcast use vstd::seq_lib::to_multiset_build;
            broadcast use vstd::seq_lib::to_multiset_remove;
            broadcast use vstd::seq_lib::to_multiset_contains;
            broadcast use vstd::multiset::group_multiset_axioms;

            let x = pre_rest[best as int]@;
            assert(rows_model(rest@) =~= rows_model(pre_rest).remove(best as int));
            assert(rows_model(out@) =~= rows_model(pre_out).push(x));
            assert(rows_model(pre_rest)[best as int] == x);
            assert(rows_model(rest@).to_multiset() == rows_model(pre_rest).to_multiset().remove(
                x,
            ));
            assert(rows_model(out@).to_multiset() == rows_model(pre_out).to_multiset().insert(x));
            assert(rows_model(pre_rest).contains(x)) by {
                assert(rows_model(pre_rest).len() > best as int);
                assert(rows_model(pre_rest)[best as int] == x);
            }
            assert(rows_model(pre_rest).to_multiset().count(x) > 0);
            assert(rows_model(out@).to_multiset().add(rows_model(rest@).to_multiset())
                =~= rows_model(pre_out).to_multiset().add(rows_model(pre_rest).to_multiset()));
            assert forall|i: int, j: int|
                0 <= i < out@.len() && 0 <= j < rest@.len() implies rows_model(
                out@,
            )[i].last_commit >= rows_model(rest@)[j].last_commit by {
                if i < pre_out.len() {
                    assert(rows_model(out@)[i] == rows_model(pre_out)[i]);
                }
                if j < best as int {
                    assert(rows_model(rest@)[j] == rows_model(pre_rest)[j]);
                } else {
                    assert(rows_model(rest@)[j] == rows_model(pre_rest)[j + 1]);
                }
            }
        }
    }
    proof {
        assert(rows_model(rest@).to_multiset() =~= Multiset::<RowModel>::empty());
        assert(rows_model(out@).to_multiset().add(Multiset::<RowModel>::empty()) =~= rows_model(
            out@,
        ).to_multiset());
    }
    out
}

/// Unknown timestamps sort last: once the rows are ordered newest first, no
/// row carrying the sentinel `0` stands before a row with a positive
/// (known) timestamp.
pub proof fn lemma_unknown_sorts_last(s: Seq<RowModel>, i: int, j: int)
    requires
        sorted_desc(s),
        0 <= i <= j < s.len(),
        s[i].last_commit == 0,
    ensures
        s[j].last_commit <= 0,
{
}

/// Relies on chrono: `TimeZone::timestamp_opt` on `Local`, `single`, and
/// `DateTime::format` with `"%Y-%m-%d %H:%M:%S"`. The rendering depends on
/// the machine's local time zone; the format has literal separators, so a
/// rendered value is never empty.
#[verifier::external_body]
fn format_local_timestamp(ts: i64) -> (r: Option<String>)
    ensures
        r matches Some(s) ==> s@.len() > 0,
{
    chrono::Local.timestamp_opt(ts, 0).single().map(|dt| dt.format("%Y-%m-%d %H:%M:%S").to_string())
}

/// Renders a last-commit timestamp for the `list` table: the sentinel for
/// "unknown" (and anything non-positive) shows as `"-"`, everything else as
/// a local date and time.
pub fn format_ts(ts: i64) -> (r: String)
    ensures
        ts <= 0 ==> r@ == "-"@,
        r@.len() > 0,
{
    proof {
        reveal_strlit("-");
    }
    if ts <= 0 {
        return String::from_str("-");
    }
    match format_local_timestamp(ts) {
        Some(s) => s,
        None => match format_local_timestamp(0) {
            Some(s) => s,
            None => String::from_str("-"),
        },
    }
}

} // verus!
