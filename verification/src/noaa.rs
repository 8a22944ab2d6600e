//! Shape of NOAA's tabular products: an array of rows whose first row holds
//! the column headers.
use vstd::prelude::*;

verus! {

/// Columns a Kp forecast row needs: time tag, Kp, observed, NOAA scale.
pub const KP_FORECAST_COLUMNS: usize = 4;

/// Columns a solar wind row needs: time tag, speed, density, temperature,
/// bx, by, bz, bt.
pub const SOLAR_WIND_COLUMNS: usize = 8;

/// The data rows of a table: every row after the header row that has at
/// least `min_columns` cells, in order.
pub open spec fn data_rows_of<T>(rows: Seq<Vec<T>>, min_columns: usize) -> Seq<Vec<T>> {
    if rows.len() == 0 {
        Seq::empty()
    } else {
        rows.drop_first().filter(|r: Vec<T>| r@.len() >= min_columns)
    }
}

/// Drops the header row and the rows that are too short to read.
pub fn data_rows<T>(rows: Vec<Vec<T>>, min_columns: usize) -> (kept: Vec<Vec<T>>)
    ensures
        kept@ == data_rows_of(rows@, min_columns),
{
    let ghost all = rows@;
    let ghost p = |r: Vec<T>| r@.len() >= min_columns;
    let total = rows.len();
    let mut kept: Vec<Vec<T>> = Vec::new();
    if total == 0 {
        return kept;
    }
    let mut rest = rows;
    proof {
        reveal(Seq::filter);
        assert(all.subrange(total as int, total as int) =~= Seq::<Vec<T>>::empty());
        assert(all.subrange(0, total as int) =~= all);
    }
    while rest.len() > 1
        invariant
            total == all.len(),
            1 <= rest.len() <= total,
            p == (|r: Vec<T>| r@.len() >= min_columns),
            rest@ == all.subrange(0, rest.len() as int),
            kept@ == all.subrange(rest.len() as int, total as int).filter(p),
        decreases rest.len(),
    {
        let ghost k = rest.len() - 1;
        let row = rest.pop().unwrap();
        assert(row == all[k as int]);
        proof {
            let tail = all.subrange(k as int + 1, total as int);
            assert(all.subrange(k as int, total as int) =~= seq![row] + tail);
            tail.lemma_filter_prepend(row, p);
            assert(rest@ =~= all.subrange(0, k as int));
        }
        if row.len() >= min_columns {
            kept.insert(0, row);
        }
    }
    proof {
        assert(all.subrange(1, total as int) =~= all.drop_first());
    }
    kept
}

/// Law: a row after the header is kept exactly when it has at least
/// `min_columns` cells, however many more it has; the header is never kept
/// for its own sake, and everything kept is such a row.
pub proof fn lemma_data_rows_keep_long_rows<T>(rows: Seq<Vec<T>>, min_columns: usize)
    ensures
        forall|i: int|
            1 <= i < rows.len() ==> (data_rows_of(rows, min_columns).contains(#[trigger] rows[i])
                <==> rows[i]@.len() >= min_columns),
        forall|k: int|
            0 <= k < data_rows_of(rows, min_columns).len() ==> (#[trigger] data_rows_of(
                rows,
                min_columns,
            )[k])@.len() >= min_columns && exists|i: int|
                1 <= i < rows.len() && rows[i] == data_rows_of(rows, min_columns)[k],
        data_rows_of(rows, min_columns).len() <= rows.len(),
{
    if rows.len() > 0 {
        let rest = rows.drop_first();
        let p = |r: Vec<T>| r@.len() >= min_columns;
        let kept = rest.filter(p);
        rest.lemma_filter_len(p);
        assert forall|i: int| 1 <= i < rows.len() implies (kept.contains(#[trigger] rows[i])
            <==> rows[i]@.len() >= min_columns) by {
            assert(rest[i - 1] == rows[i]);
            if rows[i]@.len() >= min_columns {
                rest.lemma_filter_contains(p, i - 1);
            }
            if kept.contains(rows[i]) {
                let k = choose|k: int| 0 <= k < kept.len() && kept[k] == rows[i];
                rest.lemma_filter_pred(p, k);
            }
        }
        assert forall|k: int| 0 <= k < kept.len() implies (#[trigger] kept[k])@.len()
            >= min_columns && exists|i: int| 1 <= i < rows.len() && rows[i] == kept[k] by {
            rest.lemma_filter_pred(p, k);
            assert(kept.contains(kept[k]));
            rest.lemma_filter_contains_rev(p, kept[k]);
            let j = choose|j: int| 0 <= j < rest.len() && rest[j] == kept[k];
            assert(rows[j + 1] == kept[k]);
        }
    }
}

} // verus!
