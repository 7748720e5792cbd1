use vstd::prelude::*;

verus! {

/// Number of columns of a record set: the field count of its first record,
/// zero when there are no records.
pub open spec fn num_cols(rows: Seq<Seq<Seq<char>>>) -> nat {
    if rows.len() == 0 {
        0
    } else {
        rows[0].len()
    }
}

/// The widest field of column `j` over the given rows, in characters; rows
/// too short to reach column `j` take no part, and a column nobody reaches
/// is 0 wide.
pub open spec fn col_width(rows: Seq<Seq<Seq<char>>>, j: int) -> int
    decreases rows.len(),
{
    if rows.len() == 0 {
        0
    } else {
        let prev = col_width(rows.drop_last(), j);
        let r = rows.last();
        if 0 <= j < r.len() && r[j].len() > prev {
            r[j].len() as int
        } else {
            prev
        }
    }
}

/// One width per column of the record set.
pub open spec fn widths_of(rows: Seq<Seq<Seq<char>>>) -> Seq<usize> {
    Seq::new(num_cols(rows), |j: int| col_width(rows, j) as usize)
}

pub proof fn lemma_col_width_nonneg(rows: Seq<Seq<Seq<char>>>, j: int)
    ensures
        col_width(rows, j) >= 0,
    decreases rows.len(),
{
    if rows.len() > 0 {
        lemma_col_width_nonneg(rows.drop_last(), j);
    }
}

/// A column's width covers every field that stands in that column.
pub proof fn lemma_col_width_covers(rows: Seq<Seq<Seq<char>>>, k: int, j: int)
    requires
        0 <= k < rows.len(),
        0 <= j < rows[k].len(),
    ensures
        rows[k][j].len() <= col_width(rows, j),
    decreases rows.len(),
{
    let d = rows.drop_last();
    if k == rows.len() - 1 {
        assert(rows.last() == rows[k]);
        lemma_col_width_nonneg(d, j);
    } else {
        assert(d[k] == rows[k]);
        lemma_col_width_covers(d, k, j);
    }
}

/// Every record has the same field count.
pub open spec fn rectangular(rows: Seq<Seq<Seq<char>>>) -> bool {
    forall|k: int| 0 <= k < rows.len() ==> #[trigger] rows[k].len() == num_cols(rows)
}

/// For any non-empty rectangular record set, the width sequence has one
/// entry per field of the first record, and every width is at least the
/// length of every field in its column.
pub proof fn lemma_widths_cover(rows: Seq<Seq<Seq<char>>>)
    requires
        rows.len() > 0,
        rectangular(rows),
    ensures
        widths_of(rows).len() == rows[0].len(),
        forall|k: int, j: int|
            0 <= k < rows.len() && 0 <= j < rows[k].len() ==> (#[trigger] rows[k][j]).len()
                <= col_width(rows, j),
{
    assert forall|k: int, j: int|
        0 <= k < rows.len() && 0 <= j < rows[k].len() implies (#[trigger] rows[k][j]).len()
        <= col_width(rows, j) by {
        lemma_col_width_covers(rows, k, j);
    }
}

/// Derives, for each column index, the widest field of that column across
/// all records; the result has one entry per field of the first record.
pub fn calculate_widths(records: &Vec<Vec<String>>) -> (w: Vec<usize>)
    ensures
        w@.len() == num_cols(records.deep_view()),
        forall|j: int| 0 <= j < w@.len() ==> w@[j] == col_width(records.deep_view(), j),
        w@ == widths_of(records.deep_view()),
{
    let ghost rows = records.deep_view();
    proof {
        assert(rows.len() == records@.len());
        if records@.len() > 0 {
            assert(rows[0] == records@[0].deep_view());
        }
    }
    let n: usize = if records.len() == 0 {
        0
    } else {
        records[0].len()
    };
    assert(n as nat == num_cols(rows));
    let mut w: Vec<usize> = Vec::new();
    while w.len() < n
        invariant
            w@.len() <= n,
            forall|j: int| 0 <= j < w@.len() ==> w@[j] == 0,
        decreases n - w.len(),
    {
        w.push(0);
    }
    proof {
        assert(rows.take(0) =~= Seq::<Seq<Seq<char>>>::empty());
    }
    let mut k: usize = 0;
    while k < records.len()
        invariant
            k <= records.len(),
            rows == records.deep_view(),
            rows.len() == records@.len(),
            w@.len() == n as nat,
            n as nat == num_cols(rows),
            forall|j: int| 0 <= j < n ==> w@[j] == col_width(rows.take(k as int), j),
        decreases records.len() - k,
    {
        let m: usize = if records[k].len() < n {
            records[k].len()
        } else {
            n
        };
        proof {
            assert(rows[k as int] == records@[k as int].deep_view());
            assert(rows[k as int].len() == records@[k as int]@.len());
            assert(rows.take(k as int + 1).drop_last() =~= rows.take(k as int));
            assert(rows.take(k as int + 1).last() == rows[k as int]);
        }
        let mut j: usize = 0;
        while j < m
            invariant
                j <= m,
                k < records.len(),
                rows == records.deep_view(),
                rows.len() == records@.len(),
                w@.len() == n as nat,
                n as nat == num_cols(rows),
                m <= n,
                m <= records@[k as int].len(),
                m as nat == vstd::math::min(records@[k as int]@.len() as int, n as int),
                rows[k as int] == records@[k as int].deep_view(),
                rows.take(k as int + 1).drop_last() == rows.take(k as int),
                rows.take(k as int + 1).last() == rows[k as int],
                forall|jj: int|
                    0 <= jj < j ==> w@[jj] == col_width(rows.take(k as int + 1), jj),
                forall|jj: int|
                    j <= jj < n ==> w@[jj] == col_width(rows.take(k as int), jj),
            decreases m - j,
        {
            let flen = records[k][j].as_str().unicode_len();
            proof {
                assert(rows[k as int][j as int] == records@[k as int]@[j as int]@);
                assert(flen as nat == rows[k as int][j as int].len());
            }
            if flen > w[j] {
                w[j] = flen;
            }
            proof {
                let t1 = rows.take(k as int + 1);
                assert(col_width(t1, j as int) == {
                    let prev = col_width(rows.take(k as int), j as int);
                    if 0 <= j < rows[k as int].len() && rows[k as int][j as int].len() > prev {
                        rows[k as int][j as int].len() as int
                    } else {
                        prev
                    }
                });
                assert(w@[j as int] == col_width(t1, j as int));
            }
            j += 1;
        }
        proof {
            assert forall|jj: int| m <= jj < n implies w@[jj] == col_width(
                rows.take(k as int + 1),
                jj,
            ) by {
                assert(jj >= rows[k as int].len());
                let t1 = rows.take(k as int + 1);
                assert(col_width(t1, jj) == col_width(rows.take(k as int), jj));
            }
        }
        k += 1;
    }
    proof {
        assert(rows.take(records.len() as int) =~= rows);
        assert forall|j: int| 0 <= j < w@.len() implies w@[j] == widths_of(rows)[j] by {
            lemma_col_width_nonneg(rows, j);
        }
        assert(w@ =~= widths_of(rows));
    }
    w
}

} // verus!
