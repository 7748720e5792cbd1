use vstd::prelude::*;

use crate::table::{FormatError, Table};
use crate::text::{
    append_padded, append_spaces, count_char, is_ws, is_ws_char, lemma_count_concat,
    lemma_count_pad, lemma_count_rtrim_zero, lemma_count_single, lemma_pad_extend,
    lemma_rtrim_no_trailing_ws, lemma_rtrim_take, newline_free, pad_right, rtrim, spaces,
};
use crate::widths::lemma_col_width_covers;

verus! {

/// The first `j` cells of a basic-style row: each field left-justified in
/// `widths[i] + spacing` characters, fields zipped against widths.
pub open spec fn basic_cells(row: Seq<Seq<char>>, widths: Seq<usize>, spacing: int, j: int) -> Seq<
    char,
>
    decreases j,
{
    if j <= 0 {
        Seq::empty()
    } else {
        basic_cells(row, widths, spacing, j - 1) + pad_right(
            row[j - 1],
            widths[j - 1] + spacing,
        )
    }
}

/// One basic-style line: the row's cells, trailing whitespace removed, then
/// a newline. Fields beyond the width count, or widths beyond the field
/// count, are not rendered: the row is zipped up to the shorter length.
pub open spec fn basic_line(row: Seq<Seq<char>>, widths: Seq<usize>, spacing: int) -> Seq<char> {
    rtrim(
        basic_cells(
            row,
            widths,
            spacing,
            vstd::math::min(row.len() as int, widths.len() as int),
        ),
    ) + seq!['\n']
}

/// The first `k` lines of basic-style output.
pub open spec fn basic_upto(
    rows: Seq<Seq<Seq<char>>>,
    widths: Seq<usize>,
    spacing: int,
    k: int,
) -> Seq<char>
    decreases k,
{
    if k <= 0 {
        Seq::empty()
    } else {
        basic_upto(rows, widths, spacing, k - 1) + basic_line(rows[k - 1], widths, spacing)
    }
}

/// Basic-style output: one line per record, in record order; empty when
/// there are no records.
pub open spec fn basic_output(rows: Seq<Seq<Seq<char>>>, widths: Seq<usize>, spacing: int) -> Seq<
    char,
> {
    basic_upto(rows, widths, spacing, rows.len() as int)
}

/// Builds the basic-style text for a well-formed table.
fn basic_text(t: &Table, spacing: usize) -> (s: String)
    requires
        t.wf(),
    ensures
        s@ == basic_output(t.records.deep_view(), t.widths@, spacing as int),
{
    let ghost rows = t.records.deep_view();
    let ghost widths = t.widths@;
    let ghost sp = spacing as int;
    let mut out = String::from_str("");
    proof {
        reveal_strlit("");
        assert(out@ =~= Seq::<char>::empty());
    }
    let mut k: usize = 0;
    while k < t.records.len()
        invariant
            t.wf(),
            k <= t.records.len(),
            rows == t.records.deep_view(),
            widths == t.widths@,
            sp == spacing as int,
            rows.len() == t.records@.len(),
            out@ == basic_upto(rows, widths, sp, k as int),
        decreases t.records.len() - k,
    {
        proof {
            assert(rows[k as int] == t.records@[k as int].deep_view());
        }
        let ghost row = rows[k as int];
        let rl = t.records[k].len();
        let jmax: usize = if rl < t.widths.len() {
            rl
        } else {
            t.widths.len()
        };
        assert(jmax as int == vstd::math::min(row.len() as int, widths.len() as int));
        let mut line = String::from_str("");
        proof {
            reveal_strlit("");
            assert(line@ =~= Seq::<char>::empty());
        }
        let mut j: usize = 0;
        while j < jmax
            invariant
                t.wf(),
                k < t.records.len(),
                j <= jmax,
                rows == t.records.deep_view(),
                widths == t.widths@,
                sp == spacing as int,
                rows.len() == t.records@.len(),
                row == rows[k as int],
                jmax <= t.records@[k as int].len(),
                jmax <= widths.len(),
                line@ == basic_cells(row, widths, sp, j as int),
            decreases jmax - j,
        {
            let f = t.records[k][j].as_str();
            proof {
                assert(row[j as int] == t.records@[k as int]@[j as int]@);
                assert(f@ == row[j as int]);
                lemma_col_width_covers(rows, k as int, j as int);
                assert(row[j as int].len() <= widths[j as int]);
            }
            let wj = t.widths[j];
            append_padded(&mut line, f, wj);
            append_spaces(&mut line, spacing);
            proof {
                lemma_pad_extend(row[j as int], wj as int, sp);
                assert(line@ =~= basic_cells(row, widths, sp, j as int + 1));
            }
            j += 1;
        }
        let linelen = line.as_str().unicode_len();
        let mut end = linelen;
        while end > 0 && is_ws(line.as_str().get_char(end - 1))
            invariant
                end <= linelen,
                linelen == line@.len(),
                forall|i: int| end <= i < line@.len() ==> is_ws_char(#[trigger] line@[i]),
            decreases end,
        {
            end -= 1;
        }
        let trimmed = line.as_str().substring_char(0, end);
        proof {
            lemma_rtrim_take(line@, end as int);
            assert(trimmed@ == line@.take(end as int));
        }
        out.append(trimmed);
        out.append("\n");
        proof {
            reveal_strlit("\n");
            assert("\n"@ =~= seq!['\n']);
            assert(basic_upto(rows, widths, sp, k as int + 1) == basic_upto(
                rows,
                widths,
                sp,
                k as int,
            ) + basic_line(row, widths, sp));
            assert(out@ =~= basic_upto(rows, widths, sp, k as int + 1));
        }
        k += 1;
    }
    out
}

/// The lines of basic-style output, one per record, in record order.
pub open spec fn basic_lines(rows: Seq<Seq<Seq<char>>>, widths: Seq<usize>, spacing: int) -> Seq<
    Seq<char>,
> {
    Seq::new(rows.len(), |k: int| basic_line(rows[k], widths, spacing))
}

proof fn lemma_basic_cells_newline_count(
    row: Seq<Seq<char>>,
    widths: Seq<usize>,
    spacing: int,
    j: int,
)
    requires
        0 <= j <= row.len(),
        j <= widths.len(),
        forall|i: int| 0 <= i < row.len() ==> count_char(#[trigger] row[i], '\n') == 0,
    ensures
        count_char(basic_cells(row, widths, spacing, j), '\n') == 0,
    decreases j,
{
    if j > 0 {
        lemma_basic_cells_newline_count(row, widths, spacing, j - 1);
        lemma_count_concat(
            basic_cells(row, widths, spacing, j - 1),
            pad_right(row[j - 1], widths[j - 1] + spacing),
            '\n',
        );
        lemma_count_pad(row[j - 1], widths[j - 1] + spacing, '\n');
    }
}

proof fn lemma_basic_line_newline_count(row: Seq<Seq<char>>, widths: Seq<usize>, spacing: int)
    requires
        forall|i: int| 0 <= i < row.len() ==> count_char(#[trigger] row[i], '\n') == 0,
    ensures
        count_char(basic_line(row, widths, spacing), '\n') == 1,
{
    let m = vstd::math::min(row.len() as int, widths.len() as int);
    let cells = basic_cells(row, widths, spacing, m);
    lemma_basic_cells_newline_count(row, widths, spacing, m);
    lemma_count_rtrim_zero(cells, '\n');
    lemma_count_concat(rtrim(cells), seq!['\n'], '\n');
    lemma_count_single('\n', '\n');
}

proof fn lemma_basic_upto_flatten(
    rows: Seq<Seq<Seq<char>>>,
    widths: Seq<usize>,
    spacing: int,
    k: int,
)
    requires
        0 <= k <= rows.len(),
    ensures
        basic_upto(rows, widths, spacing, k) == basic_lines(rows, widths, spacing).take(
            k,
        ).flatten_alt(),
    decreases k,
{
    let lines = basic_lines(rows, widths, spacing);
    if k == 0 {
        assert(lines.take(0).flatten_alt() =~= Seq::<char>::empty());
    } else {
        lemma_basic_upto_flatten(rows, widths, spacing, k - 1);
        assert(lines.take(k).drop_last() =~= lines.take(k - 1));
        assert(lines.take(k).last() == basic_line(rows[k - 1], widths, spacing));
    }
}

proof fn lemma_basic_upto_count(rows: Seq<Seq<Seq<char>>>, widths: Seq<usize>, spacing: int, k: int)
    requires
        0 <= k <= rows.len(),
        newline_free(rows),
    ensures
        count_char(basic_upto(rows, widths, spacing, k), '\n') == k,
    decreases k,
{
    if k > 0 {
        lemma_basic_upto_count(rows, widths, spacing, k - 1);
        lemma_count_concat(
            basic_upto(rows, widths, spacing, k - 1),
            basic_line(rows[k - 1], widths, spacing),
            '\n',
        );
        assert(forall|i: int|
            0 <= i < rows[k - 1].len() ==> count_char(#[trigger] rows[k - 1][i], '\n') == 0);
        lemma_basic_line_newline_count(rows[k - 1], widths, spacing);
    }
}

/// Basic-style output is exactly one line per record, the lines standing in
/// record order: it is the concatenation of the per-record lines, each line
/// ends in its own single newline, and no line carries trailing whitespace
/// before that newline. Stated for records whose fields hold no newline of
/// their own, since a field's embedded newline would split its line.
pub proof fn lemma_basic_format_lines(rows: Seq<Seq<Seq<char>>>, widths: Seq<usize>, spacing: int)
    requires
        newline_free(rows),
    ensures
        basic_output(rows, widths, spacing) == basic_lines(rows, widths, spacing).flatten(),
        basic_lines(rows, widths, spacing).len() == rows.len(),
        forall|k: int|
            0 <= k < rows.len() ==> #[trigger] basic_lines(rows, widths, spacing)[k]
                == basic_line(rows[k], widths, spacing),
        forall|k: int|
            0 <= k < rows.len() ==> count_char(
                #[trigger] basic_lines(rows, widths, spacing)[k],
                '\n',
            ) == 1,
        forall|k: int|
            0 <= k < rows.len() ==> {
                let line = #[trigger] basic_lines(rows, widths, spacing)[k];
                line.len() > 0 && line.last() == '\n' && (line.len() > 1 ==> !is_ws_char(
                    line[line.len() - 2],
                ))
            },
        count_char(basic_output(rows, widths, spacing), '\n') == rows.len(),
{
    let lines = basic_lines(rows, widths, spacing);
    lemma_basic_upto_flatten(rows, widths, spacing, rows.len() as int);
    assert(lines.take(rows.len() as int) =~= lines);
    lines.lemma_flatten_and_flatten_alt_are_equivalent();
    lemma_basic_upto_count(rows, widths, spacing, rows.len() as int);
    assert forall|k: int| 0 <= k < rows.len() implies count_char(
        #[trigger] lines[k],
        '\n',
    ) == 1 by {
        assert(forall|i: int|
            0 <= i < rows[k].len() ==> count_char(#[trigger] rows[k][i], '\n') == 0);
        lemma_basic_line_newline_count(rows[k], widths, spacing);
    }
    assert forall|k: int| 0 <= k < rows.len() implies {
        let line = #[trigger] lines[k];
        line.len() > 0 && line.last() == '\n' && (line.len() > 1 ==> !is_ws_char(
            line[line.len() - 2],
        ))
    } by {
        let m = vstd::math::min(rows[k].len() as int, widths.len() as int);
        let cells = basic_cells(rows[k], widths, spacing, m);
        assert(lines[k] == rtrim(cells) + seq!['\n']);
        assert(lines[k].last() == '\n');
        lemma_rtrim_no_trailing_ws(cells);
        if lines[k].len() > 1 {
            assert(lines[k][lines[k].len() - 2] == rtrim(cells).last());
        }
    }
}

/// Renders the table in the basic style: each field left-justified and
/// padded to `widths[i] + spacing` characters, each row trimmed of trailing
/// whitespace and ended with a newline. Building the text in memory cannot
/// fail, so the result is always the output string.
pub fn basic_format(t: &Table, spacing: usize) -> (r: Result<String, FormatError>)
    requires
        t.wf(),
    ensures
        r matches Ok(s) && s@ == basic_output(t.records.deep_view(), t.widths@, spacing as int),
{
    Ok(basic_text(t, spacing))
}

} // verus!
