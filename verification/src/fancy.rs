use vstd::prelude::*;

use crate::table::{FormatError, Table};
use crate::text::{
    append_padded, append_repeat, append_spaces, count_char, lemma_count_concat, lemma_count_pad,
    lemma_count_repeat_other, lemma_count_single, lemma_repeat_concat, newline_free, pad_right,
    repeat_char, spaces,
};
use crate::widths::lemma_col_width_covers;

verus! {

/// The first `j` segments of a border line: a horizontal rule of
/// `widths[i] + 2*spacing` characters per column, columns joined by `mid`.
pub open spec fn border_cells(widths: Seq<usize>, spacing: int, mid: char, j: int) -> Seq<char>
    decreases j,
{
    if j <= 0 {
        Seq::empty()
    } else {
        border_cells(widths, spacing, mid, j - 1) + (if j - 1 > 0 {
            seq![mid]
        } else {
            Seq::empty()
        }) + repeat_char('─', widths[j - 1] + 2 * spacing)
    }
}

/// A full border line: `left`, one rule per column joined by `mid`, `right`,
/// newline. Over zero columns only the two corners remain.
pub open spec fn border_line(
    widths: Seq<usize>,
    spacing: int,
    left: char,
    mid: char,
    right: char,
) -> Seq<char> {
    seq![left] + border_cells(widths, spacing, mid, widths.len() as int) + seq![right] + seq!['\n']
}

/// The first `j` cells of a box-drawing data row: for each field a vertical
/// bar, `spacing` spaces, the field left-justified in `widths[i]`
/// characters, and `spacing` spaces again.
pub open spec fn fancy_cells(row: Seq<Seq<char>>, widths: Seq<usize>, spacing: int, j: int) -> Seq<
    char,
>
    decreases j,
{
    if j <= 0 {
        Seq::empty()
    } else {
        fancy_cells(row, widths, spacing, j - 1) + seq!['│'] + spaces(spacing) + pad_right(
            row[j - 1],
            widths[j - 1] as int,
        ) + spaces(spacing)
    }
}

/// One box-drawing data line: the row's cells, the closing bar, a newline.
/// The row is zipped against the widths up to the shorter length.
pub open spec fn fancy_row_line(row: Seq<Seq<char>>, widths: Seq<usize>, spacing: int) -> Seq<
    char,
> {
    fancy_cells(row, widths, spacing, vstd::math::min(row.len() as int, widths.len() as int))
        + seq!['│', '\n']
}

/// Whether a separator line is drawn immediately before data row `i`.
/// `headers` draws exactly one separator, after the first row, and takes
/// precedence over `separators`, which draws one before every later row.
pub open spec fn sep_before(headers: bool, separators: bool, i: int) -> bool {
    i > 0 && (if headers {
        i == 1
    } else {
        separators
    })
}

/// The body made of the first `k` data rows, each preceded by its separator
/// line where one is due.
pub open spec fn fancy_body(
    rows: Seq<Seq<Seq<char>>>,
    widths: Seq<usize>,
    headers: bool,
    separators: bool,
    spacing: int,
    k: int,
) -> Seq<char>
    decreases k,
{
    if k <= 0 {
        Seq::empty()
    } else {
        fancy_body(rows, widths, headers, separators, spacing, k - 1) + (if sep_before(
            headers,
            separators,
            k - 1,
        ) {
            border_line(widths, spacing, '├', '┼', '┤')
        } else {
            Seq::empty()
        }) + fancy_row_line(rows[k - 1], widths, spacing)
    }
}

/// Box-drawing output: top border, the data rows with their separators,
/// bottom border.
pub open spec fn fancy_output(
    rows: Seq<Seq<Seq<char>>>,
    widths: Seq<usize>,
    headers: bool,
    separators: bool,
    spacing: int,
) -> Seq<char> {
    border_line(widths, spacing, '┌', '┬', '┐') + fancy_body(
        rows,
        widths,
        headers,
        separators,
        spacing,
        rows.len() as int,
    ) + border_line(widths, spacing, '└', '┴', '┘')
}

/// Number of separator lines drawn among the first `k` data rows.
pub open spec fn sep_count_upto(headers: bool, separators: bool, k: int) -> int
    decreases k,
{
    if k <= 0 {
        0
    } else {
        sep_count_upto(headers, separators, k - 1) + if sep_before(headers, separators, k - 1) {
            1int
        } else {
            0int
        }
    }
}

/// How many separator lines a table of `n` records gets: one when `headers`
/// is set and there are at least two records — `headers` takes precedence
/// over `separators` —, `n - 1` when only `separators` is set, else none.
pub open spec fn sep_count(headers: bool, separators: bool, n: int) -> int {
    if n <= 1 {
        0
    } else if headers {
        1
    } else if separators {
        n - 1
    } else {
        0
    }
}

pub proof fn lemma_sep_count(headers: bool, separators: bool, n: int)
    requires
        n >= 0,
    ensures
        sep_count_upto(headers, separators, n) == sep_count(headers, separators, n),
    decreases n,
{
    if n > 0 {
        lemma_sep_count(headers, separators, n - 1);
    }
}

proof fn lemma_border_cells_newline_count(widths: Seq<usize>, spacing: int, mid: char, j: int)
    requires
        mid != '\n',
    ensures
        count_char(border_cells(widths, spacing, mid, j), '\n') == 0,
    decreases j,
{
    if j > 0 {
        lemma_border_cells_newline_count(widths, spacing, mid, j - 1);
        let a = border_cells(widths, spacing, mid, j - 1);
        let b = if j - 1 > 0 {
            seq![mid]
        } else {
            Seq::<char>::empty()
        };
        let c = repeat_char('─', widths[j - 1] + 2 * spacing);
        lemma_count_concat(a + b, c, '\n');
        lemma_count_concat(a, b, '\n');
        lemma_count_single(mid, '\n');
        lemma_count_repeat_other('─', '\n', widths[j - 1] + 2 * spacing);
        if j - 1 == 0 {
            assert(count_char(b, '\n') == 0);
        }
    }
}

proof fn lemma_border_line_newline_count(
    widths: Seq<usize>,
    spacing: int,
    l: char,
    m: char,
    r: char,
)
    requires
        l != '\n',
        m != '\n',
        r != '\n',
    ensures
        count_char(border_line(widths, spacing, l, m, r), '\n') == 1,
{
    let cells = border_cells(widths, spacing, m, widths.len() as int);
    lemma_border_cells_newline_count(widths, spacing, m, widths.len() as int);
    lemma_count_concat(seq![l], cells, '\n');
    lemma_count_concat(seq![l] + cells, seq![r], '\n');
    lemma_count_concat(seq![l] + cells + seq![r], seq!['\n'], '\n');
    lemma_count_single(l, '\n');
    lemma_count_single(r, '\n');
    lemma_count_single('\n', '\n');
}

proof fn lemma_fancy_cells_newline_count(
    row: Seq<Seq<char>>,
    widths: Seq<usize>,
    spacing: int,
    j: int,
)
    requires
        0 <= j <= row.len(),
        j <= widths.len(),
        forall|i: int| 0 <= i < row.len() ==> count_char(#[trigger] row[i], '\n') == 0,
    ensures
        count_char(fancy_cells(row, widths, spacing, j), '\n') == 0,
    decreases j,
{
    if j > 0 {
        lemma_fancy_cells_newline_count(row, widths, spacing, j - 1);
        let a = fancy_cells(row, widths, spacing, j - 1);
        let p = pad_right(row[j - 1], widths[j - 1] as int);
        lemma_count_concat(a + seq!['│'] + spaces(spacing) + p, spaces(spacing), '\n');
        lemma_count_concat(a + seq!['│'] + spaces(spacing), p, '\n');
        lemma_count_concat(a + seq!['│'], spaces(spacing), '\n');
        lemma_count_concat(a, seq!['│'], '\n');
        lemma_count_single('│', '\n');
        lemma_count_repeat_other(' ', '\n', spacing);
        lemma_count_pad(row[j - 1], widths[j - 1] as int, '\n');
    }
}

proof fn lemma_fancy_row_line_newline_count(row: Seq<Seq<char>>, widths: Seq<usize>, spacing: int)
    requires
        forall|i: int| 0 <= i < row.len() ==> count_char(#[trigger] row[i], '\n') == 0,
    ensures
        count_char(fancy_row_line(row, widths, spacing), '\n') == 1,
{
    let m = vstd::math::min(row.len() as int, widths.len() as int);
    let cells = fancy_cells(row, widths, spacing, m);
    lemma_fancy_cells_newline_count(row, widths, spacing, m);
    lemma_count_concat(cells, seq!['│', '\n'], '\n');
    assert(seq!['│', '\n'].drop_last() =~= seq!['│']);
    lemma_count_single('│', '\n');
}

proof fn lemma_fancy_body_newline_count(
    rows: Seq<Seq<Seq<char>>>,
    widths: Seq<usize>,
    headers: bool,
    separators: bool,
    spacing: int,
    k: int,
)
    requires
        0 <= k <= rows.len(),
        newline_free(rows),
    ensures
        count_char(fancy_body(rows, widths, headers, separators, spacing, k), '\n') == k
            + sep_count_upto(headers, separators, k),
    decreases k,
{
    if k > 0 {
        lemma_fancy_body_newline_count(rows, widths, headers, separators, spacing, k - 1);
        let a = fancy_body(rows, widths, headers, separators, spacing, k - 1);
        let b = if sep_before(headers, separators, k - 1) {
            border_line(widths, spacing, '├', '┼', '┤')
        } else {
            Seq::<char>::empty()
        };
        let c = fancy_row_line(rows[k - 1], widths, spacing);
        lemma_count_concat(a + b, c, '\n');
        lemma_count_concat(a, b, '\n');
        if sep_before(headers, separators, k - 1) {
            lemma_border_line_newline_count(widths, spacing, '├', '┼', '┤');
        }
        assert(forall|i: int|
            0 <= i < rows[k - 1].len() ==> count_char(#[trigger] rows[k - 1][i], '\n') == 0);
        lemma_fancy_row_line_newline_count(rows[k - 1], widths, spacing);
    }
}

/// Box-drawing output always begins with the full top-border line and ends
/// with the full bottom-border line; between them stand exactly one
/// `│`-delimited data line per record and exactly `sep_count` separator
/// lines: one when `headers` is set and at least two records exist
/// (whatever `separators` says), one before every later row when only
/// `separators` is set, none otherwise. Line counts are stated through
/// newline counts, for records whose fields hold no newline of their own.
pub proof fn lemma_fancy_format_lines(
    rows: Seq<Seq<Seq<char>>>,
    widths: Seq<usize>,
    headers: bool,
    separators: bool,
    spacing: int,
)
    requires
        newline_free(rows),
    ensures
        fancy_output(rows, widths, headers, separators, spacing) == border_line(
            widths,
            spacing,
            '┌',
            '┬',
            '┐',
        ) + fancy_body(rows, widths, headers, separators, spacing, rows.len() as int)
            + border_line(widths, spacing, '└', '┴', '┘'),
        fancy_output(rows, widths, headers, separators, spacing).take(
            border_line(widths, spacing, '┌', '┬', '┐').len() as int,
        ) == border_line(widths, spacing, '┌', '┬', '┐'),
        fancy_output(rows, widths, headers, separators, spacing).skip(
            fancy_output(rows, widths, headers, separators, spacing).len() - border_line(
                widths,
                spacing,
                '└',
                '┴',
                '┘',
            ).len(),
        ) == border_line(widths, spacing, '└', '┴', '┘'),
        count_char(fancy_body(rows, widths, headers, separators, spacing, rows.len() as int), '\n')
            == rows.len() + sep_count(headers, separators, rows.len() as int),
        forall|k: int|
            0 <= k < rows.len() ==> count_char(
                #[trigger] fancy_row_line(rows[k], widths, spacing),
                '\n',
            ) == 1,
        count_char(fancy_output(rows, widths, headers, separators, spacing), '\n') == 2
            + rows.len() + sep_count(headers, separators, rows.len() as int),
{
    let top = border_line(widths, spacing, '┌', '┬', '┐');
    let bottom = border_line(widths, spacing, '└', '┴', '┘');
    let body = fancy_body(rows, widths, headers, separators, spacing, rows.len() as int);
    let out = fancy_output(rows, widths, headers, separators, spacing);
    assert(out.take(top.len() as int) =~= top);
    assert(out.skip(out.len() - bottom.len()) =~= bottom);
    lemma_fancy_body_newline_count(
        rows,
        widths,
        headers,
        separators,
        spacing,
        rows.len() as int,
    );
    lemma_sep_count(headers, separators, rows.len() as int);
    assert forall|k: int| 0 <= k < rows.len() implies count_char(
        #[trigger] fancy_row_line(rows[k], widths, spacing),
        '\n',
    ) == 1 by {
        assert(forall|i: int|
            0 <= i < rows[k].len() ==> count_char(#[trigger] rows[k][i], '\n') == 0);
        lemma_fancy_row_line_newline_count(rows[k], widths, spacing);
    }
    lemma_border_line_newline_count(widths, spacing, '┌', '┬', '┐');
    lemma_border_line_newline_count(widths, spacing, '└', '┴', '┘');
    lemma_count_concat(top + body, bottom, '\n');
    lemma_count_concat(top, body, '\n');
}

/// Appends one border line; `l`, `m` and `r` each hold the single corner or
/// junction character to use.
fn append_border(out: &mut String, widths: &Vec<usize>, spacing: usize, l: &str, m: &str, r: &str)
    requires
        l@.len() == 1,
        m@.len() == 1,
        r@.len() == 1,
    ensures
        final(out)@ == old(out)@ + border_line(widths@, spacing as int, l@[0], m@[0], r@[0]),
{
    let ghost sp = spacing as int;
    out.append(l);
    proof {
        assert(out@ =~= old(out)@ + seq![l@[0]] + border_cells(widths@, sp, m@[0], 0));
    }
    let mut j: usize = 0;
    while j < widths.len()
        invariant
            j <= widths.len(),
            sp == spacing as int,
            l@.len() == 1,
            m@.len() == 1,
            r@.len() == 1,
            out@ == old(out)@ + seq![l@[0]] + border_cells(widths@, sp, m@[0], j as int),
        decreases widths.len() - j,
    {
        if j > 0 {
            out.append(m);
            proof {
                assert(m@ =~= seq![m@[0]]);
            }
        }
        proof {
            reveal_strlit("─");
        }
        append_repeat(out, "─", widths[j]);
        append_repeat(out, "─", spacing);
        append_repeat(out, "─", spacing);
        proof {
            let w = widths@[j as int] as int;
            lemma_repeat_concat('─', w, sp);
            lemma_repeat_concat('─', w + sp, sp);
            assert(repeat_char('─', w) + repeat_char('─', sp) + repeat_char('─', sp)
                =~= repeat_char('─', w + 2 * sp));
            assert(out@ =~= old(out)@ + seq![l@[0]] + border_cells(widths@, sp, m@[0], j as int
                + 1));
        }
        j += 1;
    }
    out.append(r);
    out.append("\n");
    proof {
        reveal_strlit("\n");
        assert(r@ =~= seq![r@[0]]);
        assert("\n"@ =~= seq!['\n']);
        assert(out@ =~= old(out)@ + border_line(widths@, sp, l@[0], m@[0], r@[0]));
    }
}

/// Appends the data line of record `k`.
fn append_fancy_row(out: &mut String, t: &Table, k: usize, spacing: usize)
    requires
        t.wf(),
        k < t.records@.len(),
    ensures
        final(out)@ == old(out)@ + fancy_row_line(
            t.records.deep_view()[k as int],
            t.widths@,
            spacing as int,
        ),
{
    let ghost rows = t.records.deep_view();
    let ghost widths = t.widths@;
    let ghost sp = spacing as int;
    proof {
        assert(rows[k as int] == t.records@[k as int].deep_view());
    }
    let ghost row = rows[k as int];
    let rl = t.records[k].len();
    let jmax: usize = if rl < t.widths.len() {
        rl
    } else {
        t.widths.len()
    };
    assert(jmax as int == vstd::math::min(row.len() as int, widths.len() as int));
    let mut j: usize = 0;
    while j < jmax
        invariant
            t.wf(),
            k < t.records@.len(),
            j <= jmax,
            rows == t.records.deep_view(),
            widths == t.widths@,
            sp == spacing as int,
            row == rows[k as int],
            jmax <= t.records@[k as int].len(),
            jmax <= widths.len(),
            out@ == old(out)@ + fancy_cells(row, widths, sp, j as int),
        decreases jmax - j,
    {
        proof {
            reveal_strlit("│");
        }
        out.append("│");
        append_spaces(out, spacing);
        let f = t.records[k][j].as_str();
        proof {
            assert(row[j as int] == t.records@[k as int]@[j as int]@);
            assert(f@ == row[j as int]);
            lemma_col_width_covers(rows, k as int, j as int);
            assert(row[j as int].len() <= widths[j as int]);
        }
        let wj = t.widths[j];
        append_padded(out, f, wj);
        append_spaces(out, spacing);
        proof {
            assert("│"@ =~= seq!['│']);
            assert(out@ =~= old(out)@ + fancy_cells(row, widths, sp, j as int + 1));
        }
        j += 1;
    }
    proof {
        reveal_strlit("│");
    }
    out.append("│");
    out.append("\n");
    proof {
        reveal_strlit("\n");
        assert("│"@ =~= seq!['│']);
        assert("\n"@ =~= seq!['\n']);
        assert(seq!['│'] + seq!['\n'] =~= seq!['│', '\n']);
        assert(out@ =~= old(out)@ + fancy_row_line(row, widths, sp));
    }
}

/// Builds the box-drawing text for a well-formed table.
fn fancy_text(t: &Table, headers: bool, separators: bool, spacing: usize) -> (s: String)
    requires
        t.wf(),
    ensures
        s@ == fancy_output(
            t.records.deep_view(),
            t.widths@,
            headers,
            separators,
            spacing as int,
        ),
{
    let ghost rows = t.records.deep_view();
    let ghost widths = t.widths@;
    let ghost sp = spacing as int;
    let ghost top = border_line(widths, sp, '┌', '┬', '┐');
    let mut out = String::from_str("");
    proof {
        reveal_strlit("");
        assert(out@ =~= Seq::<char>::empty());
    }
    proof {
        reveal_strlit("┌");
        reveal_strlit("┬");
        reveal_strlit("┐");
    }
    append_border(&mut out, &t.widths, spacing, "┌", "┬", "┐");
    proof {
        assert(out@ =~= top + fancy_body(rows, widths, headers, separators, sp, 0));
    }
    let mut k: usize = 0;
    while k < t.records.len()
        invariant
            t.wf(),
            k <= t.records.len(),
            rows == t.records.deep_view(),
            widths == t.widths@,
            sp == spacing as int,
            top == border_line(widths, sp, '┌', '┬', '┐'),
            rows.len() == t.records@.len(),
            out@ == top + fancy_body(rows, widths, headers, separators, sp, k as int),
        decreases t.records.len() - k,
    {
        let ghost body_k = fancy_body(rows, widths, headers, separators, sp, k as int);
        let draw_sep = k > 0 && (if headers {
            k == 1
        } else {
            separators
        });
        assert(draw_sep == sep_before(headers, separators, k as int));
        if draw_sep {
            proof {
                reveal_strlit("├");
                reveal_strlit("┼");
                reveal_strlit("┤");
            }
            append_border(&mut out, &t.widths, spacing, "├", "┼", "┤");
        }
        let ghost seg = if sep_before(headers, separators, k as int) {
            border_line(widths, sp, '├', '┼', '┤')
        } else {
            Seq::<char>::empty()
        };
        proof {
            assert(out@ =~= top + body_k + seg);
        }
        append_fancy_row(&mut out, t, k, spacing);
        proof {
            let row = rows[k as int];
            assert(fancy_body(rows, widths, headers, separators, sp, k as int + 1) == body_k + seg
                + fancy_row_line(row, widths, sp));
            assert(out@ =~= top + fancy_body(rows, widths, headers, separators, sp, k as int + 1));
        }
        k += 1;
    }
    proof {
        reveal_strlit("└");
        reveal_strlit("┴");
        reveal_strlit("┘");
    }
    append_border(&mut out, &t.widths, spacing, "└", "┴", "┘");
    proof {
        assert(rows.len() as int == t.records@.len() as int);
        assert(out@ =~= fancy_output(rows, widths, headers, separators, sp));
    }
    out
}

/// Renders the table in the box-drawing style: a top border, one bordered
/// line per record with `spacing` spaces around each field, a separator
/// after the first row when `headers` is set or before every later row when
/// `separators` is set (headers taking precedence), and a bottom border.
/// Building the text in memory cannot fail, so the result is always the
/// output string.
pub fn fancy_format(t: &Table, headers: bool, separators: bool, spacing: usize) -> (r: Result<
    String,
    FormatError,
>)
    requires
        t.wf(),
    ensures
        r matches Ok(s) && s@ == fancy_output(
            t.records.deep_view(),
            t.widths@,
            headers,
            separators,
            spacing as int,
        ),
{
    Ok(fancy_text(t, headers, separators, spacing))
}

} // verus!
