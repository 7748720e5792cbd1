use vstd::prelude::*;

use crate::basic::{basic_format, basic_output};
use crate::fancy::{fancy_format, fancy_output};
use crate::input::{csv_rows_of, parse_records, ParseError};
use crate::table::{FormatError, RenderOptions, Style, Table};
use crate::widths::widths_of;

verus! {

/// What rendering the given rows with the given widths produces under the
/// given options.
pub open spec fn render_spec(
    rows: Seq<Seq<Seq<char>>>,
    widths: Seq<usize>,
    opts: RenderOptions,
) -> Seq<char> {
    match opts.style {
        Style::Basic => basic_output(rows, widths, opts.spacing as int),
        Style::Fancy => fancy_output(rows, widths, opts.headers, opts.separators, opts.spacing as int),
    }
}

/// Renders the table in the style the options select.
pub fn render(t: &Table, opts: &RenderOptions) -> (r: Result<String, FormatError>)
    requires
        t.wf(),
    ensures
        r matches Ok(s) && s@ == render_spec(t.records.deep_view(), t.widths@, *opts),
{
    match opts.style {
        Style::Basic => basic_format(t, opts.spacing),
        Style::Fancy => fancy_format(t, opts.headers, opts.separators, opts.spacing),
    }
}

/// What the whole tool emits for these input bytes and options: the
/// rendered table over the parsed rows and their computed widths, or
/// nothing when the input does not parse.
pub open spec fn tool_output(data: Seq<u8>, opts: RenderOptions) -> Option<Seq<char>> {
    match csv_rows_of(data) {
        Some(rows) => Some(render_spec(rows, widths_of(rows), opts)),
        None => None,
    }
}

/// The full pipeline over in-memory input: parse the bytes into records,
/// compute the column widths, render in the selected style. Succeeds
/// exactly when the input parses.
pub fn tabulate(data: &Vec<u8>, opts: &RenderOptions) -> (r: Result<String, ParseError>)
    ensures
        r is Ok <==> csv_rows_of(data@) is Some,
        r matches Ok(s) ==> tool_output(data@, *opts) == Some(s@),
{
    let records = match parse_records(data) {
        Ok(records) => records,
        Err(e) => {
            return Err(e);
        },
    };
    let t = Table::new(records);
    match render(&t, opts) {
        Ok(s) => Ok(s),
        Err(_) => vstd::pervasive::unreached(),
    }
}

/// Re-running the tool on the same input bytes with the same flags produces
/// byte-identical output: what is emitted is a function of the input and
/// the options alone.
pub proof fn lemma_output_deterministic(
    d1: Seq<u8>,
    d2: Seq<u8>,
    o1: RenderOptions,
    o2: RenderOptions,
)
    requires
        d1 == d2,
        o1 == o2,
    ensures
        tool_output(d1, o1) == tool_output(d2, o2),
{
}

} // verus!
