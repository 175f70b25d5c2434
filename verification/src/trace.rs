//! The header that marks a text as a trace.

use crate::error::{Error, ErrorView};
use crate::pattern::{
    block_end, captures, captures_each, regex_captures, regex_compiles, TRACE_HEADER,
};
use crate::text::{lines, split_lines};
use vstd::prelude::*;

verus! {

/// Whether one of the first `upto` lines holds the header of a trace, as the
/// pattern `TRACE_HEADER` finds it.
pub open spec fn has_header(lines: Seq<Seq<char>>, upto: int) -> bool {
    exists|i: int| 0 <= i < upto && (#[trigger] regex_captures(TRACE_HEADER@, lines[i])) is Some
}

/// Whether the text `text` holds the header of a trace; an error where the
/// pattern of the header is no regular expression.
pub open spec fn standard_header(text: Seq<char>) -> Result<bool, ErrorView> {
    if regex_compiles(TRACE_HEADER@) {
        Ok(has_header(lines(text), lines(text).len() as int))
    } else {
        Err(ErrorView::Pattern)
    }
}

/// Tells whether the text `text` holds the header of a trace.
pub fn contains_standard_header(text: &str) -> (r: Result<bool, Error>)
    ensures
        match r {
            Ok(found) => standard_header(text@) == Ok::<bool, ErrorView>(found),
            Err(e) => standard_header(text@) == Err::<bool, ErrorView>(e@),
        },
{
    if captures(TRACE_HEADER, "").is_err() {
        return Err(Error::Pattern);
    }
    let rows = split_lines(text);
    let mut from: usize = 0;
    while from < rows.len()
        invariant
            from <= rows.len(),
            regex_compiles(TRACE_HEADER@),
            rows.deep_view() == lines(text@),
            !has_header(lines(text@), from as int),
        decreases rows.len() - from,
    {
        let to = block_end(from, rows.len());
        match captures_each(TRACE_HEADER, &rows, from, to) {
            Err(_) => {},
            Ok(found) => {
                let mut i: usize = from;
                while i < to
                    invariant
                        from <= i <= to <= rows.len(),
                        regex_compiles(TRACE_HEADER@),
                        rows.deep_view() == lines(text@),
                        found.len() == to - from,
                        forall|k: int|
                            0 <= k < to - from ==> (#[trigger] found[k]).deep_view()
                                == regex_captures(TRACE_HEADER@, rows[from + k]@),
                        !has_header(lines(text@), i as int),
                    decreases to - i,
                {
                    assert(rows.deep_view()[i as int] == rows@[i as int]@);
                    if found[i - from].is_some() {
                        return Ok(true);
                    }
                    i += 1;
                }
            },
        }
        from = to;
    }
    Ok(false)
}

/// Prints the functions of a trace in the order of their calls: as yet it
/// does nothing.
pub fn run(_trace: &str) -> (r: Result<(), Error>)
    ensures
        r is Ok,
{
    Ok(())
}

} // verus!
