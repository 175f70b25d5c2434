//! The profile of a trace: its model, how the trace builds it, and how it
//! is written down.

use crate::error::{Error, ErrorView};
use crate::gen::trace::{parse_items, walk_trace, Profile, ProfileView};
use crate::gen::walk::{left_open, parsed_trace, trace_items};
use crate::resolver::{read, resolved};
use crate::text::{lines, text_view};
use crate::pattern::{regex_compiles, TRACE_HEADER};
use crate::trace::{contains_standard_header, has_header, standard_header};
use vstd::prelude::*;

pub mod assembly;
pub mod callgrind;
pub mod chain;
pub mod costs;
pub mod profile;
pub mod trace;
pub mod walk;

verus! {

/// What the conversion of a trace gives.
#[derive(Debug)]
pub struct Output {
    /// The profile, in the callgrind format.
    pub profile: String,
    /// The assembly listing, where one was asked for.
    pub assembly: Option<String>,
    /// How many calls were open at the end of the trace and had to be
    /// closed: more than none means that calls and exits are out of
    /// balance.
    pub unbalanced: usize,
}

/// The mathematical value of an `Output`.
pub struct OutputView {
    pub profile: Seq<char>,
    pub assembly: Option<Seq<char>>,
    pub unbalanced: usize,
}

impl View for Output {
    type V = OutputView;

    open spec fn view(&self) -> OutputView {
        OutputView {
            profile: self.profile@,
            assembly: match self.assembly {
                Some(text) => Some(text@),
                None => None,
            },
            unbalanced: self.unbalanced,
        }
    }
}

/// What the conversion of the trace `trace` gives, with the dump `dump` of
/// the program where there is one, and with an assembly listing that is to
/// go to `asm_path` where one is asked for.
///
/// It is a function of the three texts alone: the same texts give the same
/// output, to the last character. A trace without header is refused before
/// anything else is read.
pub open spec fn generated(
    trace: Seq<char>,
    asm_path: Option<Seq<char>>,
    dump: Option<Seq<char>>,
) -> Result<OutputView, ErrorView> {
    match standard_header(trace) {
        Err(e) => Err(e),
        Ok(false) => Err(ErrorView::TraceFormat),
        Ok(true) => match resolved(dump) {
            Err(e) => Err(e),
            Ok(resolver) => {
                let start = ProfileView::new(resolver, asm_path);
                match parsed_trace(start, trace) {
                    Err(e) => Err(e),
                    Ok(profile) => Ok(
                        OutputView {
                            profile: profile.callgrind(),
                            assembly: match profile.assembly {
                                Some(source) => Some(source.listing(profile.resolver)),
                                None => None,
                            },
                            unbalanced: left_open(
                                start,
                                trace_items(lines(trace), lines(trace).len() as int),
                            ) as usize,
                        },
                    ),
                }
            },
        },
    }
}

/// Converts the trace `trace` into a profile, with the dump `dump` of the
/// program where there is one, and with an assembly listing that is to go
/// to `asm_path` where one is asked for. The format is always callgrind.
pub fn run(trace: &str, asm_path: Option<&str>, dump: Option<&str>, _format: &str) -> (r: Result<
    Output,
    Error,
>)
    ensures
        match r {
            Ok(output) => generated(trace@, text_view(asm_path), text_view(dump)) == Ok::<
                OutputView,
                ErrorView,
            >(output@),
            Err(e) => generated(trace@, text_view(asm_path), text_view(dump)) == Err::<
                OutputView,
                ErrorView,
            >(e@),
        },
{
    match contains_standard_header(trace) {
        Err(e) => {
            return Err(e);
        },
        Ok(false) => {
            return Err(Error::TraceFormat);
        },
        Ok(true) => {},
    }
    let resolver = match read(dump) {
        Ok(resolver) => resolver,
        Err(e) => {
            return Err(e);
        },
    };
    let mut prof = match Profile::new(resolver, asm_path) {
        Ok(prof) => prof,
        Err(e) => {
            return Err(e);
        },
    };
    let unbalanced = match walk_trace(parse_items(trace), &mut prof) {
        Ok(open) => open,
        Err(e) => {
            return Err(e);
        },
    };
    Ok(Output { profile: prof.write_callgrind(), assembly: prof.write_asm(), unbalanced })
}

/// A trace without header is refused, whatever else it holds and whatever
/// comes with it, where the pattern of the header is a regular expression.
pub proof fn lemma_missing_header(
    trace: Seq<char>,
    asm_path: Option<Seq<char>>,
    dump: Option<Seq<char>>,
)
    requires
        regex_compiles(TRACE_HEADER@),
        !has_header(lines(trace), lines(trace).len() as int),
    ensures
        generated(trace, asm_path, dump) == Err::<OutputView, ErrorView>(ErrorView::TraceFormat),
{
}

/// Two conversions of the same texts give the same output, to the last
/// character, or the same error.
pub proof fn lemma_deterministic(
    trace: Seq<char>,
    asm_path: Option<Seq<char>>,
    dump: Option<Seq<char>>,
    first: Result<OutputView, ErrorView>,
    second: Result<OutputView, ErrorView>,
)
    requires
        first == generated(trace, asm_path, dump),
        second == generated(trace, asm_path, dump),
    ensures
        first == second,
{
}

} // verus!
