//! Errors of the converter.

use crate::number::{decimal, push_decimal};
use vstd::prelude::*;
use vstd::string::StringExecFns;

verus! {

/// What can go wrong while a trace or a dump is read.
#[derive(Debug, Clone, PartialEq, Eq)]
pub enum Error {
    /// The dump has no header before its disassembly.
    DumpFormat,
    /// The dump has a header and no disassembly.
    DumpFormatNoDisasm,
    /// A line of the disassembly is neither a label nor an instruction;
    /// holds the line and its number.
    DumpParsing(String, usize),
    /// The trace has no header.
    TraceFormat,
    /// A line of the trace is no instruction record: nothing to do with it.
    TraceSkipped,
    /// An instruction was taken for a call and is none; holds its text and
    /// the number of its line.
    TraceNotCall(String, usize),
    /// An instruction record is malformed; holds its text and the number of
    /// its line.
    TraceParsing(String, usize),
    /// An `exit` was met while no call was open; holds the number of its
    /// line.
    ExitWithoutCall(usize),
    /// An instruction disagrees with the one that the assembly listing
    /// holds at its place; holds its text and the number of its line.
    TraceInconsistent(String, usize),
    /// One of the library's patterns was not accepted as a regular
    /// expression.
    Pattern,
}

/// The mathematical value of an `Error`.
pub enum ErrorView {
    DumpFormat,
    DumpFormatNoDisasm,
    DumpParsing(Seq<char>, usize),
    TraceFormat,
    TraceSkipped,
    TraceNotCall(Seq<char>, usize),
    TraceParsing(Seq<char>, usize),
    ExitWithoutCall(usize),
    TraceInconsistent(Seq<char>, usize),
    Pattern,
}

impl View for Error {
    type V = ErrorView;

    open spec fn view(&self) -> ErrorView {
        match *self {
            Error::DumpFormat => ErrorView::DumpFormat,
            Error::DumpFormatNoDisasm => ErrorView::DumpFormatNoDisasm,
            Error::DumpParsing(s, n) => ErrorView::DumpParsing(s@, n),
            Error::TraceFormat => ErrorView::TraceFormat,
            Error::TraceSkipped => ErrorView::TraceSkipped,
            Error::TraceNotCall(s, n) => ErrorView::TraceNotCall(s@, n),
            Error::TraceParsing(s, n) => ErrorView::TraceParsing(s@, n),
            Error::ExitWithoutCall(n) => ErrorView::ExitWithoutCall(n),
            Error::TraceInconsistent(s, n) => ErrorView::TraceInconsistent(s@, n),
            Error::Pattern => ErrorView::Pattern,
        }
    }
}

/// The mathematical value of a result: that of what it holds.
pub open spec fn result_view<T: View, E: View>(r: Result<T, E>) -> Result<T::V, E::V> {
    match r {
        Ok(t) => Ok(t@),
        Err(e) => Err(e@),
    }
}

impl ErrorView {
    /// The sentence that reports the error.
    pub open spec fn message(self) -> Seq<char> {
        match self {
            ErrorView::DumpFormat => {
                "Unsupported format of dump file: should contain standard header"@
            },
            ErrorView::DumpFormatNoDisasm => "Dump file without disassembly"@,
            ErrorView::DumpParsing(s, n) => "Cannot parse instruction '"@ + s
                + "' of a function at line '"@ + decimal(n as nat) + "'"@,
            ErrorView::TraceFormat => {
                "Unsupported format of trace file: should contain standard header"@
            },
            ErrorView::TraceSkipped => "Skipped input"@,
            ErrorView::TraceNotCall(s, n) => "Instruction at line "@ + decimal(n as nat)
                + " is not a call: '"@ + s + "'"@,
            ErrorView::TraceParsing(s, n) => "Cannot parse trace instruction '"@ + s
                + "' at line "@ + decimal(n as nat),
            ErrorView::ExitWithoutCall(n) => "Exit without call at line "@ + decimal(n as nat),
            ErrorView::TraceInconsistent(s, n) => "Inconsistent input at line "@ + decimal(
                n as nat,
            ) + ": '"@ + s + "'"@,
            ErrorView::Pattern => "Invalid regex"@,
        }
    }
}

impl Error {
    /// A copy of the error.
    pub fn duplicate(&self) -> (r: Error)
        ensures
            r@ == self@,
    {
        match self {
            Error::DumpFormat => Error::DumpFormat,
            Error::DumpFormatNoDisasm => Error::DumpFormatNoDisasm,
            Error::DumpParsing(s, n) => Error::DumpParsing(s.clone(), *n),
            Error::TraceFormat => Error::TraceFormat,
            Error::TraceSkipped => Error::TraceSkipped,
            Error::TraceNotCall(s, n) => Error::TraceNotCall(s.clone(), *n),
            Error::TraceParsing(s, n) => Error::TraceParsing(s.clone(), *n),
            Error::ExitWithoutCall(n) => Error::ExitWithoutCall(*n),
            Error::TraceInconsistent(s, n) => Error::TraceInconsistent(s.clone(), *n),
            Error::Pattern => Error::Pattern,
        }
    }

    /// The sentence that reports the error.
    pub fn message(&self) -> (r: String)
        ensures
            r@ == self@.message(),
    {
        match self {
            Error::DumpFormat => String::from_str(
                "Unsupported format of dump file: should contain standard header",
            ),
            Error::DumpFormatNoDisasm => String::from_str("Dump file without disassembly"),
            Error::DumpParsing(s, n) => {
                let mut r = String::from_str("Cannot parse instruction '");
                r.append(s.as_str());
                r.append("' of a function at line '");
                push_decimal(&mut r, *n as u128);
                r.append("'");
                r
            },
            Error::TraceFormat => String::from_str(
                "Unsupported format of trace file: should contain standard header",
            ),
            Error::TraceSkipped => String::from_str("Skipped input"),
            Error::TraceNotCall(s, n) => {
                let mut r = String::from_str("Instruction at line ");
                push_decimal(&mut r, *n as u128);
                r.append(" is not a call: '");
                r.append(s.as_str());
                r.append("'");
                r
            },
            Error::TraceParsing(s, n) => {
                let mut r = String::from_str("Cannot parse trace instruction '");
                r.append(s.as_str());
                r.append("' at line ");
                push_decimal(&mut r, *n as u128);
                r
            },
            Error::ExitWithoutCall(n) => {
                let mut r = String::from_str("Exit without call at line ");
                push_decimal(&mut r, *n as u128);
                r
            },
            Error::TraceInconsistent(s, n) => {
                let mut r = String::from_str("Inconsistent input at line ");
                push_decimal(&mut r, *n as u128);
                r.append(": '");
                r.append(s.as_str());
                r.append("'");
                r
            },
            Error::Pattern => String::from_str("Invalid regex"),
        }
    }
}

} // verus!
