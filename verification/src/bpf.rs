//! Instructions of a trace: what one line of the trace says.

use crate::error::{result_view, Error, ErrorView};
use crate::number::{
    decimal, parse_address, parse_decimal, parsed_address, parsed_number, push_decimal,
};
use crate::pattern::{captures, regex_captures, regex_compiles, Groups, TRACE_INSTRUCTION};
use crate::text::{
    chars_of, has_prefix, same_chars, split_whitespace, starts_with, string_of, tokens, trim,
    trim_chars, trimmed,
};
use crate::{Address, ProgramCounter, GROUND_ZERO, PADDING};
use vstd::prelude::*;
use vstd::string::StringExecFns;

verus! {

/// What kind of instruction a line holds.
#[derive(Debug, Clone, Copy, PartialEq, Eq, PartialOrd, Structural)]
pub enum InstructionData {
    /// No instruction at all.
    Empty,
    /// A call of the function at an address.
    Call(Address),
    /// An indirect call of the function at an address.
    CallX(Address),
    /// The return from a function.
    Exit,
    /// Any other instruction.
    Other,
}

impl Default for InstructionData {
    fn default() -> (r: Self)
        ensures
            r == InstructionData::Empty,
    {
        InstructionData::Empty
    }
}

/// The kind of the instruction whose text is `text`, on line `lc`.
///
/// The text is read without the white space at its ends. Nothing is no
/// instruction; `exit` is an exit. A text that begins with `call` must be
/// made of two tokens, the operator `call` or `callx` and a hexadecimal
/// address other than that of the ground: it is then a call of that address,
/// and malformed otherwise. Anything else is another instruction.
pub open spec fn classify(text: Seq<char>, lc: usize) -> Result<InstructionData, ErrorView> {
    let s = trimmed(text);
    if s.len() == 0 {
        Ok(InstructionData::Empty)
    } else if s == "exit"@ {
        Ok(InstructionData::Exit)
    } else if has_prefix(s, "call"@) {
        let t = tokens(s);
        if t.len() == 2 && (t[0] == "call"@ || t[0] == "callx"@) && parsed_address(t[1]) is Some
            && parsed_address(t[1])->Some_0 != GROUND_ZERO {
            Ok(InstructionData::Call(parsed_address(t[1])->Some_0))
        } else {
            Err(ErrorView::TraceParsing(s, lc))
        }
    } else {
        Ok(InstructionData::Other)
    }
}

impl InstructionData {
    /// Classifies the instruction whose text is `s`, on line `lc`.
    pub fn parse(s: &str, lc: usize) -> (r: Result<InstructionData, Error>)
        ensures
            match r {
                Ok(data) => classify(s@, lc) == Ok::<InstructionData, ErrorView>(data),
                Err(e) => classify(s@, lc) == Err::<InstructionData, ErrorView>(e@),
            },
    {
        let v = trim_chars(s);
        if v.len() == 0 {
            return Ok(InstructionData::Empty);
        }
        let exit = chars_of("exit");
        if same_chars(&v, &exit) {
            return Ok(InstructionData::Exit);
        }
        let call = chars_of("call");
        if !starts_with(&v, &call) {
            return Ok(InstructionData::Other);
        }
        let t = split_whitespace(&v);
        if t.len() == 2 {
            let callx = chars_of("callx");
            if same_chars(&t[0], &call) || same_chars(&t[0], &callx) {
                match parse_address(&t[1]) {
                    Some(a) => {
                        if a != GROUND_ZERO {
                            return Ok(InstructionData::Call(a));
                        }
                    },
                    None => {},
                }
            }
        }
        assert(v@.subrange(0, v.len() as int) =~= v@);
        Err(Error::TraceParsing(string_of(&v, 0, v.len()), lc))
    }
}

/// One instruction of a trace.
#[derive(Debug, Clone, PartialEq, Eq, PartialOrd)]
pub struct Instruction {
    pc: ProgramCounter,
    data: InstructionData,
    text: String,
    bpf_units: Option<u64>,
}

/// The mathematical value of an `Instruction`.
pub struct InstructionView {
    /// The program counter.
    pub pc: ProgramCounter,
    /// The kind of the instruction.
    pub data: InstructionData,
    /// The text of the instruction, without white space at its ends.
    pub text: Seq<char>,
    /// The units that the instruction consumed, where they are known.
    pub bpf_units: Option<u64>,
}

impl InstructionView {
    /// Whether the instruction is a call, direct or indirect.
    pub open spec fn is_call(self) -> bool {
        self.data is Call || self.data is CallX
    }

    /// The address that a call targets.
    pub open spec fn target(self) -> Address
        recommends
            self.is_call(),
    {
        match self.data {
            InstructionData::Call(a) => a,
            InstructionData::CallX(a) => a,
            _ => 0,
        }
    }

    /// The line of an assembly listing for the instruction: nothing for no
    /// instruction, else the program counter, a colon, the padding and the
    /// text.
    pub open spec fn listing(self) -> Seq<char> {
        if self.data is Empty {
            Seq::empty()
        } else {
            decimal(self.pc as nat) + ":"@ + PADDING@ + self.text
        }
    }

    /// Whether `other` can stand at the same place of an assembly listing:
    /// the program counters agree, and so do the kinds, where two indirect
    /// calls agree whatever they target.
    pub open spec fn same_asm(self, other: InstructionView) -> bool {
        self.pc == other.pc && if self.data is CallX {
            other.data is CallX
        } else {
            self.data == other.data
        }
    }
}

/// What a line of a trace says, given the capture groups that the pattern of
/// an instruction record found in it.
///
/// A line without a match, or without a program counter and a text among the
/// groups, is skipped. A program counter that is no decimal number of the
/// machine's size makes the line malformed. Otherwise the text, without the
/// white space at its ends, is classified.
pub open spec fn record(
    groups: Option<Seq<Option<Seq<char>>>>,
    line: Seq<char>,
    lc: usize,
) -> Result<InstructionView, ErrorView> {
    if groups is Some && groups->Some_0.len() >= 3 && groups->Some_0[1] is Some
        && groups->Some_0[2] is Some {
        let text = trimmed(groups->Some_0[2]->Some_0);
        match parsed_number(groups->Some_0[1]->Some_0, 10) {
            None => Err(ErrorView::TraceParsing(line, lc)),
            Some(pc) => match classify(text, lc) {
                Ok(data) => Ok(InstructionView { pc, data, text, bpf_units: None }),
                Err(e) => Err(e),
            },
        }
    } else {
        Err(ErrorView::TraceSkipped)
    }
}

/// What the line `line`, numbered `lc`, of a trace says: a line in which the
/// pattern `TRACE_INSTRUCTION` finds a record holds the instruction that
/// `record` makes of it.
pub open spec fn parsed_line(line: Seq<char>, lc: usize) -> Result<InstructionView, ErrorView> {
    if regex_compiles(TRACE_INSTRUCTION@) {
        record(regex_captures(TRACE_INSTRUCTION@, line), line, lc)
    } else {
        Err(ErrorView::Pattern)
    }
}

impl InstructionView {
    /// No instruction: what stands at the empty places of a listing.
    pub open spec fn none() -> InstructionView {
        InstructionView { pc: 0, data: InstructionData::Empty, text: Seq::empty(), bpf_units: None }
    }
}

impl View for Instruction {
    type V = InstructionView;

    closed spec fn view(&self) -> InstructionView {
        InstructionView {
            pc: self.pc,
            data: self.data,
            text: self.text@,
            bpf_units: self.bpf_units,
        }
    }
}

impl Default for Instruction {
    fn default() -> (r: Self)
        ensures
            r@ == InstructionView::none(),
    {
        Instruction { pc: 0, data: InstructionData::Empty, text: String::new(), bpf_units: None }
    }
}

impl Instruction {
    /// Makes an instruction of its parts.
    pub fn new(
        pc: ProgramCounter,
        data: InstructionData,
        text: String,
        bpf_units: Option<u64>,
    ) -> (r: Self)
        ensures
            r@ == (InstructionView { pc, data, text: text@, bpf_units }),
    {
        Instruction { pc, data, text, bpf_units }
    }

    /// Reads the instruction of the line `line`, numbered `lc`, from the
    /// capture groups that the pattern `TRACE_INSTRUCTION` found in it.
    pub fn from_captures(groups: &Option<Groups>, line: &str, lc: usize) -> (r: Result<
        Instruction,
        Error,
    >)
        ensures
            result_view(r) == record(groups.deep_view(), line@, lc),
    {
        match groups {
            Some(g) => {
                if g.len() < 3 {
                    return Err(Error::TraceSkipped);
                }
                match (&g[1], &g[2]) {
                    (Some(pc_text), Some(ix_text)) => {
                        let text = trim(ix_text.as_str());
                        let digits = chars_of(pc_text.as_str());
                        match parse_decimal(&digits) {
                            None => Err(Error::TraceParsing(String::from_str(line), lc)),
                            Some(pc) => {
                                match InstructionData::parse(text.as_str(), lc) {
                                    Ok(data) => Ok(Instruction { pc, data, text, bpf_units: None }),
                                    Err(e) => Err(e),
                                }
                            },
                        }
                    },
                    _ => Err(Error::TraceSkipped),
                }
            },
            None => Err(Error::TraceSkipped),
        }
    }

    /// Reads the instruction of the line `s`, numbered `lc`.
    ///
    /// The shape of a record is that of the pattern `TRACE_INSTRUCTION`; what
    /// is made of the groups that it captures is `record`.
    pub fn parse(s: &str, lc: usize) -> (r: Result<Instruction, Error>)
        ensures
            result_view(r) == parsed_line(s@, lc),
    {
        match captures(TRACE_INSTRUCTION, s) {
            Err(_) => Err(Error::Pattern),
            Ok(groups) => Instruction::from_captures(&groups, s, lc),
        }
    }

    /// A copy of the instruction.
    pub fn duplicate(&self) -> (r: Instruction)
        ensures
            r@ == self@,
    {
        Instruction {
            pc: self.pc,
            data: self.data,
            text: self.text.clone(),
            bpf_units: self.bpf_units,
        }
    }

    /// Tells whether this is no instruction.
    pub fn is_empty(&self) -> (r: bool)
        ensures
            r == (self@.data is Empty),
    {
        self.data == InstructionData::Empty
    }

    /// The program counter.
    pub fn pc(&self) -> (r: ProgramCounter)
        ensures
            r == self@.pc,
    {
        self.pc
    }

    /// The kind of the instruction.
    pub fn data(&self) -> (r: InstructionData)
        ensures
            r == self@.data,
    {
        self.data
    }

    /// A copy of the text.
    pub fn text(&self) -> (r: String)
        ensures
            r@ == self@.text,
    {
        self.text.clone()
    }

    /// The units that the instruction consumed, where they are known.
    pub fn bpf_units(&self) -> (r: Option<u64>)
        ensures
            r == self@.bpf_units,
    {
        self.bpf_units
    }

    /// Tells whether the instruction is a call.
    pub fn is_call(&self) -> (r: bool)
        ensures
            r == self@.is_call(),
    {
        match self.data {
            InstructionData::Call(_) => true,
            InstructionData::CallX(_) => true,
            _ => false,
        }
    }

    /// Tells whether the instruction is an exit.
    pub fn is_exit(&self) -> (r: bool)
        ensures
            r == (self@.data is Exit),
    {
        self.data == InstructionData::Exit
    }

    /// The operator of a call, `call` or `callx`; an error for any other
    /// instruction, on line `lc`.
    pub fn call_operation(&self, lc: usize) -> (r: Result<String, Error>)
        ensures
            match r {
                Ok(op) => (self@.data is Call && op@ == "call"@) || (self@.data is CallX && op@
                    == "callx"@),
                Err(e) => !self@.is_call() && e@ == ErrorView::TraceNotCall(self@.text, lc),
            },
    {
        match self.data {
            InstructionData::Call(_) => Ok(String::from_str("call")),
            InstructionData::CallX(_) => Ok(String::from_str("callx")),
            _ => Err(Error::TraceNotCall(self.text.clone(), lc)),
        }
    }

    /// The address that a call targets; an error for any other instruction,
    /// on line `lc`.
    pub fn call_target(&self, lc: usize) -> (r: Result<Address, Error>)
        ensures
            match r {
                Ok(a) => self@.is_call() && a == self@.target(),
                Err(e) => !self@.is_call() && e@ == ErrorView::TraceNotCall(self@.text, lc),
            },
    {
        match self.data {
            InstructionData::Call(a) => Ok(a),
            InstructionData::CallX(a) => Ok(a),
            _ => Err(Error::TraceNotCall(self.text.clone(), lc)),
        }
    }

    /// Tells whether `other` can stand at the same place of an assembly
    /// listing.
    pub fn compare_asm(&self, other: &Instruction) -> (r: bool)
        ensures
            r == self@.same_asm(other@),
    {
        self.pc == other.pc && match self.data {
            InstructionData::CallX(_) => match other.data {
                InstructionData::CallX(_) => true,
                _ => false,
            },
            _ => self.data == other.data,
        }
    }

    /// The line of an assembly listing for the instruction.
    pub fn to_text(&self) -> (r: String)
        ensures
            r@ == self@.listing(),
    {
        let mut r = String::new();
        if self.is_empty() {
            return r;
        }
        push_decimal(&mut r, self.pc as u128);
        r.append(":");
        r.append(PADDING);
        r.append(self.text.as_str());
        r
    }
}

} // verus!
