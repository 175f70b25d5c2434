//! The dump of a program: a disassembly with the labels of its functions.

use crate::error::{Error, ErrorView};
use crate::number::{parse_decimal, parsed_number};
use crate::pattern::{
    block_end, captures, captures_each, regex_captures, regex_compiles, Groups, DUMP_BLOCK,
    DUMP_FUNCTION, DUMP_INSTRUCTION,
};
use crate::resolver::{Resolver, ResolverView};
use crate::text::{chars_of, has_prefix, lines, split_lines, starts_with, trim_bounds, trimmed};
use crate::ProgramCounter;
use vstd::prelude::*;

verus! {

/// Begins the line that opens a dump.
pub const HEADER: &'static str = "ELF Header";

/// Begins the line that opens the disassembly of a dump.
pub const DISASM_HEADER: &'static str = "Disassembly of section .text";

/// The index of the first line of the disassembly among `lines[i..]`: that
/// of the line after the first one that begins with `DISASM_HEADER`.
///
/// A line that begins with `HEADER` must come before it: `seen_header` says
/// whether one came before `i`. Without it the dump has no known format;
/// with it and without a disassembly the dump lacks its disassembly.
pub open spec fn disassembly_start(lines: Seq<Seq<char>>, i: int, seen_header: bool) -> Result<
    int,
    ErrorView,
>
    decreases lines.len() - i,
{
    if i < 0 || i >= lines.len() {
        if seen_header {
            Err(ErrorView::DumpFormatNoDisasm)
        } else {
            Err(ErrorView::DumpFormat)
        }
    } else if has_prefix(lines[i], HEADER@) {
        disassembly_start(lines, i + 1, true)
    } else if has_prefix(lines[i], DISASM_HEADER@) {
        if seen_header {
            Ok(i + 1)
        } else {
            Err(ErrorView::DumpFormat)
        }
    } else {
        disassembly_start(lines, i + 1, seen_header)
    }
}

/// What one line of a disassembly says.
#[derive(Debug, Clone, PartialEq, Eq)]
pub enum DumpLine {
    /// Nothing but white space.
    Blank,
    /// The label of a basic block, with its name.
    Block(String),
    /// The label of a function, with its name.
    Function(String),
    /// An instruction, with its program counter and its text.
    Code(ProgramCounter, String),
    /// Nothing that a disassembly may hold.
    Unknown,
}

/// The mathematical value of a `DumpLine`.
pub enum DumpItem {
    Blank,
    Block(Seq<char>),
    Function(Seq<char>),
    Code(ProgramCounter, Seq<char>),
    Unknown,
}

impl View for DumpLine {
    type V = DumpItem;

    open spec fn view(&self) -> DumpItem {
        match *self {
            DumpLine::Blank => DumpItem::Blank,
            DumpLine::Block(name) => DumpItem::Block(name@),
            DumpLine::Function(name) => DumpItem::Function(name@),
            DumpLine::Code(pc, text) => DumpItem::Code(pc, text@),
            DumpLine::Unknown => DumpItem::Unknown,
        }
    }
}

/// The name that the pattern of a label captured: its first group.
pub open spec fn label_of(groups: Option<Seq<Option<Seq<char>>>>) -> Option<Seq<char>> {
    if groups is Some && groups->Some_0.len() >= 2 {
        groups->Some_0[1]
    } else {
        None
    }
}

/// The program counter and the text that the pattern of an instruction
/// captured: its first group, read as a decimal number below the machine's
/// largest, and its third.
pub open spec fn code_of(groups: Option<Seq<Option<Seq<char>>>>) -> Option<
    (ProgramCounter, Seq<char>),
> {
    if groups is Some && groups->Some_0.len() >= 4 && groups->Some_0[1] is Some
        && groups->Some_0[3] is Some {
        match parsed_number(groups->Some_0[1]->Some_0, 10) {
            Some(pc) => if pc < usize::MAX {
                Some((pc, groups->Some_0[3]->Some_0))
            } else {
                None
            },
            None => None,
        }
    } else {
        None
    }
}

/// What the line `line` of a disassembly says, given what the patterns of a
/// block label, of a function label and of an instruction found in it: the
/// first of blank, block label, function label and instruction that fits.
pub open spec fn dump_item(
    line: Seq<char>,
    block: Option<Seq<Option<Seq<char>>>>,
    function: Option<Seq<Option<Seq<char>>>>,
    code: Option<Seq<Option<Seq<char>>>>,
) -> DumpItem {
    if trimmed(line).len() == 0 {
        DumpItem::Blank
    } else if label_of(block) is Some {
        DumpItem::Block(label_of(block)->Some_0)
    } else if label_of(function) is Some {
        DumpItem::Function(label_of(function)->Some_0)
    } else if code_of(code) is Some {
        DumpItem::Code(code_of(code)->Some_0.0, code_of(code)->Some_0.1)
    } else {
        DumpItem::Unknown
    }
}

/// What the line `line` of a disassembly says.
pub open spec fn dump_item_of(line: Seq<char>) -> DumpItem {
    dump_item(
        line,
        regex_captures(DUMP_BLOCK@, line),
        regex_captures(DUMP_FUNCTION@, line),
        regex_captures(DUMP_INSTRUCTION@, line),
    )
}

/// Whether the three patterns of a disassembly are regular expressions.
pub open spec fn dump_patterns_compile() -> bool {
    &&& regex_compiles(DUMP_BLOCK@)
    &&& regex_compiles(DUMP_FUNCTION@)
    &&& regex_compiles(DUMP_INSTRUCTION@)
}

/// How far a disassembly was read: the resolver so far, and the labels that
/// wait for the next instruction.
pub struct DumpState {
    /// The resolver so far.
    pub resolver: ResolverView,
    /// The label of the block that the next instruction begins.
    pub label: Option<Seq<char>>,
    /// The name of the function that the next instruction begins.
    pub function: Option<Seq<char>>,
}

/// The state after one more line was read; `None` where the line is nothing
/// that a disassembly may hold.
///
/// A label waits for the next instruction and replaces one of its kind that
/// waits already. An instruction is taken in under the labels that wait,
/// which it uses up.
pub open spec fn dump_step(state: DumpState, item: DumpItem) -> Option<DumpState> {
    match item {
        DumpItem::Blank => Some(state),
        DumpItem::Block(name) => Some(DumpState { label: Some(name), ..state }),
        DumpItem::Function(name) => Some(DumpState { function: Some(name), ..state }),
        DumpItem::Code(pc, text) => Some(
            DumpState {
                resolver: state.resolver.with_instruction(pc, text, state.label, state.function),
                label: None,
                function: None,
            },
        ),
        DumpItem::Unknown => None,
    }
}

/// The state after the lines `lines[i..]` were read, or the error of the
/// first line among them that a disassembly may not hold, with the line and
/// its number, counted from 1.
pub open spec fn dump_fold(state: DumpState, lines: Seq<Seq<char>>, i: int) -> Result<
    DumpState,
    ErrorView,
>
    decreases lines.len() - i,
{
    if i < 0 || i >= lines.len() {
        Ok(state)
    } else {
        match dump_step(state, dump_item_of(lines[i])) {
            None => Err(ErrorView::DumpParsing(lines[i], (i + 1) as usize)),
            Some(next) => dump_fold(next, lines, i + 1),
        }
    }
}

/// The state that reading the lines `lines[i..]` comes to: it stops at the
/// first line that a disassembly may not hold.
pub open spec fn dump_read(state: DumpState, lines: Seq<Seq<char>>, i: int) -> DumpState
    decreases lines.len() - i,
{
    if i < 0 || i >= lines.len() {
        state
    } else {
        match dump_step(state, dump_item_of(lines[i])) {
            None => state,
            Some(next) => dump_read(next, lines, i + 1),
        }
    }
}

/// What is left of the resolver `start` after the dump `text` was read into
/// it, with or without an error: a dump without header or disassembly
/// leaves it as it was, and so do patterns that are no regular expressions;
/// a line that a disassembly may not hold leaves what was read before it.
pub open spec fn dump_remains(start: ResolverView, text: Seq<char>) -> ResolverView {
    match disassembly_start(lines(text), 0, false) {
        Err(e) => start,
        Ok(first) => if !dump_patterns_compile() {
            start
        } else {
            dump_read(
                DumpState { resolver: start, label: None, function: None },
                lines(text),
                first,
            ).resolver
        },
    }
}

/// The resolver `start` after the dump `text` was read into it.
pub open spec fn parsed_dump(start: ResolverView, text: Seq<char>) -> Result<
    ResolverView,
    ErrorView,
> {
    match disassembly_start(lines(text), 0, false) {
        Err(e) => Err(e),
        Ok(first) => if !dump_patterns_compile() {
            Err(ErrorView::Pattern)
        } else {
            match dump_fold(
                DumpState { resolver: start, label: None, function: None },
                lines(text),
                first,
            ) {
                Err(e) => Err(e),
                Ok(state) => Ok(state.resolver),
            }
        },
    }
}

/// The name among the capture groups of a label.
pub fn label_in(groups: &Option<Groups>) -> (r: Option<String>)
    ensures
        r.deep_view() == label_of(groups.deep_view()),
{
    match groups {
        Some(g) => {
            if g.len() < 2 {
                return None;
            }
            match &g[1] {
                Some(name) => Some(name.clone()),
                None => None,
            }
        },
        None => None,
    }
}

/// The program counter and the text among the capture groups of an
/// instruction.
pub fn code_in(groups: &Option<Groups>) -> (r: Option<(ProgramCounter, String)>)
    ensures
        match r {
            Some((pc, text)) => code_of(groups.deep_view()) == Some((pc, text@)),
            None => code_of(groups.deep_view()) is None,
        },
{
    match groups {
        Some(g) => {
            if g.len() < 4 {
                return None;
            }
            match (&g[1], &g[3]) {
                (Some(pc_text), Some(text)) => {
                    let digits = chars_of(pc_text.as_str());
                    match parse_decimal(&digits) {
                        Some(pc) => {
                            if pc < usize::MAX {
                                Some((pc, text.clone()))
                            } else {
                                None
                            }
                        },
                        None => None,
                    }
                },
                _ => None,
            }
        },
        None => None,
    }
}

/// Tells whether the three patterns of a disassembly are regular
/// expressions.
pub fn check_dump_patterns() -> (r: bool)
    ensures
        r == dump_patterns_compile(),
{
    captures(DUMP_BLOCK, "").is_ok() && captures(DUMP_FUNCTION, "").is_ok() && captures(
        DUMP_INSTRUCTION,
        "",
    ).is_ok()
}

/// Tells what the line `line` of a disassembly says, given what the
/// patterns of a block label, of a function label and of an instruction
/// found in it.
pub fn dump_line_of(
    line: &str,
    block: &Option<Groups>,
    function: &Option<Groups>,
    code: &Option<Groups>,
) -> (r: DumpLine)
    ensures
        r@ == dump_item(line@, block.deep_view(), function.deep_view(), code.deep_view()),
{
    let v = chars_of(line);
    let (a, b) = trim_bounds(&v);
    if a == b {
        return DumpLine::Blank;
    }
    match label_in(block) {
        Some(name) => {
            return DumpLine::Block(name);
        },
        None => {},
    }
    match label_in(function) {
        Some(name) => {
            return DumpLine::Function(name);
        },
        None => {},
    }
    match code_in(code) {
        Some((pc, text)) => DumpLine::Code(pc, text),
        None => DumpLine::Unknown,
    }
}

/// Finds the first line of the disassembly among `lines`.
fn find_disassembly(lines: &Vec<String>) -> (r: Result<usize, Error>)
    ensures
        match r {
            Ok(first) => disassembly_start(lines.deep_view(), 0, false) == Ok::<int, ErrorView>(
                first as int,
            ) && first <= lines.len(),
            Err(e) => disassembly_start(lines.deep_view(), 0, false) == Err::<int, ErrorView>(e@),
        },
{
    let header = chars_of(HEADER);
    let disasm = chars_of(DISASM_HEADER);
    let mut seen = false;
    let mut i: usize = 0;
    while i < lines.len()
        invariant
            i <= lines.len(),
            header@ == HEADER@,
            disasm@ == DISASM_HEADER@,
            disassembly_start(lines.deep_view(), 0, false) == disassembly_start(
                lines.deep_view(),
                i as int,
                seen,
            ),
        decreases lines.len() - i,
    {
        let v = chars_of(lines[i].as_str());
        if starts_with(&v, &header) {
            seen = true;
        } else if starts_with(&v, &disasm) {
            if seen {
                return Ok(i + 1);
            } else {
                return Err(Error::DumpFormat);
            }
        }
        i += 1;
    }
    if seen {
        Err(Error::DumpFormatNoDisasm)
    } else {
        Err(Error::DumpFormat)
    }
}

/// Reads the dump `text` into the resolver `resv`.
pub fn parse_dump_file(text: &str, resv: &mut Resolver) -> (r: Result<(), Error>)
    requires
        old(resv)@.wf(),
    ensures
        final(resv)@.wf(),
        final(resv)@ == dump_remains(old(resv)@, text@),
        match r {
            Ok(_) => parsed_dump(old(resv)@, text@) == Ok::<ResolverView, ErrorView>(final(resv)@),
            Err(e) => parsed_dump(old(resv)@, text@) == Err::<ResolverView, ErrorView>(e@),
        },
{
    let rows = split_lines(text);
    let first = match find_disassembly(&rows) {
        Ok(first) => first,
        Err(e) => {
            return Err(e);
        },
    };
    if !check_dump_patterns() {
        return Err(Error::Pattern);
    }
    let mut label: Option<String> = None;
    let mut function: Option<String> = None;
    let ghost start = DumpState { resolver: resv@, label: None, function: None };
    let mut from: usize = first;
    while from < rows.len()
        invariant
            first <= from <= rows.len(),
            dump_patterns_compile(),
            resv@.wf(),
            rows.deep_view() == lines(text@),
            disassembly_start(rows.deep_view(), 0, false) == Ok::<int, ErrorView>(first as int),
            start == (DumpState { resolver: old(resv)@, label: None, function: None }),
            dump_fold(start, rows.deep_view(), first as int) == dump_fold(
                DumpState {
                    resolver: resv@,
                    label: label.deep_view(),
                    function: function.deep_view(),
                },
                rows.deep_view(),
                from as int,
            ),
            dump_read(start, rows.deep_view(), first as int) == dump_read(
                DumpState {
                    resolver: resv@,
                    label: label.deep_view(),
                    function: function.deep_view(),
                },
                rows.deep_view(),
                from as int,
            ),
        decreases rows.len() - from,
    {
        let to = block_end(from, rows.len());
        let (blocks, functions, codes) = match (
            captures_each(DUMP_BLOCK, &rows, from, to),
            captures_each(DUMP_FUNCTION, &rows, from, to),
            captures_each(DUMP_INSTRUCTION, &rows, from, to),
        ) {
            (Ok(blocks), Ok(functions), Ok(codes)) => (blocks, functions, codes),
            _ => {
                return Err(Error::Pattern);
            },
        };
        let mut i: usize = from;
        while i < to
            invariant
                first <= from <= i <= to <= rows.len(),
                dump_patterns_compile(),
                resv@.wf(),
                rows.deep_view() == lines(text@),
                disassembly_start(rows.deep_view(), 0, false) == Ok::<int, ErrorView>(first as int),
                start == (DumpState { resolver: old(resv)@, label: None, function: None }),
                blocks.len() == to - from,
                functions.len() == to - from,
                codes.len() == to - from,
                forall|k: int|
                    0 <= k < to - from ==> (#[trigger] blocks[k]).deep_view() == regex_captures(
                        DUMP_BLOCK@,
                        rows[from + k]@,
                    ),
                forall|k: int|
                    0 <= k < to - from ==> (#[trigger] functions[k]).deep_view() == regex_captures(
                        DUMP_FUNCTION@,
                        rows[from + k]@,
                    ),
                forall|k: int|
                    0 <= k < to - from ==> (#[trigger] codes[k]).deep_view() == regex_captures(
                        DUMP_INSTRUCTION@,
                        rows[from + k]@,
                    ),
                dump_fold(start, rows.deep_view(), first as int) == dump_fold(
                    DumpState {
                        resolver: resv@,
                        label: label.deep_view(),
                        function: function.deep_view(),
                    },
                    rows.deep_view(),
                    i as int,
                ),
                dump_read(start, rows.deep_view(), first as int) == dump_read(
                    DumpState {
                        resolver: resv@,
                        label: label.deep_view(),
                        function: function.deep_view(),
                    },
                    rows.deep_view(),
                    i as int,
                ),
            decreases to - i,
        {
            let k = i - from;
            match dump_line_of(rows[i].as_str(), &blocks[k], &functions[k], &codes[k]) {
                DumpLine::Blank => {},
                DumpLine::Block(name) => {
                    label = Some(name);
                },
                DumpLine::Function(name) => {
                    function = Some(name);
                },
                DumpLine::Code(pc, text) => {
                    resv.add_instruction(pc, text.as_str(), &label, &function);
                    label = None;
                    function = None;
                },
                DumpLine::Unknown => {
                    let e = Error::DumpParsing(rows[i].clone(), i + 1);
                    return Err(e);
                },
            }
            i += 1;
        }
        from = to;
    }
    Ok(())
}

} // verus!
