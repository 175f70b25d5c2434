//! The assembly listing that goes with a profile.

use crate::bpf::{Instruction, InstructionData, InstructionView};
use crate::resolver::{Resolver, ResolverView};
use crate::PADDING;
use vstd::prelude::*;
use vstd::string::StringExecFns;

verus! {

/// The instructions of a trace, each at the place that its program counter
/// gives: the listing holds a line for every place up to the last.
#[derive(Debug)]
pub struct Source {
    output_path: String,
    ixs: Vec<Instruction>,
}

/// The mathematical value of a `Source`.
pub struct SourceView {
    /// Where the listing is to be written.
    pub output_path: Seq<char>,
    /// The instructions: the one at the place `i` has the program counter
    /// `i`, unless it is none.
    pub ixs: Seq<InstructionView>,
}

/// The instructions with as many empty places added as it takes to have `n`
/// of them.
pub open spec fn padded(ixs: Seq<InstructionView>, n: int) -> Seq<InstructionView> {
    if n <= ixs.len() {
        ixs
    } else {
        ixs + Seq::new((n - ixs.len()) as nat, |k: int| InstructionView::none())
    }
}

/// The instructions after `ix` was met in the trace: the instruction stands
/// at the place that its program counter numbers.
///
/// The first instruction met at a program counter takes the place; those
/// met there later change nothing.
pub open spec fn listed(ixs: Seq<InstructionView>, ix: InstructionView) -> Seq<InstructionView> {
    if padded(ixs, ix.pc + 1)[ix.pc as int].data is Empty {
        padded(ixs, ix.pc + 1).update(ix.pc as int, ix)
    } else {
        padded(ixs, ix.pc + 1)
    }
}

/// Whether `ix` agrees with what the listing holds at its place: the place
/// is free, or holds an instruction that can stand for `ix`.
pub open spec fn agrees(ixs: Seq<InstructionView>, ix: InstructionView) -> bool {
    padded(ixs, ix.pc + 1)[ix.pc as int].data is Empty || padded(
        ixs,
        ix.pc + 1,
    )[ix.pc as int].same_asm(ix)
}

/// The operator of a call.
pub open spec fn operator(data: InstructionData) -> Seq<char> {
    if data is CallX {
        "callx"@
    } else {
        "call"@
    }
}

/// The instruction `ix` as a listing shows it: a call of a known address
/// names the function in place of the address.
pub open spec fn shown(resv: ResolverView, ix: InstructionView) -> InstructionView {
    if ix.is_call() && resv.by_address.contains_key(ix.target()) {
        InstructionView { text: operator(ix.data) + " "@ + resv.name_of(ix.target()), ..ix }
    } else {
        ix
    }
}

/// The line of the listing for the instruction `ix` at the place `i`.
///
/// An empty place gives an empty line, and the title of the listing at its
/// head. An instruction gives its line, as the listing shows it; the name of
/// the function that begins at the instruction, if any, follows as a
/// comment.
pub open spec fn asm_line(resv: ResolverView, ix: InstructionView, i: int) -> Seq<char> {
    if ix.data is Empty {
        if i > 0 {
            "\n"@
        } else {
            ";; Generated BPF assembly code for QCacheGrind\n"@
        }
    } else {
        match resv.name_at(ix.pc) {
            None => shown(resv, ix).listing() + "\n"@,
            Some(name) => shown(resv, ix).listing() + PADDING@ + "; "@ + name + "\n"@,
        }
    }
}

/// The lines of the listing for the first `upto` places.
pub open spec fn asm_lines(resv: ResolverView, ixs: Seq<InstructionView>, upto: int) -> Seq<char>
    decreases upto,
{
    if upto <= 0 {
        Seq::empty()
    } else {
        asm_lines(resv, ixs, upto - 1) + asm_line(resv, ixs[upto - 1], upto - 1)
    }
}

/// The values of the instructions.
pub open spec fn instruction_views(ixs: Seq<Instruction>) -> Seq<InstructionView> {
    ixs.map_values(|ix: Instruction| ix@)
}

impl SourceView {
    /// The listing: that of the dump where the resolver was read from one,
    /// else that of the instructions met in the trace.
    pub open spec fn listing(self, resv: ResolverView) -> Seq<char> {
        if resv.from_dump {
            resv.pretty_listing()
        } else {
            asm_lines(resv, self.ixs, self.ixs.len() as int)
        }
    }
}

impl View for Source {
    type V = SourceView;

    closed spec fn view(&self) -> SourceView {
        SourceView { output_path: self.output_path@, ixs: instruction_views(self.ixs@) }
    }
}

impl Source {
    /// A listing without instructions, to be written to `output_path`.
    pub fn new(output_path: &str) -> (r: Self)
        ensures
            r@ == (SourceView { output_path: output_path@, ixs: Seq::empty() }),
    {
        let r = Source { output_path: String::from_str(output_path), ixs: Vec::new() };
        assert(r@.ixs =~= Seq::empty());
        r
    }

    /// Takes in an instruction of the trace; tells whether it agrees with
    /// what the listing holds at its place. The machine's largest number is
    /// no program counter that a listing has a place for.
    pub fn add_instruction(&mut self, ix: &Instruction) -> (r: bool)
        requires
            ix@.pc < usize::MAX,
        ensures
            final(self)@ == (SourceView { ixs: listed(old(self)@.ixs, ix@), ..old(self)@ }),
            r == agrees(old(self)@.ixs, ix@),
    {
        let index = ix.pc();
        let ghost before = self.ixs@;
        while self.ixs.len() <= index
            invariant
                index == ix@.pc,
                index < usize::MAX,
                before == old(self).ixs@,
                before.len() <= self.ixs.len(),
                before.len() <= index ==> self.ixs.len() <= index + 1,
                before.len() > index ==> self.ixs.len() == before.len(),
                forall|k: int| 0 <= k < before.len() ==> self.ixs@[k] == before[k],
                forall|k: int|
                    before.len() <= k < self.ixs.len() ==> (#[trigger] self.ixs@[k])@
                        == InstructionView::none(),
                self.output_path == old(self).output_path,
            decreases index + 1 - self.ixs.len(),
        {
            self.ixs.push(Instruction::default());
        }
        assert(instruction_views(self.ixs@) =~= padded(old(self)@.ixs, index + 1));
        if self.ixs[index].is_empty() {
            self.ixs.set(index, ix.duplicate());
            assert(instruction_views(self.ixs@) =~= listed(old(self)@.ixs, ix@));
            true
        } else {
            self.ixs[index].compare_asm(ix)
        }
    }

    /// The listing, given the resolver that names the functions.
    pub fn write(&self, resv: &Resolver) -> (out: String)
        requires
            resv@.wf(),
        ensures
            out@ == self@.listing(resv@),
    {
        if resv.is_default() {
            write_assembly_from_trace(&self.ixs, resv)
        } else {
            resv.write_pretty_source()
        }
    }

    /// Where the listing is to be written.
    pub fn output_path(&self) -> (r: &String)
        ensures
            r@ == self@.output_path,
    {
        &self.output_path
    }
}

/// The line of the instruction `ix`, as a listing shows it.
fn instruction_line(ix: &Instruction, resv: &Resolver) -> (line: String)
    requires
        resv@.wf(),
    ensures
        line@ == shown(resv@, ix@).listing(),
{
    match (ix.call_operation(0), ix.call_target(0)) {
        (Ok(operation), Ok(address)) => {
            if resv.contains_address(address) {
                let mut text = operation;
                text.append(" ");
                text.append(resv.resolve_by_address(address).as_str());
                Instruction::new(ix.pc(), ix.data(), text, ix.bpf_units()).to_text()
            } else {
                ix.to_text()
            }
        },
        _ => ix.to_text(),
    }
}

/// The listing of the instructions `ixs`, met in a trace, given the resolver
/// that names the functions.
pub fn write_assembly_from_trace(ixs: &Vec<Instruction>, resv: &Resolver) -> (out: String)
    requires
        resv@.wf(),
    ensures
        out@ == asm_lines(resv@, instruction_views(ixs@), ixs.len() as int),
{
    let mut out = String::new();
    let mut i: usize = 0;
    while i < ixs.len()
        invariant
            i <= ixs.len(),
            resv@.wf(),
            out@ == asm_lines(resv@, instruction_views(ixs@), i as int),
        decreases ixs.len() - i,
    {
        let ix = &ixs[i];
        if ix.is_empty() {
            if i > 0 {
                out.append("\n");
            } else {
                out.append(";; Generated BPF assembly code for QCacheGrind\n");
            }
        } else {
            out.append(instruction_line(ix, resv).as_str());
            match resv.resolve_by_first_pc(ix.pc()) {
                Some(name) => {
                    out.append(PADDING);
                    out.append("; ");
                    out.append(name.as_str());
                },
                None => {},
            }
            out.append("\n");
        }
        i += 1;
    }
    out
}

} // verus!
