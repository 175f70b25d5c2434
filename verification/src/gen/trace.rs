//! The profile, and how the instructions of a trace build it.

use crate::bpf::{Instruction, InstructionView};
use crate::error::{Error, ErrorView};
use crate::gen::assembly::{agrees, listed, Source, SourceView};
use crate::gen::callgrind::{callgrind_functions, write_callgrind_functions};
use crate::gen::chain::{
    calls_open, chain_charged, chain_cost, chain_popped, chain_pushed, lemma_calls_open,
    lemma_chain_charged, lemma_chain_cost_bounds, lemma_chain_popped, lemma_chain_pushed, linked,
    made, Call, Frame,
};
use crate::gen::profile::{
    all_costs, calls_known, calls_owned, completed, costs_of, costs_within, functions_called,
    functions_charged, functions_wf, has_function, lemma_calls_owned, lemma_functions_called,
    lemma_functions_charged, lemma_functions_charged_wf,
    lemma_functions_joined, Function, FunctionView, Functions,
};
use crate::gen::walk::{
    created, item_view, item_views, items_of, left_open, parsed_trace, processed, remains,
    run_items, stray_exit, trace_items, walked, walked_remains, Item, Run,
};
use crate::number::{decimal, push_decimal};
use crate::pattern::{block_end, captures_each, regex_captures, regex_compiles, TRACE_INSTRUCTION};
use crate::resolver::{read, Resolver, ResolverView};
use crate::text::{lines, split_lines, text_view};
use crate::{Cost, ProgramCounter, DEFAULT_ASM, GROUND_ZERO};
use vstd::multiset::Multiset;
use vstd::prelude::*;
use vstd::string::StringExecFns;

verus! {

/// The profile of a trace: the chain of the calls that are open, the
/// functions met so far with their costs, and the names of the functions.
#[derive(Debug)]
pub struct Profile {
    total_cost: Cost,
    ground: Call,
    functions: Functions,
    resolver: Resolver,
    assembly: Option<Source>,
}

/// The mathematical value of a `Profile`.
pub struct ProfileView {
    /// How many instructions were executed.
    pub total_cost: Cost,
    /// The calls that are open, from the ground to the innermost.
    pub chain: Seq<Frame>,
    /// The functions met so far, in the order in which they were met. The
    /// first stands for the ground.
    pub functions: Seq<FunctionView>,
    /// The names of the functions.
    pub resolver: ResolverView,
    /// The assembly listing, where one is asked for.
    pub assembly: Option<SourceView>,
}

/// The lines that open a profile in the callgrind format, up to the total.
pub const CALLGRIND_HEAD: &'static str =
    "# callgrind format\nversion: 1\ncreator: bpf-profile\npositions: line\nevents: Instructions\ntotals: ";

/// The function that stands for the ground.
pub open spec fn ground_function() -> FunctionView {
    FunctionView {
        address: GROUND_ZERO,
        name: "GROUND_ZERO"@,
        first_pc: 0,
        costs: Seq::empty(),
        calls: Seq::empty(),
    }
}

impl ProfileView {
    /// The profile before any instruction, given the names known from the
    /// start and where an assembly listing is to go, if one is asked for.
    pub open spec fn new(resolver: ResolverView, asm_path: Option<Seq<char>>) -> ProfileView {
        ProfileView {
            total_cost: 0,
            chain: seq![Frame { address: GROUND_ZERO, caller: 0, caller_pc: 0, cost: 0 }],
            functions: seq![ground_function()],
            resolver,
            assembly: match asm_path {
                Some(path) => Some(SourceView { output_path: path, ixs: Seq::empty() }),
                None => None,
            },
        }
    }

    /// The chain begins at the ground and is linked; every open call and
    /// every completed call is the call of a known function, and a completed
    /// call stands with the function that made it; each function stands
    /// once among the functions; the open calls cost together what was
    /// executed, and so do the instructions of the functions.
    pub open spec fn wf(self) -> bool {
        &&& linked(self.chain)
        &&& self.chain[0].address == GROUND_ZERO
        &&& forall|i: int|
            1 <= i < self.chain.len() ==> (#[trigger] self.chain[i]).address != GROUND_ZERO
        &&& forall|i: int|
            0 <= i < self.chain.len() ==> has_function(
                self.functions,
                (#[trigger] self.chain[i]).address,
            )
        &&& functions_wf(self.functions)
        &&& calls_known(self.functions)
        &&& calls_owned(self.functions)
        &&& self.resolver.wf()
        &&& chain_cost(self.chain) == self.total_cost
        &&& costs_of(self.functions) == self.total_cost
        &&& costs_within(self.functions, self.total_cost as nat)
    }

    /// How many calls are open.
    pub open spec fn depth(self) -> int {
        self.chain.len() - 1
    }

    /// The profile after the instruction at `pc` was executed: one unit
    /// more in all, for the innermost open call, and for the instruction in
    /// the function of that call.
    pub open spec fn increment_cost(self, pc: ProgramCounter) -> ProfileView {
        ProfileView {
            total_cost: (self.total_cost + 1) as Cost,
            chain: chain_charged(self.chain),
            functions: functions_charged(self.functions, self.chain.last().address, pc),
            ..self
        }
    }

    /// The profile after the innermost open call has made the call `frame`
    /// of a function whose first instruction is at `first_pc`. A function
    /// met for the first time gets its name from the resolver.
    pub open spec fn push_call(self, frame: Frame, first_pc: ProgramCounter) -> ProfileView {
        if has_function(self.functions, frame.address) {
            ProfileView { chain: chain_pushed(self.chain, frame), ..self }
        } else {
            let resolver = self.resolver.update(frame.address, first_pc, true);
            ProfileView {
                chain: chain_pushed(self.chain, frame),
                resolver,
                functions: self.functions.push(
                    FunctionView {
                        address: frame.address,
                        name: resolver.name_of(frame.address),
                        first_pc,
                        costs: Seq::empty(),
                        calls: Seq::empty(),
                    },
                ),
                ..self
            }
        }
    }

    /// The profile after the innermost open call has returned: its cost is
    /// added to that of its caller, and the call is recorded as completed
    /// in the function that made it.
    pub open spec fn pop_call(self) -> ProfileView {
        ProfileView {
            chain: chain_popped(self.chain),
            functions: functions_called(
                self.functions,
                self.chain.last().caller,
                self.chain.last(),
            ),
            ..self
        }
    }

    /// The profile after the instruction `ix` was added to the assembly
    /// listing, where one is asked for and has a place for it.
    pub open spec fn keep_asm(self, ix: InstructionView) -> ProfileView {
        ProfileView {
            assembly: match self.assembly {
                Some(source) => if ix.pc < usize::MAX {
                    Some(SourceView { ixs: listed(source.ixs, ix), ..source })
                } else {
                    Some(source)
                },
                None => None,
            },
            ..self
        }
    }

    /// Whether the assembly listing, where one is asked for, takes the
    /// instruction `ix`: it has a place for it, and what it holds there
    /// agrees with it.
    pub open spec fn keeps(self, ix: InstructionView) -> bool {
        match self.assembly {
            Some(source) => ix.pc < usize::MAX && agrees(source.ixs, ix),
            None => true,
        }
    }

    /// The profile after all open calls have returned.
    pub open spec fn flushed(self) -> ProfileView
        decreases self.chain.len(),
    {
        if self.chain.len() >= 2 {
            self.pop_call().flushed()
        } else {
            self
        }
    }

    /// The head of the profile in the callgrind format: the format and its
    /// version, who made the profile, what is measured, the total, and the
    /// file of the assembly listing.
    pub open spec fn callgrind_head(self) -> Seq<char> {
        CALLGRIND_HEAD@ + decimal(self.total_cost as nat) + "\nfl="@ + (match self.assembly {
            Some(source) => source.output_path,
            None => DEFAULT_ASM@,
        }) + "\n"@
    }

    /// The profile in the callgrind format: the head, then the functions.
    /// Costs and calls are told line by line where an assembly listing is
    /// asked for.
    pub open spec fn callgrind(self) -> Seq<char> {
        self.callgrind_head() + callgrind_functions(self.functions, self.assembly is Some)
    }
}

/// Counting an instruction keeps the profile well formed and adds one unit
/// to what was executed; the open calls and the completed calls stay.
pub proof fn lemma_increment_cost(p: ProfileView, pc: ProgramCounter)
    requires
        p.wf(),
        p.total_cost < Cost::MAX,
    ensures
        p.increment_cost(pc).wf(),
        p.increment_cost(pc).total_cost == p.total_cost + 1,
        p.increment_cost(pc).depth() == p.depth(),
        completed(p.increment_cost(pc).functions) == completed(p.functions),
        calls_open(p.increment_cost(pc).chain) == calls_open(p.chain),
{
    lemma_calls_open(p.chain, p.chain.last());
    lemma_calls_owned(p.functions, p.chain.last().address, pc, p.chain.last(), p.functions[0]);
    lemma_chain_charged(p.chain);
    lemma_functions_charged(p.functions, p.chain.last().address, pc, p.total_cost as nat);
    lemma_functions_charged_wf(p.functions, p.chain.last().address, pc);
}

/// Opening a call keeps the profile well formed and leaves what was
/// executed and the completed calls as they are; one more call is open.
pub proof fn lemma_push_call(p: ProfileView, frame: Frame, first_pc: ProgramCounter)
    requires
        p.wf(),
        frame.address != GROUND_ZERO,
        frame.cost == 0,
    ensures
        p.push_call(frame, first_pc).wf(),
        p.push_call(frame, first_pc).total_cost == p.total_cost,
        p.push_call(frame, first_pc).depth() == p.depth() + 1,
        completed(p.push_call(frame, first_pc).functions) == completed(p.functions),
        calls_open(p.push_call(frame, first_pc).chain) == calls_open(p.chain).insert(
            Frame { caller: p.chain.last().address, ..frame },
        ),
{
    let q = p.push_call(frame, first_pc);
    lemma_calls_open(p.chain, frame);
    lemma_chain_pushed(p.chain, frame);
    if !has_function(p.functions, frame.address) {
        lemma_functions_joined(
            p.functions,
            q.functions[q.functions.len() - 1],
            p.total_cost as nat,
        );
    }
}

/// Closing the innermost open call keeps the profile well formed and leaves
/// what was executed as it is; the call is open no more, and is
/// completed.
pub proof fn lemma_pop_call(p: ProfileView)
    requires
        p.wf(),
        p.depth() >= 1,
    ensures
        p.pop_call().wf(),
        p.pop_call().total_cost == p.total_cost,
        p.pop_call().depth() == p.depth() - 1,
        completed(p.pop_call().functions) == completed(p.functions).insert(made(p.chain.last())),
        calls_open(p.chain) == calls_open(p.pop_call().chain).insert(made(p.chain.last())),
{
    lemma_calls_open(p.chain, p.chain.last());
    lemma_chain_cost_bounds(p.chain);
    lemma_chain_popped(p.chain);
    lemma_functions_called(p.functions, p.chain.last().caller, p.chain.last(), p.total_cost as nat);
    lemma_calls_owned(p.functions, 0, 0, p.chain.last(), p.functions[0]);
}

/// Closing all open calls keeps the profile well formed and leaves what was
/// executed as it is; no call is open, and the calls that were open are
/// completed.
pub proof fn lemma_flushed(p: ProfileView)
    requires
        p.wf(),
    ensures
        p.flushed().wf(),
        p.flushed().total_cost == p.total_cost,
        p.flushed().depth() == 0,
        completed(p.flushed().functions) == completed(p.functions).add(calls_open(p.chain)),
    decreases p.chain.len(),
{
    if p.chain.len() >= 2 {
        lemma_pop_call(p);
        lemma_flushed(p.pop_call());
    }
}

impl View for Profile {
    type V = ProfileView;

    closed spec fn view(&self) -> ProfileView {
        ProfileView {
            total_cost: self.total_cost,
            chain: self.ground@,
            functions: self.functions@,
            resolver: self.resolver@,
            assembly: match self.assembly {
                Some(source) => Some(source@),
                None => None,
            },
        }
    }
}

impl Profile {
    /// The profile is well formed, and each function stands under its
    /// address.
    pub closed spec fn wf(&self) -> bool {
        &&& self@.wf()
        &&& self.functions.wf()
    }

    /// A well-formed profile has a well-formed value.
    pub proof fn lemma_wf(&self)
        requires
            self.wf(),
        ensures
            self@.wf(),
    {
    }

    /// The profile before any instruction, given the names known from the
    /// start and where an assembly listing is to go, if one is asked for.
    pub fn new(resolver: Resolver, asm_path: Option<&str>) -> (r: Result<Self, Error>)
        requires
            resolver@.wf(),
        ensures
            r is Ok,
            r->Ok_0.wf(),
            r->Ok_0@ == ProfileView::new(resolver@, text_view(asm_path)),
    {
        let mut functions = Functions::new();
        functions.insert(Function::ground_zero());
        let ground = Call::new(GROUND_ZERO, 0);
        let assembly = match asm_path {
            Some(path) => Some(Source::new(path)),
            None => None,
        };
        let prof = Profile { total_cost: 0, ground, functions, resolver, assembly };
        proof {
            assert(prof@.functions[0].address == GROUND_ZERO);
            assert(chain_cost(prof@.chain.drop_last()) == 0);
            assert(all_costs(prof@.functions, 0) == 0);
        }
        Ok(prof)
    }

    /// How many instructions were executed.
    pub fn total_cost(&self) -> (r: Cost)
        ensures
            r == self@.total_cost,
    {
        self.total_cost
    }

    /// How many calls are open.
    pub fn depth(&self) -> (r: usize)
        ensures
            r == self@.depth(),
    {
        self.ground.depth()
    }

    /// The functions met so far.
    pub fn functions(&self) -> (r: &Functions)
        ensures
            r@ == self@.functions,
            self.wf() ==> r.wf(),
    {
        &self.functions
    }

    /// The names of the functions.
    pub fn resolver(&self) -> (r: &Resolver)
        ensures
            r@ == self@.resolver,
    {
        &self.resolver
    }

    /// Adds the instruction `ix` to the assembly listing, where one is
    /// asked for; tells whether the listing takes it.
    pub fn keep_asm(&mut self, ix: &Instruction) -> (r: bool)
        requires
            old(self).wf(),
        ensures
            final(self).wf(),
            final(self)@ == old(self)@.keep_asm(ix@),
            r == old(self)@.keeps(ix@),
    {
        match &mut self.assembly {
            Some(source) => {
                if ix.pc() < usize::MAX {
                    source.add_instruction(ix)
                } else {
                    false
                }
            },
            None => true,
        }
    }

    /// Counts the instruction at `pc`: one unit more in all, for the
    /// innermost open call, and for the instruction in its function.
    pub fn increment_cost(&mut self, pc: ProgramCounter)
        requires
            old(self).wf(),
            old(self)@.total_cost < Cost::MAX,
        ensures
            final(self).wf(),
            final(self)@ == old(self)@.increment_cost(pc),
    {
        proof {
            let view = self@;
            lemma_increment_cost(view, pc);
            lemma_chain_cost_bounds(view.chain);
            lemma_functions_charged(
                view.functions,
                view.chain.last().address,
                pc,
                view.total_cost as nat,
            );
        }
        self.total_cost += 1;
        self.ground.increment_cost(pc, &mut self.functions);
    }

    /// Opens `call`, made by the innermost open call; the first instruction
    /// of the function that is called is at `first_pc`.
    pub fn push_call(&mut self, call: Call, first_pc: ProgramCounter)
        requires
            old(self).wf(),
            call@.len() == 1,
            call@[0].address != GROUND_ZERO,
            call@[0].cost == 0,
        ensures
            final(self).wf(),
            final(self)@ == old(self)@.push_call(call@[0], first_pc),
    {
        let address = call.address();
        proof {
            lemma_push_call(self@, call@[0], first_pc);
        }
        self.ground.push_call(call);
        if !self.functions.contains_key(address) {
            let func = Function::new(address, first_pc, &mut self.resolver);
            self.functions.insert(func);
        }
    }

    /// Closes the innermost open call, of which there must be one: its cost
    /// is added to that of its caller, and the call is recorded in the
    /// function that made it.
    pub fn pop_call(&mut self)
        requires
            old(self).wf(),
            old(self)@.depth() >= 1,
        ensures
            final(self).wf(),
            final(self)@ == old(self)@.pop_call(),
    {
        proof {
            let view = self@;
            lemma_pop_call(view);
            lemma_chain_cost_bounds(view.chain);
        }
        let call = self.ground.pop_call();
        self.functions.add_call(call.caller(), call);
    }

    /// The profile in the callgrind format.
    pub fn write_callgrind(&self) -> (out: String)
        requires
            self.wf(),
        ensures
            out@ == self@.callgrind(),
    {
        let mut out = String::from_str(
            CALLGRIND_HEAD,
        );
        push_decimal(&mut out, self.total_cost as u128);
        out.append("\nfl=");
        match &self.assembly {
            Some(source) => {
                out.append(source.output_path().as_str());
            },
            None => {
                out.append(DEFAULT_ASM);
            },
        }
        out.append("\n");
        let functions = write_callgrind_functions(&self.functions, self.assembly.is_some());
        out.append(functions.as_str());
        out
    }

    /// The assembly listing that goes with the profile, where one is asked
    /// for.
    pub fn write_asm(&self) -> (out: Option<String>)
        requires
            self.wf(),
        ensures
            out.deep_view() == match self@.assembly {
                Some(source) => Some(source.listing(self@.resolver)),
                None => None,
            },
    {
        match &self.assembly {
            Some(source) => Some(source.write(&self.resolver)),
            None => None,
        }
    }
}

/// Walks the trace `items` and builds the profile `prof`; hands back how
/// many calls were open at the end of the trace and had to be closed.
///
/// No exit may arrive while no call is open. After an error the profile is
/// as the walk left it where it stopped.
pub fn process(items: Vec<Item>, prof: &mut Profile) -> (r: Result<usize, Error>)
    requires
        old(prof).wf(),
        old(prof)@.total_cost + items.len() <= Cost::MAX,
        stray_exit(item_views(items@), old(prof)@.depth() as nat, 0) is None,
    ensures
        final(prof).wf(),
        final(prof)@ == remains(old(prof)@, item_views(items@)),
        match r {
            Ok(open) => {
                &&& processed(old(prof)@, item_views(items@)) == Ok::<ProfileView, ErrorView>(
                    final(prof)@,
                )
                &&& open == left_open(old(prof)@, item_views(items@))
                &&& final(prof)@.depth() == 0
            },
            Err(e) => processed(old(prof)@, item_views(items@)) == Err::<ProfileView, ErrorView>(
                e@,
            ),
        },
{
    let ghost all = item_views(items@);
    let ghost start = Run::start(prof@);
    let ghost mut opened: Multiset<Frame> = Multiset::empty();
    let ghost count = items@.len();
    let mut pending: Option<Call> = None;
    for item in it: items.into_iter()
        invariant
            it.seq() == items@,
            count == items@.len(),
            all == item_views(items@),
            start == Run::start(old(prof)@),
            prof.wf(),
            prof@.total_cost + (count - it.index()) <= Cost::MAX,
            match pending {
                Some(call) => call@.len() == 1 && call@[0].address != GROUND_ZERO && call@[0].cost
                    == 0 && call@[0].caller == 0,
                None => true,
            },
            stray_exit(
                all,
                (prof@.depth() + if pending is Some {
                    1int
                } else {
                    0int
                }) as nat,
                it.index() as int,
            ) is None,
            run_items(start, all, 0) == run_items(
                Run {
                    profile: prof@,
                    pending: match pending {
                        Some(call) => Some(call@[0]),
                        None => None,
                    },
                    opened,
                },
                all,
                it.index() as int,
            ),
    {
        match item {
            Err(Error::TraceSkipped) => {},
            Err(e) => {
                return Err(e);
            },
            Ok((lc, ix)) => {
                match pending {
                    Some(call) => {
                        proof {
                            opened = opened.insert(
                                Frame { caller: prof@.chain.last().address, ..call@[0] },
                            );
                        }
                        prof.push_call(call, ix.pc());
                    },
                    None => {},
                }
                if !prof.keep_asm(&ix) {
                    return Err(Error::TraceInconsistent(ix.text(), lc));
                }
                prof.increment_cost(ix.pc());
                if ix.is_exit() {
                    prof.pop_call();
                    pending = None;
                } else if ix.is_call() {
                    match Call::from(&ix, lc) {
                        Ok(call) => {
                            pending = Some(call);
                        },
                        Err(e) => {
                            return Err(e);
                        },
                    }
                } else {
                    pending = None;
                }
            },
        }
    }
    let open = prof.depth();
    let ghost walked = prof@;
    let mut left: usize = open;
    while left > 0
        invariant
            prof.wf(),
            left == prof@.depth(),
            walked.flushed() == prof@.flushed(),
        decreases left,
    {
        prof.pop_call();
        left -= 1;
    }
    Ok(open)
}

/// Looks through the trace `items` for an exit that arrives while no call
/// is open, where `calls` calls are open before the trace: the line of the
/// first one, if there is one before the walk stops for another reason.
pub fn find_stray_exit(items: &Vec<Item>, calls: usize) -> (r: Option<usize>)
    ensures
        r == stray_exit(item_views(items@), calls as nat, 0),
{
    let ghost all = item_views(items@);
    let mut open: u128 = calls as u128;
    let mut i: usize = 0;
    while i < items.len()
        invariant
            i <= items.len(),
            all == item_views(items@),
            open <= calls + i,
            stray_exit(all, calls as nat, 0) == stray_exit(all, open as nat, i as int),
        decreases items.len() - i,
    {
        match &items[i] {
            Err(Error::TraceSkipped) => {},
            Err(_) => {
                return None;
            },
            Ok((lc, ix)) => {
                if ix.is_exit() {
                    if open == 0 {
                        return Some(*lc);
                    }
                    open = open - 1;
                } else {
                    match ix.call_target(*lc) {
                        Ok(target) => {
                            if target == GROUND_ZERO {
                                return None;
                            }
                            open = open + 1;
                        },
                        Err(_) => {},
                    }
                }
            },
        }
        i += 1;
    }
    None
}

/// Walks the trace `items` and builds the profile `prof`, after it has
/// looked through the trace: a trace with an exit that arrives while no
/// call is open is refused, and leaves the profile as it was.
pub fn walk_trace(items: Vec<Item>, prof: &mut Profile) -> (r: Result<usize, Error>)
    requires
        old(prof).wf(),
        old(prof)@.total_cost + items.len() <= Cost::MAX,
    ensures
        final(prof).wf(),
        final(prof)@ == walked_remains(old(prof)@, item_views(items@)),
        match r {
            Ok(open) => {
                &&& walked(old(prof)@, item_views(items@)) == Ok::<ProfileView, ErrorView>(
                    final(prof)@,
                )
                &&& open == left_open(old(prof)@, item_views(items@))
                &&& final(prof)@.depth() == 0
            },
            Err(e) => walked(old(prof)@, item_views(items@)) == Err::<ProfileView, ErrorView>(e@),
        },
{
    match find_stray_exit(&items, prof.depth()) {
        Some(lc) => Err(Error::ExitWithoutCall(lc)),
        None => process(items, prof),
    }
}

/// Reads the trace `text` line by line: what each line gives.
pub fn parse_items(text: &str) -> (items: Vec<Item>)
    ensures
        item_views(items@) == trace_items(lines(text@), lines(text@).len() as int),
        items@.len() == lines(text@).len(),
{
    let rows = split_lines(text);
    let mut items: Vec<Item> = Vec::new();
    let mut from: usize = 0;
    while from < rows.len()
        invariant
            from <= rows.len(),
            rows.deep_view() == lines(text@),
            items@.len() == from,
            item_views(items@) == trace_items(lines(text@), from as int),
        decreases rows.len() - from,
    {
        let to = block_end(from, rows.len());
        let found = captures_each(TRACE_INSTRUCTION, &rows, from, to);
        let mut i: usize = from;
        while i < to
            invariant
                from <= i <= to <= rows.len(),
                rows.deep_view() == lines(text@),
                items@.len() == i,
                item_views(items@) == trace_items(lines(text@), i as int),
                found is Ok <==> regex_compiles(TRACE_INSTRUCTION@),
                found is Ok ==> found->Ok_0.len() == to - from,
                found is Ok ==> forall|k: int|
                    0 <= k < to - from ==> (#[trigger] found->Ok_0[k]).deep_view()
                        == regex_captures(TRACE_INSTRUCTION@, rows[from + k]@),
            decreases to - i,
        {
            let lc = i + 1;
            let item: Item = match &found {
                Err(_) => Err(Error::Pattern),
                Ok(all) => {
                    match Instruction::from_captures(&all[i - from], rows[i].as_str(), lc) {
                        Ok(ix) => Ok((lc, ix)),
                        Err(e) => Err(e),
                    }
                },
            };
            let ghost before = item_views(items@);
            items.push(item);
            assert(item_views(items@) =~= before.push(item_view(item)));
            i += 1;
        }
        from = to;
    }
    items
}

/// Reads the trace `text` line by line and builds the profile `prof`; hands
/// back how many calls were open at the end of the trace and had to be
/// closed.
///
/// A trace with an exit that arrives while no call is open is refused and
/// leaves the profile as it was. After another error the profile is as the
/// walk left it where it stopped.
pub fn parse(text: &str, prof: &mut Profile) -> (r: Result<usize, Error>)
    requires
        old(prof).wf(),
        old(prof)@.total_cost + lines(text@).len() <= Cost::MAX,
    ensures
        final(prof).wf(),
        final(prof)@ == walked_remains(old(prof)@, items_of(text@)),
        match r {
            Ok(open) => {
                &&& parsed_trace(old(prof)@, text@) == Ok::<ProfileView, ErrorView>(final(prof)@)
                &&& open == left_open(old(prof)@, items_of(text@))
                &&& final(prof)@.depth() == 0
            },
            Err(e) => parsed_trace(old(prof)@, text@) == Err::<ProfileView, ErrorView>(e@),
        },
{
    walk_trace(parse_items(text), prof)
}

impl Profile {
    /// Reads the dump, if there is one, then the trace, and makes the
    /// profile of the trace.
    pub fn create(trace: &str, dump: Option<&str>, asm_path: Option<&str>) -> (r: Result<
        Profile,
        Error,
    >)
        ensures
            match r {
                Ok(prof) => prof.wf() && prof@.depth() == 0 && created(
                    trace@,
                    text_view(dump),
                    text_view(asm_path),
                ) == Ok::<ProfileView, ErrorView>(prof@),
                Err(e) => created(trace@, text_view(dump), text_view(asm_path)) == Err::<
                    ProfileView,
                    ErrorView,
                >(e@),
            },
    {
        let resolver = match read(dump) {
            Ok(resolver) => resolver,
            Err(e) => {
                return Err(e);
            },
        };
        let mut prof = match Profile::new(resolver, asm_path) {
            Ok(prof) => prof,
            Err(e) => {
                return Err(e);
            },
        };
        match walk_trace(parse_items(trace), &mut prof) {
            Ok(_) => Ok(prof),
            Err(e) => Err(e),
        }
    }
}

} // verus!
