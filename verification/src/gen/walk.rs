//! The walk through a trace: what each instruction does to the profile.

use crate::bpf::{parsed_line, Instruction, InstructionView};
use crate::error::{Error, ErrorView};
use crate::gen::chain::{calls_open, Frame};
use crate::gen::profile::{calls_owned, completed, costs_of};
use crate::gen::trace::{
    lemma_flushed, lemma_increment_cost, lemma_pop_call, lemma_push_call, ProfileView,
};
use crate::resolver::resolved;
use crate::text::lines;
use crate::{Cost, GROUND_ZERO};
use vstd::multiset::Multiset;
use vstd::prelude::*;

verus! {

/// What one line of a trace gives: its number and its instruction, or the
/// reason why it holds none.
pub type Item = Result<(usize, Instruction), Error>;

/// The mathematical value of an `Item`.
pub type ItemView = Result<(usize, InstructionView), ErrorView>;

/// The value of an item.
pub open spec fn item_view(item: Item) -> ItemView {
    match item {
        Ok((lc, ix)) => Ok((lc, ix@)),
        Err(e) => Err(e@),
    }
}

/// The values of the items.
pub open spec fn item_views(items: Seq<Item>) -> Seq<ItemView> {
    items.map_values(|item: Item| item_view(item))
}

/// How far a trace was walked: the profile so far, and the call that the
/// last instruction asked for, which is opened when the first instruction
/// of the function is seen.
pub struct Run {
    /// The profile so far.
    pub profile: ProfileView,
    /// The call that waits for the next instruction.
    pub pending: Option<Frame>,
    /// The calls that were opened so far, as they were made.
    pub opened: Multiset<Frame>,
}

impl Run {
    /// The walk that begins with the profile `profile`.
    pub open spec fn start(profile: ProfileView) -> Run {
        Run { profile, pending: None, opened: Multiset::empty() }
    }

    /// The profile is well formed, and the call that waits is a call of a
    /// function that has cost nothing yet.
    pub open spec fn wf(self) -> bool {
        &&& self.profile.wf()
        &&& match self.pending {
            Some(frame) => frame.address != GROUND_ZERO && frame.cost == 0,
            None => true,
        }
    }

    /// How many calls were made and have not returned: those that are open,
    /// and the one that waits.
    pub open spec fn calls(self) -> nat {
        if self.pending is Some {
            (self.profile.depth() + 1) as nat
        } else {
            self.profile.depth() as nat
        }
    }
}

/// Where a walk has come to: the state that it reached, and the error that
/// stopped it there, if one did.
pub struct Walked {
    /// The state that the walk reached.
    pub run: Run,
    /// The error that stopped the walk.
    pub error: Option<ErrorView>,
}

/// The call that the instruction `ix` asks for.
pub open spec fn call_of(ix: InstructionView) -> Frame {
    Frame { address: ix.target(), caller: 0, caller_pc: ix.pc, cost: 0 }
}

/// The walk after the instruction `ix` of line `lc`.
///
/// The call that waits is opened first: `ix` is the first instruction of
/// its function. Then the instruction is added to the assembly listing,
/// where one is asked for: an instruction that the listing does not take
/// stops the walk there. Then the instruction is counted. An exit closes
/// the innermost open call, of which there must be one. A call waits for
/// the next instruction; a call of the ground is malformed and stops the
/// walk.
pub open spec fn step(run: Run, lc: usize, ix: InstructionView) -> Walked {
    let entered = match run.pending {
        Some(frame) => run.profile.push_call(frame, ix.pc),
        None => run.profile,
    };
    let opened = match run.pending {
        Some(frame) => run.opened.insert(
            Frame { caller: run.profile.chain.last().address, ..frame },
        ),
        None => run.opened,
    };
    let kept = entered.keep_asm(ix);
    let counted = kept.increment_cost(ix.pc);
    if !entered.keeps(ix) {
        Walked {
            run: Run { profile: kept, pending: None, opened },
            error: Some(ErrorView::TraceInconsistent(ix.text, lc)),
        }
    } else if ix.data is Exit {
        Walked {
            run: Run {
                profile: if counted.depth() >= 1 {
                    counted.pop_call()
                } else {
                    counted
                },
                pending: None,
                opened,
            },
            error: None,
        }
    } else if ix.is_call() {
        if ix.target() == GROUND_ZERO {
            Walked {
                run: Run { profile: counted, pending: None, opened },
                error: Some(ErrorView::TraceParsing(ix.text, lc)),
            }
        } else {
            Walked {
                run: Run { profile: counted, pending: Some(call_of(ix)), opened },
                error: None,
            }
        }
    } else {
        Walked { run: Run { profile: counted, pending: None, opened }, error: None }
    }
}

/// The walk after the items `items[i..]`: it stops at the first error among
/// them. An item that says that its line was skipped changes nothing.
pub open spec fn run_items(run: Run, items: Seq<ItemView>, i: int) -> Walked
    decreases items.len() - i,
{
    if i < 0 || i >= items.len() {
        Walked { run, error: None }
    } else {
        match items[i] {
            Err(ErrorView::TraceSkipped) => run_items(run, items, i + 1),
            Err(e) => Walked { run, error: Some(e) },
            Ok((lc, ix)) => if step(run, lc, ix).error is Some {
                step(run, lc, ix)
            } else {
                run_items(step(run, lc, ix).run, items, i + 1)
            },
        }
    }
}

/// The line of the first exit among `items[i..]` that arrives while no call
/// is open, where `calls` calls were made and have not returned before
/// them; none where an item that is an error, or a call of the ground,
/// comes before it.
pub open spec fn stray_exit(items: Seq<ItemView>, calls: nat, i: int) -> Option<usize>
    decreases items.len() - i,
{
    if i < 0 || i >= items.len() {
        None
    } else {
        match items[i] {
            Err(ErrorView::TraceSkipped) => stray_exit(items, calls, i + 1),
            Err(e) => None,
            Ok((lc, ix)) => if ix.data is Exit {
                if calls == 0 {
                    Some(lc)
                } else {
                    stray_exit(items, (calls - 1) as nat, i + 1)
                }
            } else if ix.is_call() {
                if ix.target() == GROUND_ZERO {
                    None
                } else {
                    stray_exit(items, calls + 1, i + 1)
                }
            } else {
                stray_exit(items, calls, i + 1)
            },
        }
    }
}

/// The profile after the trace `items`, or the first error of the trace.
///
/// The calls that are open at the end of the trace are closed as if they
/// had returned; a call that waits there for an instruction is dropped.
pub open spec fn processed(profile: ProfileView, items: Seq<ItemView>) -> Result<
    ProfileView,
    ErrorView,
> {
    match run_items(Run::start(profile), items, 0).error {
        None => Ok(run_items(Run::start(profile), items, 0).run.profile.flushed()),
        Some(e) => Err(e),
    }
}

/// What is left of the profile after the trace `items`, with or without an
/// error: after an error, the profile as the walk left it where it stopped.
pub open spec fn remains(profile: ProfileView, items: Seq<ItemView>) -> ProfileView {
    match run_items(Run::start(profile), items, 0).error {
        None => run_items(Run::start(profile), items, 0).run.profile.flushed(),
        Some(e) => run_items(Run::start(profile), items, 0).run.profile,
    }
}

/// How many calls are open after the trace `items`, before they are closed;
/// nothing where the trace has an error.
pub open spec fn left_open(profile: ProfileView, items: Seq<ItemView>) -> int {
    match run_items(Run::start(profile), items, 0).error {
        None => run_items(Run::start(profile), items, 0).run.profile.depth(),
        Some(e) => 0,
    }
}

/// The calls that the trace `items` opens, as they were made. A call is
/// opened when the first instruction of its function is met.
pub open spec fn opened(profile: ProfileView, items: Seq<ItemView>) -> Multiset<Frame> {
    run_items(Run::start(profile), items, 0).run.opened
}

/// Whether the trace `items` ends on a call, which waits for an instruction
/// that does not come.
pub open spec fn ends_on_call(profile: ProfileView, items: Seq<ItemView>) -> bool {
    run_items(Run::start(profile), items, 0).run.pending is Some
}

/// How many of the items `items[i..]` hold an instruction.
pub open spec fn instructions(items: Seq<ItemView>, i: int) -> nat
    decreases items.len() - i,
{
    if i < 0 || i >= items.len() {
        0
    } else if items[i] is Ok {
        1 + instructions(items, i + 1)
    } else {
        instructions(items, i + 1)
    }
}

/// How many of the items `items[i..]` hold a call.
pub open spec fn call_items(items: Seq<ItemView>, i: int) -> nat
    decreases items.len() - i,
{
    if i < 0 || i >= items.len() {
        0
    } else if items[i] is Ok && items[i]->Ok_0.1.is_call() {
        1 + call_items(items, i + 1)
    } else {
        call_items(items, i + 1)
    }
}

/// Whether none of the items `items[i..]` stops a walk by itself: each holds
/// an instruction or says that its line was skipped, and no instruction is
/// a call of the ground.
pub open spec fn clean(items: Seq<ItemView>, i: int) -> bool {
    forall|k: int|
        i <= k < items.len() ==> match #[trigger] items[k] {
            Ok((lc, ix)) => !(ix.is_call() && ix.target() == GROUND_ZERO),
            Err(e) => e == ErrorView::TraceSkipped,
        }
}

/// What the first `upto` lines of a trace give, line by line; the lines are
/// numbered from 1.
pub open spec fn trace_items(lines: Seq<Seq<char>>, upto: int) -> Seq<ItemView> {
    Seq::new(
        upto as nat,
        |i: int|
            match parsed_line(lines[i], (i + 1) as usize) {
                Ok(ix) => Ok(((i + 1) as usize, ix)),
                Err(e) => Err(e),
            },
    )
}

/// What the lines of the trace `text` give.
pub open spec fn items_of(text: Seq<char>) -> Seq<ItemView> {
    trace_items(lines(text), lines(text).len() as int)
}

/// The profile after the trace `items`, where the trace is looked through
/// first: a trace with an exit that arrives while no call is open is
/// refused before anything is walked.
pub open spec fn walked(profile: ProfileView, items: Seq<ItemView>) -> Result<
    ProfileView,
    ErrorView,
> {
    match stray_exit(items, profile.depth() as nat, 0) {
        Some(lc) => Err(ErrorView::ExitWithoutCall(lc)),
        None => processed(profile, items),
    }
}

/// What is left of the profile after the trace `items`, where the trace is
/// looked through first: a trace that is refused leaves it as it was.
pub open spec fn walked_remains(profile: ProfileView, items: Seq<ItemView>) -> ProfileView {
    match stray_exit(items, profile.depth() as nat, 0) {
        Some(lc) => profile,
        None => remains(profile, items),
    }
}

/// The profile `profile` after the trace `text` was read into it.
pub open spec fn parsed_trace(profile: ProfileView, text: Seq<char>) -> Result<
    ProfileView,
    ErrorView,
> {
    walked(profile, items_of(text))
}

/// What makes a profile: the trace, the dump of the program where there is
/// one, and where the assembly listing is to go where one is asked for.
pub open spec fn created(
    trace: Seq<char>,
    dump: Option<Seq<char>>,
    asm_path: Option<Seq<char>>,
) -> Result<ProfileView, ErrorView> {
    match resolved(dump) {
        Err(e) => Err(e),
        Ok(resolver) => parsed_trace(ProfileView::new(resolver, asm_path), trace),
    }
}

/// One instruction that does not stop the walk keeps it well formed and
/// counts for one unit; it makes a call, lets one return, or neither.
pub proof fn lemma_step_wf(run: Run, lc: usize, ix: InstructionView)
    requires
        run.wf(),
        run.profile.total_cost < Cost::MAX,
        step(run, lc, ix).error is None,
        !(ix.data is Exit && run.calls() == 0),
    ensures
        step(run, lc, ix).run.wf(),
        step(run, lc, ix).run.profile.total_cost == run.profile.total_cost + 1,
        step(run, lc, ix).run.profile.assembly is None == run.profile.assembly is None,
        step(run, lc, ix).run.calls() == run.calls() + if ix.data is Exit {
            -1int
        } else if ix.is_call() {
            1int
        } else {
            0int
        },
{
    let entered = match run.pending {
        Some(frame) => run.profile.push_call(frame, ix.pc),
        None => run.profile,
    };
    if run.pending is Some {
        lemma_push_call(run.profile, run.pending->Some_0, ix.pc);
    }
    let kept = entered.keep_asm(ix);
    lemma_increment_cost(kept, ix.pc);
    if ix.data is Exit {
        lemma_pop_call(kept.increment_cost(ix.pc));
    }
}

/// The calls that are open or completed after an instruction that does not
/// stop the walk are those from before it and the call that it opened, if
/// it opened one: where they were the calls `base` and the calls opened so
/// far, they still are. A call that waited is opened, and a call waits.
pub proof fn lemma_step(run: Run, lc: usize, ix: InstructionView, base: Multiset<Frame>)
    requires
        run.wf(),
        run.profile.total_cost < Cost::MAX,
        step(run, lc, ix).error is None,
        !(ix.data is Exit && run.calls() == 0),
        completed(run.profile.functions).add(calls_open(run.profile.chain)) == base.add(
            run.opened,
        ),
    ensures
        completed(step(run, lc, ix).run.profile.functions).add(
            calls_open(step(run, lc, ix).run.profile.chain),
        ) == base.add(step(run, lc, ix).run.opened),
        step(run, lc, ix).run.opened.len() + (if step(run, lc, ix).run.pending is Some {
            1int
        } else {
            0int
        }) == run.opened.len() + (if run.pending is Some {
            1int
        } else {
            0int
        }) + if ix.is_call() {
            1int
        } else {
            0int
        },
{
    let entered = match run.pending {
        Some(frame) => run.profile.push_call(frame, ix.pc),
        None => run.profile,
    };
    if run.pending is Some {
        lemma_push_call(run.profile, run.pending->Some_0, ix.pc);
        let pushed = Frame { caller: run.profile.chain.last().address, ..run.pending->Some_0 };
        let done = completed(run.profile.functions);
        let open = calls_open(run.profile.chain);
        assert(done.add(open.insert(pushed)) =~= done.add(open).insert(pushed));
    }
    let kept = entered.keep_asm(ix);
    lemma_increment_cost(kept, ix.pc);
    let counted = kept.increment_cost(ix.pc);
    if ix.data is Exit {
        lemma_pop_call(counted);
    }
}

/// The items of a trace that do not stop the walk keep it well formed, and
/// each instruction counts for one unit. The calls that are open or
/// completed after them are those from before them and the calls that they
/// opened; each call among the items was opened, or waits at the end.
pub proof fn lemma_run_items(run: Run, items: Seq<ItemView>, i: int, base: Multiset<Frame>)
    requires
        run.wf(),
        0 <= i <= items.len(),
        run.profile.total_cost + (items.len() - i) <= Cost::MAX,
        run_items(run, items, i).error is None,
        stray_exit(items, run.calls(), i) is None,
        completed(run.profile.functions).add(calls_open(run.profile.chain)) == base.add(
            run.opened,
        ),
    ensures
        run_items(run, items, i).run.wf(),
        run_items(run, items, i).run.profile.total_cost == run.profile.total_cost + instructions(
            items,
            i,
        ),
        completed(run_items(run, items, i).run.profile.functions).add(
            calls_open(run_items(run, items, i).run.profile.chain),
        ) == base.add(run_items(run, items, i).run.opened),
        run_items(run, items, i).run.opened.len() + (if run_items(
            run,
            items,
            i,
        ).run.pending is Some {
            1int
        } else {
            0int
        }) == run.opened.len() + (if run.pending is Some {
            1int
        } else {
            0int
        }) + call_items(items, i),
        instructions(items, i) <= items.len() - i,
    decreases items.len() - i,
{
    if i < items.len() {
        match items[i] {
            Err(e) => {
                lemma_run_items(run, items, i + 1, base);
            },
            Ok((lc, ix)) => {
                lemma_step_wf(run, lc, ix);
                lemma_step(run, lc, ix, base);
                lemma_run_items(step(run, lc, ix).run, items, i + 1, base);
            },
        }
    }
}

/// A trace whose items do not stop a walk by themselves, without an exit
/// that arrives while no call is open, is walked to its end where no
/// assembly listing is asked for.
pub proof fn lemma_walk_succeeds(run: Run, items: Seq<ItemView>, i: int)
    requires
        run.wf(),
        0 <= i <= items.len(),
        run.profile.total_cost + (items.len() - i) <= Cost::MAX,
        run.profile.assembly is None,
        clean(items, i),
        stray_exit(items, run.calls(), i) is None,
    ensures
        run_items(run, items, i).error is None,
    decreases items.len() - i,
{
    if i < items.len() {
        match items[i] {
            Err(e) => {
                lemma_walk_succeeds(run, items, i + 1);
            },
            Ok((lc, ix)) => {
                lemma_step_wf(run, lc, ix);
                lemma_walk_succeeds(step(run, lc, ix).run, items, i + 1);
            },
        }
    }
}

/// Every instruction of a trace costs one unit, charged to one function or
/// to the ground: after a trace that is walked to its end, what was
/// executed has grown by the number of the lines that hold an instruction,
/// and it is what the functions, the ground among them, cost together.
pub proof fn lemma_conservation(profile: ProfileView, items: Seq<ItemView>)
    requires
        profile.wf(),
        profile.total_cost + items.len() <= Cost::MAX,
        stray_exit(items, profile.depth() as nat, 0) is None,
        processed(profile, items) is Ok,
    ensures
        processed(profile, items)->Ok_0.wf(),
        processed(profile, items)->Ok_0.total_cost == profile.total_cost + instructions(items, 0),
        costs_of(processed(profile, items)->Ok_0.functions) == processed(
            profile,
            items,
        )->Ok_0.total_cost,
{
    let base = completed(profile.functions).add(calls_open(profile.chain));
    assert(base.add(Multiset::empty()) =~= base);
    lemma_run_items(Run::start(profile), items, 0, base);
    lemma_flushed(run_items(Run::start(profile), items, 0).run.profile);
}

/// After a trace no call is open, and every call that was open before it or
/// was opened by it is completed, once for each time that it was made: the
/// calls that the functions hold as completed are those that they held
/// before, those that were open, and those that the trace opened, each with
/// the function that made it. The trace
/// opened one call for each of its items that holds a call, but for a call
/// on which it ends.
pub proof fn lemma_balance(profile: ProfileView, items: Seq<ItemView>)
    requires
        profile.wf(),
        profile.total_cost + items.len() <= Cost::MAX,
        stray_exit(items, profile.depth() as nat, 0) is None,
        processed(profile, items) is Ok,
    ensures
        processed(profile, items)->Ok_0.depth() == 0,
        calls_owned(processed(profile, items)->Ok_0.functions),
        completed(processed(profile, items)->Ok_0.functions) == completed(profile.functions).add(
            calls_open(profile.chain),
        ).add(opened(profile, items)),
        opened(profile, items).len() + (if ends_on_call(profile, items) {
            1int
        } else {
            0int
        }) == call_items(items, 0),
{
    let base = completed(profile.functions).add(calls_open(profile.chain));
    assert(base.add(Multiset::empty()) =~= base);
    lemma_run_items(Run::start(profile), items, 0, base);
    lemma_flushed(run_items(Run::start(profile), items, 0).run.profile);
}

/// A trace in which no item stops the walk by itself and no exit arrives
/// while no call is open gives a profile, where no assembly listing is
/// asked for: in that profile no call is open, and what was executed has
/// grown by the number of the instructions.
pub proof fn lemma_succeeds(profile: ProfileView, items: Seq<ItemView>)
    requires
        profile.wf(),
        profile.total_cost + items.len() <= Cost::MAX,
        profile.assembly is None,
        clean(items, 0),
        stray_exit(items, profile.depth() as nat, 0) is None,
    ensures
        processed(profile, items) is Ok,
        processed(profile, items)->Ok_0.depth() == 0,
        processed(profile, items)->Ok_0.total_cost == profile.total_cost + instructions(items, 0),
{
    lemma_walk_succeeds(Run::start(profile), items, 0);
    lemma_conservation(profile, items);
    lemma_balance(profile, items);
}

} // verus!
