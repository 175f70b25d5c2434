//! The calls of a trace in the order in which they were made.

use crate::bpf::{InstructionData, InstructionView};
use crate::error::{Error, ErrorView};
use crate::gen::trace::parse_items;
use crate::gen::walk::{item_views, trace_items, Item, ItemView};
use crate::number::{decimal, push_decimal};
use crate::resolver::{read, resolved, Resolver, ResolverView};
use crate::text::{lines, text_view};
use crate::trace::{contains_standard_header, standard_header};
use crate::{Address, ProgramCounter, GROUND_ZERO};
use vstd::prelude::*;
use vstd::string::{StrSliceExecFns, StringExecFns};

verus! {

/// One call of a trace.
#[derive(Clone, Copy, Debug, PartialEq, Eq, Structural)]
pub struct CallEvent {
    /// The address of the function that was called.
    pub address: Address,
    /// The program counter of the first instruction of that function.
    pub first_pc: ProgramCounter,
    /// How many calls were open when the call was made.
    pub depth: usize,
}

/// How far a trace was walked in search of its calls.
pub struct Walk {
    /// How many calls are open.
    pub depth: nat,
    /// The address of the call that the last instruction made: the next
    /// line must hold the first instruction of its function.
    pub pending: Option<Address>,
    /// The calls made so far.
    pub events: Seq<CallEvent>,
}

/// The walk after the instruction `ix` of line `lc`, once the call that
/// waited, if any, is settled: a call waits for the next line, and an exit
/// closes a call, of which one must be open.
pub open spec fn walk_instruction(
    walk: Walk,
    lc: usize,
    ix: InstructionView,
) -> Result<Walk, ErrorView> {
    if ix.is_call() {
        if ix.target() == GROUND_ZERO {
            Err(ErrorView::TraceParsing(ix.text, lc))
        } else {
            Ok(Walk { depth: walk.depth + 1, pending: Some(ix.target()), ..walk })
        }
    } else if ix.data is Exit {
        if walk.depth >= 1 {
            Ok(Walk { depth: (walk.depth - 1) as nat, ..walk })
        } else {
            Err(ErrorView::ExitWithoutCall(lc))
        }
    } else {
        Ok(walk)
    }
}

/// The walk after one more line.
///
/// The line after a call must hold an instruction, the first of the
/// function that was called: any other line is an error there. Elsewhere a
/// line that was skipped changes nothing.
pub open spec fn walk_item(walk: Walk, item: ItemView) -> Result<Walk, ErrorView> {
    match item {
        Err(e) => if walk.pending is None && e == ErrorView::TraceSkipped {
            Ok(walk)
        } else {
            Err(e)
        },
        Ok((lc, ix)) => match walk.pending {
            Some(address) => walk_instruction(
                Walk {
                    pending: None,
                    events: walk.events.push(
                        CallEvent {
                            address,
                            first_pc: ix.pc,
                            depth: (walk.depth - 1) as usize,
                        },
                    ),
                    ..walk
                },
                lc,
                ix,
            ),
            None => walk_instruction(walk, lc, ix),
        },
    }
}

/// The walk after the lines `items[i..]`, or the first error among them.
pub open spec fn walked(walk: Walk, items: Seq<ItemView>, i: int) -> Result<Walk, ErrorView>
    decreases items.len() - i,
{
    if i < 0 || i >= items.len() {
        Ok(walk)
    } else {
        match walk_item(walk, items[i]) {
            Err(e) => Err(e),
            Ok(next) => walked(next, items, i + 1),
        }
    }
}

/// The calls of the trace `items`, in the order in which they were made. A
/// trace that ends on a call lacks the line that must follow it.
pub open spec fn calls_of(items: Seq<ItemView>) -> Result<Seq<CallEvent>, ErrorView> {
    match walked(Walk { depth: 0, pending: None, events: Seq::empty() }, items, 0) {
        Err(e) => Err(e),
        Ok(walk) => if walk.pending is Some {
            Err(ErrorView::TraceSkipped)
        } else {
            Ok(walk.events)
        },
    }
}

/// Finds the calls of the trace `items`.
pub fn call_events(items: &Vec<Item>) -> (r: Result<Vec<CallEvent>, Error>)
    ensures
        match r {
            Ok(events) => calls_of(item_views(items@)) == Ok::<Seq<CallEvent>, ErrorView>(events@),
            Err(e) => calls_of(item_views(items@)) == Err::<Seq<CallEvent>, ErrorView>(e@),
        },
{
    let ghost all = item_views(items@);
    let ghost start = Walk { depth: 0, pending: None, events: Seq::empty() };
    let mut events: Vec<CallEvent> = Vec::new();
    let mut depth: usize = 0;
    let mut pending: Option<Address> = None;
    let mut i: usize = 0;
    while i < items.len()
        invariant
            i <= items.len(),
            all == item_views(items@),
            start == (Walk { depth: 0, pending: None, events: Seq::empty() }),
            depth <= i,
            pending is Some ==> depth >= 1,
            walked(start, all, 0) == walked(
                Walk { depth: depth as nat, pending, events: events@ },
                all,
                i as int,
            ),
        decreases items.len() - i,
    {
        match &items[i] {
            Err(e) => {
                let skipped = match e {
                    Error::TraceSkipped => true,
                    _ => false,
                };
                if !(pending.is_none() && skipped) {
                    return Err(e.duplicate());
                }
            },
            Ok((lc, ix)) => {
                match pending {
                    Some(address) => {
                        events.push(CallEvent { address, first_pc: ix.pc(), depth: depth - 1 });
                        pending = None;
                    },
                    None => {},
                }
                match ix.data() {
                    InstructionData::Call(target) | InstructionData::CallX(target) => {
                        if target == GROUND_ZERO {
                            return Err(Error::TraceParsing(ix.text(), *lc));
                        }
                        depth += 1;
                        pending = Some(target);
                    },
                    InstructionData::Exit => {
                        if depth == 0 {
                            return Err(Error::ExitWithoutCall(*lc));
                        }
                        depth -= 1;
                    },
                    _ => {},
                }
            },
        }
        i += 1;
    }
    if pending.is_some() {
        Err(Error::TraceSkipped)
    } else {
        Ok(events)
    }
}

/// The resolver after the first `upto` calls were looked up, each with the
/// first instruction of its function.
pub open spec fn resolved_calls(
    resolver: ResolverView,
    events: Seq<CallEvent>,
    upto: int,
) -> ResolverView
    decreases upto,
{
    if upto <= 0 {
        resolver
    } else {
        resolved_calls(resolver, events, upto - 1).update(
            events[upto - 1].address,
            events[upto - 1].first_pc,
            true,
        )
    }
}

/// How deep the first `upto` calls go: the largest number of calls that
/// were open at once.
pub open spec fn deepest(events: Seq<CallEvent>, upto: int) -> nat
    decreases upto,
{
    if upto <= 0 {
        0
    } else if events[upto - 1].depth + 1 > deepest(events, upto - 1) {
        (events[upto - 1].depth + 1) as nat
    } else {
        deepest(events, upto - 1)
    }
}

/// Whether the resolver knows the function of every call.
pub open spec fn calls_resolved(resolver: ResolverView, events: Seq<CallEvent>) -> bool {
    forall|k: int|
        0 <= k < events.len() ==> resolver.by_address.contains_key(
            (#[trigger] events[k]).address,
        )
}

/// Whether no call is a call of the ground, and none is deeper than the
/// machine can count.
pub open spec fn calls_valid(events: Seq<CallEvent>) -> bool {
    forall|k: int|
        0 <= k < events.len() ==> (#[trigger] events[k]).address != GROUND_ZERO && events[k].depth
            < usize::MAX
}

/// Looks every call up in the resolver; hands back how deep the calls go.
pub fn resolve_calls(events: &Vec<CallEvent>, resv: &mut Resolver) -> (max_depth: usize)
    requires
        old(resv)@.wf(),
        calls_valid(events@),
    ensures
        final(resv)@.wf(),
        final(resv)@ == resolved_calls(old(resv)@, events@, events.len() as int),
        calls_resolved(final(resv)@, events@),
        max_depth == deepest(events@, events.len() as int),
{
    let mut max_depth: usize = 0;
    let mut i: usize = 0;
    while i < events.len()
        invariant
            i <= events.len(),
            calls_valid(events@),
            resv@.wf(),
            resv@ == resolved_calls(old(resv)@, events@, i as int),
            forall|k: int|
                0 <= k < i ==> resv@.by_address.contains_key((#[trigger] events@[k]).address),
            max_depth == deepest(events@, i as int),
        decreases events.len() - i,
    {
        let event = events[i];
        resv.update(event.address, event.first_pc);
        if event.depth + 1 > max_depth {
            max_depth = event.depth + 1;
        }
        i += 1;
    }
    max_depth
}

/// Walks the trace `items` and looks its calls up in the resolver; hands
/// back how deep the calls go.
///
/// After an error the resolver is as it was.
pub fn update_resolver(items: &Vec<Item>, resv: &mut Resolver) -> (r: Result<usize, Error>)
    requires
        old(resv)@.wf(),
    ensures
        final(resv)@.wf(),
        match r {
            Ok(max_depth) => {
                &&& calls_of(item_views(items@)) is Ok
                &&& final(resv)@ == resolved_calls(
                    old(resv)@,
                    calls_of(item_views(items@))->Ok_0,
                    calls_of(item_views(items@))->Ok_0.len() as int,
                )
                &&& calls_resolved(final(resv)@, calls_of(item_views(items@))->Ok_0)
                &&& max_depth == deepest(
                    calls_of(item_views(items@))->Ok_0,
                    calls_of(item_views(items@))->Ok_0.len() as int,
                )
            },
            Err(e) => calls_of(item_views(items@)) == Err::<Seq<CallEvent>, ErrorView>(e@)
                && final(resv)@ == old(resv)@,
        },
{
    let count = items.len();
    match call_events(items) {
        Err(e) => Err(e),
        Ok(events) => {
            proof {
                assert(item_views(items@).len() == count);
                lemma_calls_valid(item_views(items@));
            }
            Ok(resolve_calls(&events, resv))
        },
    }
}

/// As many blanks as `n`.
pub open spec fn blanks(n: nat) -> Seq<char> {
    Seq::new(n, |i: int| ' ')
}

/// The number `n` in decimal digits, with blanks before it where it has
/// fewer digits than `width`.
pub open spec fn aligned(n: nat, width: nat) -> Seq<char> {
    if decimal(n).len() < width {
        blanks((width - decimal(n).len()) as nat) + decimal(n)
    } else {
        decimal(n)
    }
}

/// The line that tells of one call: in square brackets how many calls were
/// open, as wide as `depth_width`; a blank; `tab` blanks for each open call;
/// the name of the function.
pub open spec fn call_line(
    resolver: ResolverView,
    event: CallEvent,
    depth_width: nat,
    tab: nat,
) -> Seq<char> {
    "["@ + aligned(event.depth as nat, depth_width) + "] "@ + blanks(event.depth as nat * tab)
        + resolver.name_of(event.address) + "\n"@
}

/// The lines that tell of the first `upto` calls.
pub open spec fn call_lines(
    resolver: ResolverView,
    events: Seq<CallEvent>,
    depth_width: nat,
    tab: nat,
    upto: int,
) -> Seq<char>
    decreases upto,
{
    if upto <= 0 {
        Seq::empty()
    } else {
        call_lines(resolver, events, depth_width, tab, upto - 1) + call_line(
            resolver,
            events[upto - 1],
            depth_width,
            tab,
        )
    }
}

/// Appends `n` blanks.
fn push_blanks(out: &mut String, n: usize)
    ensures
        final(out)@ == old(out)@ + blanks(n as nat),
{
    let mut i: usize = 0;
    while i < n
        invariant
            i <= n,
            out@ == old(out)@ + blanks(i as nat),
        decreases n - i,
    {
        out.append(" ");
        proof {
            reveal_strlit(" ");
        }
        i += 1;
    }
}

/// Appends the line that tells of one call.
fn push_call_line(
    out: &mut String,
    resv: &Resolver,
    event: CallEvent,
    depth_width: usize,
    tab: usize,
)
    requires
        resv@.wf(),
        resv@.by_address.contains_key(event.address),
    ensures
        final(out)@ == old(out)@ + call_line(resv@, event, depth_width as nat, tab as nat),
{
    let mut number = String::new();
    push_decimal(&mut number, event.depth as u128);
    let digits = number.as_str().unicode_len();
    out.append("[");
    if digits < depth_width {
        push_blanks(out, depth_width - digits);
    }
    out.append(number.as_str());
    out.append("] ");
    let ghost head = out@;
    let mut i: usize = 0;
    while i < event.depth
        invariant
            i <= event.depth,
            out@ == head + blanks(i as nat * tab as nat),
        decreases event.depth - i,
    {
        push_blanks(out, tab);
        assert(i as nat * tab as nat + tab as nat == (i + 1) as nat * tab as nat)
            by (nonlinear_arith);
        i += 1;
    }
    out.append(resv.resolve_by_address(event.address).as_str());
    out.append("\n");
}

/// Tells of the calls of the trace `items`, one line for each, with the
/// names that the resolver gives to their functions.
pub fn trace_calls(
    items: &Vec<Item>,
    resv: &Resolver,
    depth_width: usize,
    tab: usize,
) -> (r: Result<String, Error>)
    requires
        resv@.wf(),
        calls_of(item_views(items@)) is Ok ==> calls_resolved(
            resv@,
            calls_of(item_views(items@))->Ok_0,
        ),
    ensures
        match r {
            Ok(out) => calls_of(item_views(items@)) is Ok && out@ == call_lines(
                resv@,
                calls_of(item_views(items@))->Ok_0,
                depth_width as nat,
                tab as nat,
                calls_of(item_views(items@))->Ok_0.len() as int,
            ),
            Err(e) => calls_of(item_views(items@)) == Err::<Seq<CallEvent>, ErrorView>(e@),
        },
{
    let events = match call_events(items) {
        Ok(events) => events,
        Err(e) => {
            return Err(e);
        },
    };
    let mut out = String::new();
    let mut i: usize = 0;
    while i < events.len()
        invariant
            i <= events.len(),
            resv@.wf(),
            calls_resolved(resv@, events@),
            out@ == call_lines(resv@, events@, depth_width as nat, tab as nat, i as int),
        decreases events.len() - i,
    {
        push_call_line(&mut out, resv, events[i], depth_width, tab);
        i += 1;
    }
    Ok(out)
}

/// No call of a trace is a call of the ground, and none is deeper than the
/// trace is long.
pub proof fn lemma_calls_valid(items: Seq<ItemView>)
    requires
        calls_of(items) is Ok,
        items.len() <= usize::MAX,
    ensures
        calls_valid(calls_of(items)->Ok_0),
{
    lemma_walked_valid(Walk { depth: 0, pending: None, events: Seq::empty() }, items, 0);
}

/// A walk keeps its calls valid.
proof fn lemma_walked_valid(walk: Walk, items: Seq<ItemView>, i: int)
    requires
        0 <= i <= items.len(),
        calls_valid(walk.events),
        walk.depth <= i,
        walk.pending is Some ==> walk.pending->Some_0 != GROUND_ZERO && walk.depth >= 1,
        items.len() <= usize::MAX,
        walked(walk, items, i) is Ok,
    ensures
        calls_valid(walked(walk, items, i)->Ok_0.events),
    decreases items.len() - i,
{
    if i < items.len() {
        lemma_walked_valid(walk_item(walk, items[i])->Ok_0, items, i + 1);
    }
}

/// The report of the calls of the trace `trace`, with the dump `dump` of the
/// program where there is one: a line for each call, in the order of the
/// calls, indented by `tab` blanks for each call that was open.
///
/// A trace without header is refused before anything else is read. The
/// number at the head of each line is as wide as the largest of them.
pub open spec fn reported(trace: Seq<char>, dump: Option<Seq<char>>, tab: usize) -> Result<
    Seq<char>,
    ErrorView,
> {
    match standard_header(trace) {
        Err(e) => Err(e),
        Ok(false) => Err(ErrorView::TraceFormat),
        Ok(true) => match resolved(dump) {
            Err(e) => Err(e),
            Ok(resolver) => match calls_of(trace_items(lines(trace), lines(trace).len() as int)) {
                Err(e) => Err(e),
                Ok(events) => Ok(
                    call_lines(
                        resolved_calls(resolver, events, events.len() as int),
                        events,
                        decimal(deepest(events, events.len() as int)).len(),
                        tab as nat,
                        events.len() as int,
                    ),
                ),
            },
        },
    }
}

/// Reports the calls of the trace `trace` in the order in which they were
/// made, with the dump `dump` of the program where there is one.
pub fn run(trace: &str, dump: Option<&str>, tab: usize) -> (r: Result<String, Error>)
    ensures
        match r {
            Ok(out) => reported(trace@, text_view(dump), tab) == Ok::<Seq<char>, ErrorView>(out@),
            Err(e) => reported(trace@, text_view(dump), tab) == Err::<Seq<char>, ErrorView>(e@),
        },
{
    match contains_standard_header(trace) {
        Err(e) => {
            return Err(e);
        },
        Ok(false) => {
            return Err(Error::TraceFormat);
        },
        Ok(true) => {},
    }
    let mut resv = match read(dump) {
        Ok(resv) => resv,
        Err(e) => {
            return Err(e);
        },
    };
    let items = parse_items(trace);
    let max_depth = match update_resolver(&items, &mut resv) {
        Ok(max_depth) => max_depth,
        Err(e) => {
            return Err(e);
        },
    };
    let mut number = String::new();
    push_decimal(&mut number, max_depth as u128);
    let depth_width = number.as_str().unicode_len();
    trace_calls(&items, &resv, depth_width, tab)
}

} // verus!
