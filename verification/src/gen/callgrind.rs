//! The functions of a profile in the callgrind format.

use crate::gen::chain::Frame;
use crate::gen::costs::summed;
use crate::gen::profile::{calls_known, has_function, index_of, Function, FunctionView, Functions};
use crate::number::{decimal, hexadecimal, push_decimal, push_hexadecimal};
use crate::{Address, Cost, ProgramCounter, GROUND_ZERO};
use vstd::prelude::*;
use vstd::string::StringExecFns;

verus! {

/// The completed calls of one function that count as one: how many they
/// are, and what they cost together.
#[derive(Clone, Copy, Debug, PartialEq, Eq)]
pub struct CallGroup {
    /// The program counter of the instruction that made the first of the
    /// calls.
    pub caller_pc: ProgramCounter,
    /// The address of the function that was called.
    pub address: Address,
    /// How many calls there are.
    pub calls: usize,
    /// What the calls cost together, with all that they called.
    pub cost: u128,
}

/// The mathematical value of a `CallGroup`.
pub struct GroupView {
    pub caller_pc: ProgramCounter,
    pub address: Address,
    pub calls: nat,
    pub cost: nat,
}

impl View for CallGroup {
    type V = GroupView;

    open spec fn view(&self) -> GroupView {
        GroupView {
            caller_pc: self.caller_pc,
            address: self.address,
            calls: self.calls as nat,
            cost: self.cost as nat,
        }
    }
}

/// Whether the call `frame` belongs to the group `group`: it calls the same
/// function and, where calls count by their place, from the same place.
pub open spec fn in_group(group: GroupView, frame: Frame, by_site: bool) -> bool {
    group.address == frame.address && (by_site ==> group.caller_pc == frame.caller_pc)
}

/// The place, at or after `i`, of the first group that the call `frame`
/// belongs to; the number of groups where there is none.
pub open spec fn group_index(groups: Seq<GroupView>, frame: Frame, by_site: bool, i: int) -> int
    decreases groups.len() - i,
{
    if i < 0 || i >= groups.len() {
        groups.len() as int
    } else if in_group(groups[i], frame, by_site) {
        i
    } else {
        group_index(groups, frame, by_site, i + 1)
    }
}

/// The groups after the call `frame` was counted: in the first group that it
/// belongs to, or in a new group at the end.
pub open spec fn grouped_with(groups: Seq<GroupView>, frame: Frame, by_site: bool) -> Seq<
    GroupView,
> {
    let k = group_index(groups, frame, by_site, 0);
    if k < groups.len() {
        groups.update(
            k,
            GroupView {
                calls: groups[k].calls + 1,
                cost: groups[k].cost + frame.cost as nat,
                ..groups[k]
            },
        )
    } else {
        groups.push(
            GroupView {
                caller_pc: frame.caller_pc,
                address: frame.address,
                calls: 1,
                cost: frame.cost as nat,
            },
        )
    }
}

/// The groups of the first `upto` calls, in the order in which their first
/// calls stand.
///
/// Where calls count by their place, those that call one function from one
/// place make a group; else all those that call one function do, and the
/// place of the first of them stands for the group.
pub open spec fn grouped(calls: Seq<Frame>, by_site: bool, upto: int) -> Seq<GroupView>
    decreases upto,
{
    if upto <= 0 {
        Seq::empty()
    } else {
        grouped_with(grouped(calls, by_site, upto - 1), calls[upto - 1], by_site)
    }
}

/// A group holds no more calls than were counted, and there are no more
/// groups than calls; the calls of a group cost no more than as many calls
/// can.
pub proof fn lemma_grouped_bounds(calls: Seq<Frame>, by_site: bool, upto: int)
    requires
        0 <= upto <= calls.len(),
    ensures
        grouped(calls, by_site, upto).len() <= upto,
        forall|k: int|
            0 <= k < grouped(calls, by_site, upto).len() ==> {
                &&& (#[trigger] grouped(calls, by_site, upto)[k]).calls <= upto
                &&& grouped(calls, by_site, upto)[k].cost <= upto * Cost::MAX
            },
    decreases upto,
{
    if upto > 0 {
        lemma_grouped_bounds(calls, by_site, upto - 1);
        let before = grouped(calls, by_site, upto - 1);
        let frame = calls[upto - 1];
        lemma_group_index(before, frame, by_site, 0);
    }
}

/// The first group that a call belongs to lies at or after the place where
/// the search began, and no group between the two holds the call.
pub proof fn lemma_group_index(groups: Seq<GroupView>, frame: Frame, by_site: bool, i: int)
    requires
        0 <= i <= groups.len(),
    ensures
        i <= group_index(groups, frame, by_site, i) <= groups.len(),
        group_index(groups, frame, by_site, i) < groups.len() ==> in_group(
            groups[group_index(groups, frame, by_site, i)],
            frame,
            by_site,
        ),
        forall|j: int|
            i <= j < group_index(groups, frame, by_site, i) ==> !in_group(
                #[trigger] groups[j],
                frame,
                by_site,
            ),
    decreases groups.len() - i,
{
    if i < groups.len() && !in_group(groups[i], frame, by_site) {
        lemma_group_index(groups, frame, by_site, i + 1);
    }
}

/// The values of the groups.
pub open spec fn group_views(groups: Seq<CallGroup>) -> Seq<GroupView> {
    groups.map_values(|g: CallGroup| g@)
}

/// Groups the completed calls `calls`.
pub fn group_calls(calls: &Vec<Frame>, by_site: bool) -> (groups: Vec<CallGroup>)
    ensures
        group_views(groups@) == grouped(calls@, by_site, calls.len() as int),
{
    let mut groups: Vec<CallGroup> = Vec::new();
    let mut n: usize = 0;
    while n < calls.len()
        invariant
            n <= calls.len(),
            group_views(groups@) == grouped(calls@, by_site, n as int),
        decreases calls.len() - n,
    {
        let frame = calls[n];
        let ghost before = group_views(groups@);
        proof {
            lemma_grouped_bounds(calls@, by_site, n as int);
            assert(n * Cost::MAX <= usize::MAX * Cost::MAX) by (nonlinear_arith)
                requires
                    n <= usize::MAX,
            ;
            assert(usize::MAX * Cost::MAX + Cost::MAX <= u128::MAX) by (nonlinear_arith)
                requires
                    usize::MAX <= u64::MAX,
                    Cost::MAX == u64::MAX,
                    u64::MAX == 0xffff_ffff_ffff_ffff,
                    u128::MAX == 0xffff_ffff_ffff_ffff_ffff_ffff_ffff_ffff,
            ;
        }
        let mut k: usize = 0;
        while k < groups.len() && !(groups[k].address == frame.address && (!by_site
            || groups[k].caller_pc == frame.caller_pc))
            invariant
                k <= groups.len(),
                before == group_views(groups@),
                group_index(before, frame, by_site, 0) == group_index(
                    before,
                    frame,
                    by_site,
                    k as int,
                ),
            decreases groups.len() - k,
        {
            k += 1;
        }
        if k < groups.len() {
            let group = groups[k];
            groups.set(
                k,
                CallGroup {
                    calls: group.calls + 1,
                    cost: group.cost + frame.cost as u128,
                    ..group
                },
            );
        } else {
            groups.push(
                CallGroup {
                    caller_pc: frame.caller_pc,
                    address: frame.address,
                    calls: 1,
                    cost: frame.cost as u128,
                },
            );
        }
        n += 1;
    }
    groups
}

/// A line that gives a cost: a position, a blank, the cost, and a line feed.
pub open spec fn cost_line(position: nat, cost: nat) -> Seq<char> {
    decimal(position) + " "@ + decimal(cost) + "\n"@
}

/// The lines of the first `upto` costs, one for each.
pub open spec fn cost_lines(costs: Seq<(ProgramCounter, Cost)>, upto: int) -> Seq<char>
    decreases upto,
{
    if upto <= 0 {
        Seq::empty()
    } else {
        cost_lines(costs, upto - 1) + cost_line(costs[upto - 1].0 as nat, costs[upto - 1].1 as nat)
    }
}

/// The three lines of a group of calls: the name of the function that was
/// called, the number of the calls with the address of that function, and
/// the place of the calls with what they cost.
pub open spec fn group_block(fs: Seq<FunctionView>, group: GroupView) -> Seq<char> {
    "cfn="@ + fs[index_of(fs, group.address)].name + "\n"@ + "calls="@ + decimal(group.calls)
        + " 0x"@ + hexadecimal(group.address as nat) + "\n"@ + cost_line(
        group.caller_pc as nat,
        group.cost,
    )
}

/// The lines of the first `upto` groups.
pub open spec fn group_blocks(fs: Seq<FunctionView>, groups: Seq<GroupView>, upto: int) -> Seq<char>
    decreases upto,
{
    if upto <= 0 {
        Seq::empty()
    } else {
        group_blocks(fs, groups, upto - 1) + group_block(fs, groups[upto - 1])
    }
}

/// The block of one function: an empty line and its name; its own costs,
/// line by line where `by_site` is set, else their sum at its first
/// instruction; then its calls, group by group.
pub open spec fn function_block(fs: Seq<FunctionView>, f: FunctionView, by_site: bool) -> Seq<
    char,
> {
    let groups = grouped(f.calls, by_site, f.calls.len() as int);
    "\nfn="@ + f.name + "\n"@ + (if by_site {
        cost_lines(f.costs, f.costs.len() as int)
    } else {
        cost_line(f.first_pc as nat, summed(f.costs, f.costs.len() as int))
    }) + group_blocks(fs, groups, groups.len() as int)
}

/// The blocks of the first `upto` functions, the ground left out.
pub open spec fn function_blocks(fs: Seq<FunctionView>, by_site: bool, upto: int) -> Seq<char>
    decreases upto,
{
    if upto <= 0 {
        Seq::empty()
    } else if fs[upto - 1].address == GROUND_ZERO {
        function_blocks(fs, by_site, upto - 1)
    } else {
        function_blocks(fs, by_site, upto - 1) + function_block(fs, fs[upto - 1], by_site)
    }
}

/// The part of a profile that tells of its functions: the block of each but
/// the ground, in the order in which the functions were met.
pub open spec fn callgrind_functions(fs: Seq<FunctionView>, by_site: bool) -> Seq<char> {
    function_blocks(fs, by_site, fs.len() as int)
}

/// The groups of calls to known functions are groups of known functions.
pub proof fn lemma_grouped_known(fs: Seq<FunctionView>, calls: Seq<Frame>, by_site: bool, upto: int)
    requires
        0 <= upto <= calls.len(),
        forall|j: int| 0 <= j < calls.len() ==> has_function(fs, (#[trigger] calls[j]).address),
    ensures
        forall|k: int|
            0 <= k < grouped(calls, by_site, upto).len() ==> has_function(
                fs,
                (#[trigger] grouped(calls, by_site, upto)[k]).address,
            ),
    decreases upto,
{
    if upto > 0 {
        lemma_grouped_known(fs, calls, by_site, upto - 1);
        let before = grouped(calls, by_site, upto - 1);
        lemma_group_index(before, calls[upto - 1], by_site, 0);
    }
}

/// Appends a line that gives a cost.
fn push_cost_line(out: &mut String, position: usize, cost: u128)
    ensures
        final(out)@ == old(out)@ + cost_line(position as nat, cost as nat),
{
    push_decimal(out, position as u128);
    out.append(" ");
    push_decimal(out, cost);
    out.append("\n");
}

/// Appends a line for each of the costs.
fn push_cost_lines(out: &mut String, costs: &Vec<(ProgramCounter, Cost)>)
    ensures
        final(out)@ == old(out)@ + cost_lines(costs@, costs.len() as int),
{
    let mut i: usize = 0;
    while i < costs.len()
        invariant
            i <= costs.len(),
            out@ == old(out)@ + cost_lines(costs@, i as int),
        decreases costs.len() - i,
    {
        push_cost_line(out, costs[i].0, costs[i].1 as u128);
        i += 1;
    }
}

/// The sum of the costs.
fn sum_costs(costs: &Vec<(ProgramCounter, Cost)>) -> (sum: u128)
    ensures
        sum == summed(costs@, costs.len() as int),
{
    let mut sum: u128 = 0;
    let mut i: usize = 0;
    while i < costs.len()
        invariant
            i <= costs.len(),
            sum == summed(costs@, i as int),
            sum <= i * Cost::MAX,
        decreases costs.len() - i,
    {
        proof {
            assert((i + 1) * Cost::MAX <= u128::MAX) by (nonlinear_arith)
                requires
                    i + 1 <= usize::MAX,
                    usize::MAX <= u64::MAX,
                    Cost::MAX == u64::MAX,
                    u64::MAX == 0xffff_ffff_ffff_ffff,
                    u128::MAX == 0xffff_ffff_ffff_ffff_ffff_ffff_ffff_ffff,
            ;
        }
        sum = sum + costs[i].1 as u128;
        i += 1;
    }
    sum
}

/// Appends the three lines of a group of calls.
fn push_group_block(out: &mut String, functions: &Functions, group: &CallGroup)
    requires
        functions.wf(),
        has_function(functions@, group.address),
    ensures
        final(out)@ == old(out)@ + group_block(functions@, group@),
{
    let callee = functions.get(group.address).unwrap();
    out.append("cfn=");
    out.append(callee.name().as_str());
    out.append("\n");
    out.append("calls=");
    push_decimal(out, group.calls as u128);
    out.append(" 0x");
    push_hexadecimal(out, group.address as u128);
    out.append("\n");
    push_cost_line(out, group.caller_pc, group.cost);
}

/// Appends the block of the function `f`.
fn push_function_block(out: &mut String, functions: &Functions, f: &Function, by_site: bool)
    requires
        functions.wf(),
        forall|j: int|
            0 <= j < f@.calls.len() ==> has_function(functions@, (#[trigger] f@.calls[j]).address),
    ensures
        final(out)@ == old(out)@ + function_block(functions@, f@, by_site),
{
    out.append("\nfn=");
    out.append(f.name().as_str());
    out.append("\n");
    if by_site {
        push_cost_lines(out, &f.costs());
    } else {
        push_cost_line(out, f.first_pc(), sum_costs(&f.costs()));
    }
    let ghost body = out@;
    let groups = group_calls(f.calls(), by_site);
    proof {
        lemma_grouped_known(functions@, f@.calls, by_site, f@.calls.len() as int);
    }
    let mut k: usize = 0;
    while k < groups.len()
        invariant
            k <= groups.len(),
            functions.wf(),
            forall|j: int|
                0 <= j < group_views(groups@).len() ==> has_function(
                    functions@,
                    (#[trigger] group_views(groups@)[j]).address,
                ),
            out@ == body + group_blocks(functions@, group_views(groups@), k as int),
        decreases groups.len() - k,
    {
        assert(group_views(groups@)[k as int] == groups@[k as int]@);
        push_group_block(out, functions, &groups[k]);
        k += 1;
    }
}

/// Writes the part of a profile that tells of its functions.
///
/// Calls count by their place where `line_by_line_profile_enabled` is set.
pub fn write_callgrind_functions(functions: &Functions, line_by_line_profile_enabled: bool) -> (out:
    String)
    requires
        functions.wf(),
        calls_known(functions@),
    ensures
        out@ == callgrind_functions(functions@, line_by_line_profile_enabled),
{
    let mut out = String::new();
    let n = functions.len();
    let mut i: usize = 0;
    while i < n
        invariant
            i <= n,
            n == functions@.len(),
            functions.wf(),
            calls_known(functions@),
            out@ == function_blocks(functions@, line_by_line_profile_enabled, i as int),
        decreases n - i,
    {
        let f = functions.at(i);
        if f.address() != GROUND_ZERO {
            push_function_block(&mut out, functions, f, line_by_line_profile_enabled);
        }
        i += 1;
    }
    out
}

/// How many calls the first `upto` groups hold together.
pub open spec fn calls_in(groups: Seq<GroupView>, upto: int) -> nat
    decreases upto,
{
    if upto <= 0 {
        0
    } else {
        calls_in(groups, upto - 1) + groups[upto - 1].calls
    }
}

/// What the calls of the first `upto` groups cost together.
pub open spec fn cost_in(groups: Seq<GroupView>, upto: int) -> nat
    decreases upto,
{
    if upto <= 0 {
        0
    } else {
        cost_in(groups, upto - 1) + groups[upto - 1].cost
    }
}

/// What the first `upto` calls cost together.
pub open spec fn cost_of_calls(calls: Seq<Frame>, upto: int) -> nat
    decreases upto,
{
    if upto <= 0 {
        0
    } else {
        cost_of_calls(calls, upto - 1) + calls[upto - 1].cost as nat
    }
}

/// Where one group changes, the groups hold as many more calls, and cost
/// as much more, as the group does.
proof fn lemma_group_changed(groups: Seq<GroupView>, k: int, group: GroupView, upto: int)
    requires
        0 <= k < groups.len(),
        0 <= upto <= groups.len(),
    ensures
        calls_in(groups.update(k, group), upto) == calls_in(groups, upto) + if k < upto {
            group.calls - groups[k].calls
        } else {
            0
        },
        cost_in(groups.update(k, group), upto) == cost_in(groups, upto) + if k < upto {
            group.cost - groups[k].cost
        } else {
            0
        },
    decreases upto,
{
    if upto > 0 {
        lemma_group_changed(groups, k, group, upto - 1);
    }
}

/// The groups do not depend on what follows them.
proof fn lemma_group_added(groups: Seq<GroupView>, group: GroupView, upto: int)
    requires
        0 <= upto <= groups.len(),
    ensures
        calls_in(groups.push(group), upto) == calls_in(groups, upto),
        cost_in(groups.push(group), upto) == cost_in(groups, upto),
    decreases upto,
{
    if upto > 0 {
        lemma_group_added(groups, group, upto - 1);
    }
}

/// Grouping loses no call and adds none: the groups hold as many calls as
/// were grouped, and cost together what those calls cost.
pub proof fn lemma_grouped_totals(calls: Seq<Frame>, by_site: bool, upto: int)
    requires
        0 <= upto <= calls.len(),
    ensures
        calls_in(
            grouped(calls, by_site, upto),
            grouped(calls, by_site, upto).len() as int,
        ) == upto,
        cost_in(
            grouped(calls, by_site, upto),
            grouped(calls, by_site, upto).len() as int,
        ) == cost_of_calls(calls, upto),
    decreases upto,
{
    if upto > 0 {
        lemma_grouped_totals(calls, by_site, upto - 1);
        let before = grouped(calls, by_site, upto - 1);
        let frame = calls[upto - 1];
        let k = group_index(before, frame, by_site, 0);
        lemma_group_index(before, frame, by_site, 0);
        if k < before.len() {
            lemma_group_changed(
                before,
                k,
                GroupView {
                    calls: before[k].calls + 1,
                    cost: before[k].cost + frame.cost as nat,
                    ..before[k]
                },
                before.len() as int,
            );
        } else {
            lemma_group_added(
                before,
                GroupView {
                    caller_pc: frame.caller_pc,
                    address: frame.address,
                    calls: 1,
                    cost: frame.cost as nat,
                },
                before.len() as int,
            );
        }
    }
}

} // verus!
