//! The functions of a profile, what they cost and what they called.

use crate::gen::chain::{chain_charged, made, Call, Frame};
use crate::gen::costs::{
    charged, cost_at, entries, entries_of, lemma_charged_represents, lemma_charged_sorted,
    lemma_entries, lemma_rank_bounds, lemma_rank_sorted, lemma_summed_charged, rank, represents,
    sorted, summed,
};
use crate::resolver::Resolver;
use crate::{Address, Cost, ProgramCounter, GROUND_ZERO};
use std::collections::{BTreeMap, HashMap};
use vstd::multiset::Multiset;
use vstd::prelude::*;
use vstd::string::StringExecFns;

verus! {

/// A function of the profile: what its own instructions cost, and the calls
/// that it made and that are completed.
#[derive(Debug)]
pub struct Function {
    address: Address,
    name: String,
    first_pc: ProgramCounter,
    costs: BTreeMap<ProgramCounter, Cost>,
    calls: Vec<Frame>,
}

/// The mathematical value of a `Function`.
pub struct FunctionView {
    /// The address of the function.
    pub address: Address,
    /// The name of the function.
    pub name: Seq<char>,
    /// The program counter of the function's first instruction.
    pub first_pc: ProgramCounter,
    /// What the function's own instructions cost, by program counter, in
    /// the order of the program counters.
    pub costs: Seq<(ProgramCounter, Cost)>,
    /// The completed calls that the function made, in the order in which
    /// they returned.
    pub calls: Seq<Frame>,
}

impl FunctionView {
    /// The costs are sorted.
    pub open spec fn wf(self) -> bool {
        sorted(self.costs)
    }

    /// The function after one more unit was recorded for `pc`.
    pub open spec fn charged(self, pc: ProgramCounter) -> FunctionView {
        FunctionView { costs: charged(self.costs, pc), ..self }
    }

    /// The function after one more completed call was recorded.
    pub open spec fn called(self, frame: Frame) -> FunctionView {
        FunctionView { calls: self.calls.push(frame), ..self }
    }
}

impl View for Function {
    type V = FunctionView;

    closed spec fn view(&self) -> FunctionView {
        FunctionView {
            address: self.address,
            name: self.name@,
            first_pc: self.first_pc,
            costs: entries(self.costs@),
            calls: self.calls@,
        }
    }
}

impl Function {
    /// The costs of the value are the entries of the map of costs.
    pub closed spec fn wf(&self) -> bool {
        represents(self@.costs, self.costs@)
    }

    /// A well-formed function has a well-formed value.
    pub proof fn lemma_wf(&self)
        requires
            self.wf(),
        ensures
            self@.wf(),
    {
    }

    /// The function that stands for the ground: it holds what is executed
    /// outside any call.
    pub fn ground_zero() -> (r: Self)
        ensures
            r@ == (FunctionView {
                address: GROUND_ZERO,
                name: "GROUND_ZERO"@,
                first_pc: 0,
                costs: Seq::empty(),
                calls: Seq::empty(),
            }),
            r.wf(),
            r@.wf(),
    {
        let r = Function {
            address: GROUND_ZERO,
            name: String::from_str("GROUND_ZERO"),
            first_pc: 0,
            costs: BTreeMap::new(),
            calls: Vec::new(),
        };
        proof {
            lemma_entries(Seq::empty(), r.costs@);
        }
        r
    }

    /// The function at `address`, whose first instruction is at `first_pc`;
    /// the resolver gives its name.
    pub fn new(address: Address, first_pc: ProgramCounter, resolver: &mut Resolver) -> (r: Self)
        requires
            old(resolver)@.wf(),
            address != GROUND_ZERO,
        ensures
            final(resolver)@ == old(resolver)@.update(address, first_pc, true),
            final(resolver)@.wf(),
            r@ == (FunctionView {
                address,
                name: final(resolver)@.name_of(address),
                first_pc,
                costs: Seq::empty(),
                calls: Seq::empty(),
            }),
            r.wf(),
            r@.wf(),
    {
        let r = Function {
            address,
            name: resolver.update(address, first_pc),
            first_pc,
            costs: BTreeMap::new(),
            calls: Vec::new(),
        };
        proof {
            lemma_entries(Seq::empty(), r.costs@);
        }
        r
    }

    /// The address of the function.
    pub fn address(&self) -> (r: Address)
        ensures
            r == self@.address,
    {
        self.address
    }

    /// A copy of the function's name.
    pub fn name(&self) -> (r: String)
        ensures
            r@ == self@.name,
    {
        self.name.clone()
    }

    /// The program counter of the function's first instruction.
    pub fn first_pc(&self) -> (r: ProgramCounter)
        ensures
            r == self@.first_pc,
    {
        self.first_pc
    }

    /// What the function's own instructions cost, by program counter, in
    /// the order of the program counters.
    pub fn costs(&self) -> (r: Vec<(ProgramCounter, Cost)>)
        ensures
            r@ == self@.costs,
    {
        entries_of(&self.costs)
    }

    /// The completed calls that the function made.
    pub fn calls(&self) -> (r: &Vec<Frame>)
        ensures
            r@ == self@.calls,
    {
        &self.calls
    }

    /// Records one more unit of cost for the instruction at `pc`.
    pub fn increment_cost(&mut self, pc: ProgramCounter)
        requires
            old(self).wf(),
            cost_at(old(self)@.costs, pc) < Cost::MAX,
        ensures
            final(self)@ == old(self)@.charged(pc),
            final(self).wf(),
            final(self)@.wf(),
    {
        proof {
            lemma_charged_represents(self@.costs, self.costs@, pc);
        }
        let cost = match self.costs.get(&pc) {
            Some(cost) => *cost,
            None => 0,
        };
        self.costs.insert(pc, cost + 1);
        proof {
            lemma_entries(charged(old(self)@.costs, pc), self.costs@);
        }
    }

    /// Records a completed call that the function made.
    pub fn add_call(&mut self, call: Call)
        ensures
            final(self)@ == old(self)@.called(call@[0]),
            old(self).wf() ==> final(self).wf(),
    {
        self.calls.push(call.top());
    }
}

/// Whether a function at `address` is among `fs`.
pub open spec fn has_function(fs: Seq<FunctionView>, address: Address) -> bool {
    exists|i: int| 0 <= i < fs.len() && (#[trigger] fs[i]).address == address
}

/// The place of the function at `address` among `fs`, which must hold one.
pub open spec fn index_of(fs: Seq<FunctionView>, address: Address) -> int {
    choose|i: int| 0 <= i < fs.len() && (#[trigger] fs[i]).address == address
}

/// Every function is well formed, and no two have the same address.
pub open spec fn functions_wf(fs: Seq<FunctionView>) -> bool {
    &&& forall|i: int| 0 <= i < fs.len() ==> (#[trigger] fs[i]).wf()
    &&& forall|i: int, j: int|
        0 <= i < fs.len() && 0 <= j < fs.len() && (#[trigger] fs[i]).address == (
        #[trigger] fs[j]).address ==> i == j
}

/// The functions after one more unit was recorded for `pc` in the function
/// at `address`.
pub open spec fn functions_charged(
    fs: Seq<FunctionView>,
    address: Address,
    pc: ProgramCounter,
) -> Seq<FunctionView> {
    fs.update(index_of(fs, address), fs[index_of(fs, address)].charged(pc))
}

/// The functions after the completed call `frame` was recorded in the
/// function at `caller`.
pub open spec fn functions_called(fs: Seq<FunctionView>, caller: Address, frame: Frame) -> Seq<
    FunctionView,
> {
    fs.update(index_of(fs, caller), fs[index_of(fs, caller)].called(frame))
}

/// The functions of a profile, in the order in which they were met, each
/// under its address.
#[derive(Debug)]
pub struct Functions {
    list: Vec<Function>,
    index: HashMap<Address, usize>,
}

impl View for Functions {
    type V = Seq<FunctionView>;

    closed spec fn view(&self) -> Seq<FunctionView> {
        self.list@.map_values(|f: Function| f@)
    }
}

impl Functions {
    /// Every function is well formed and stands under its address.
    pub closed spec fn wf(&self) -> bool {
        &&& functions_wf(self@)
        &&& forall|i: int| 0 <= i < self.list@.len() ==> (#[trigger] self.list@[i]).wf()
        &&& forall|i: int|
            0 <= i < self.list@.len() ==> self.index@.contains_key(
                (#[trigger] self.list@[i])@.address,
            ) && self.index@[self.list@[i]@.address] == i
        &&& forall|a: Address| #[trigger]
            self.index@.contains_key(a) ==> self.index@[a] < self.list@.len()
                && self.list@[self.index@[a] as int]@.address == a
    }

    /// Well-formed functions have a well-formed value.
    pub proof fn lemma_wf(&self)
        requires
            self.wf(),
        ensures
            functions_wf(self@),
    {
    }

    /// No function at all.
    pub fn new() -> (r: Self)
        ensures
            r@ == Seq::<FunctionView>::empty(),
            r.wf(),
    {
        Functions { list: Vec::new(), index: HashMap::new() }
    }

    /// How many functions there are.
    pub fn len(&self) -> (r: usize)
        ensures
            r == self@.len(),
    {
        self.list.len()
    }

    /// The function at the place `i`.
    pub fn at(&self, i: usize) -> (r: &Function)
        requires
            i < self@.len(),
        ensures
            r@ == self@[i as int],
    {
        &self.list[i]
    }

    /// The place of the function at `address`, if there is one.
    pub fn position(&self, address: Address) -> (r: Option<usize>)
        requires
            self.wf(),
        ensures
            match r {
                Some(i) => has_function(self@, address) && i == index_of(self@, address) && i
                    < self@.len() && self@[i as int].address == address,
                None => !has_function(self@, address),
            },
    {
        match self.index.get(&address) {
            Some(i) => {
                assert(self@[*i as int].address == address);
                Some(*i)
            },
            None => None,
        }
    }

    /// Tells whether there is a function at `address`.
    pub fn contains_key(&self, address: Address) -> (r: bool)
        requires
            self.wf(),
        ensures
            r == has_function(self@, address),
    {
        self.position(address).is_some()
    }

    /// The function at `address`, if there is one.
    pub fn get(&self, address: Address) -> (r: Option<&Function>)
        requires
            self.wf(),
        ensures
            match r {
                Some(f) => has_function(self@, address) && f@ == self@[index_of(self@, address)],
                None => !has_function(self@, address),
            },
    {
        match self.position(address) {
            Some(i) => Some(&self.list[i]),
            None => None,
        }
    }

    /// Adds a function, which must be the first at its address.
    pub fn insert(&mut self, function: Function)
        requires
            old(self).wf(),
            function.wf(),
            !has_function(old(self)@, function@.address),
        ensures
            final(self).wf(),
            final(self)@ == old(self)@.push(function@),
    {
        let address = function.address();
        let place = self.list.len();
        assert(!self.index@.contains_key(address)) by {
            if self.index@.contains_key(address) {
                assert(self@[self.index@[address] as int].address == address);
            }
        }
        self.index.insert(address, place);
        self.list.push(function);
    }

    /// Records one more unit of cost for the instruction at `pc` in the
    /// function at `address`.
    pub fn charge(&mut self, address: Address, pc: ProgramCounter)
        requires
            old(self).wf(),
            has_function(old(self)@, address),
            cost_at(old(self)@[index_of(old(self)@, address)].costs, pc) < Cost::MAX,
        ensures
            final(self).wf(),
            final(self)@ == functions_charged(old(self)@, address, pc),
    {
        let i = self.position(address).unwrap();
        self.list[i].increment_cost(pc);
    }

    /// Records the completed call `call` in the function at `caller`.
    pub fn add_call(&mut self, caller: Address, call: Call)
        requires
            old(self).wf(),
            has_function(old(self)@, caller),
        ensures
            final(self).wf(),
            final(self)@ == functions_called(old(self)@, caller, call@[0]),
    {
        let i = self.position(caller).unwrap();
        self.list[i].add_call(call);
    }
}

impl Call {
    /// Charges one unit to the innermost open call, and to the instruction
    /// at `pc` of its function.
    pub fn increment_cost(&mut self, pc: ProgramCounter, functions: &mut Functions)
        requires
            old(self).wf(),
            old(functions).wf(),
            old(self)@.last().cost < Cost::MAX,
            has_function(old(functions)@, old(self)@.last().address),
            cost_at(
                old(functions)@[index_of(old(functions)@, old(self)@.last().address)].costs,
                pc,
            ) < Cost::MAX,
        ensures
            final(self).wf(),
            final(functions).wf(),
            final(self)@ == chain_charged(old(self)@),
            final(functions)@ == functions_charged(old(functions)@, old(self)@.last().address, pc),
    {
        let address = self.innermost().address;
        self.charge();
        functions.charge(address, pc);
    }
}

/// Whether every function that was called is among the functions.
pub open spec fn calls_known(fs: Seq<FunctionView>) -> bool {
    forall|i: int, j: int|
        0 <= i < fs.len() && 0 <= j < fs[i].calls.len() ==> has_function(
            fs,
            (#[trigger] fs[i].calls[j]).address,
        )
}

/// Whether no cost of any function is above `bound`.
pub open spec fn costs_within(fs: Seq<FunctionView>, bound: nat) -> bool {
    forall|i: int, k: int|
        0 <= i < fs.len() && 0 <= k < fs[i].costs.len() ==> (#[trigger] fs[i].costs[k]).1 <= bound
}

/// The first `upto` of the calls, as they were made.
pub open spec fn calls_made(calls: Seq<Frame>, upto: int) -> Multiset<Frame>
    decreases upto,
{
    if upto <= 0 {
        Multiset::empty()
    } else {
        calls_made(calls, upto - 1).insert(made(calls[upto - 1]))
    }
}

/// The completed calls that the first `upto` functions hold, as they were
/// made.
pub open spec fn completed_calls(fs: Seq<FunctionView>, upto: int) -> Multiset<Frame>
    decreases upto,
{
    if upto <= 0 {
        Multiset::empty()
    } else {
        completed_calls(fs, upto - 1).add(
            calls_made(fs[upto - 1].calls, fs[upto - 1].calls.len() as int),
        )
    }
}

/// What the own instructions of a function cost together.
pub open spec fn own_cost(f: FunctionView) -> nat {
    summed(f.costs, f.costs.len() as int)
}

/// What the own instructions of the first `upto` functions cost together.
pub open spec fn all_costs(fs: Seq<FunctionView>, upto: int) -> nat
    decreases upto,
{
    if upto <= 0 {
        0
    } else {
        all_costs(fs, upto - 1) + own_cost(fs[upto - 1])
    }
}

/// What the own instructions of all the functions cost together.
pub open spec fn costs_of(fs: Seq<FunctionView>) -> nat {
    all_costs(fs, fs.len() as int)
}

/// The completed calls that the functions hold, as they were made: each as
/// often as it was made.
pub open spec fn completed(fs: Seq<FunctionView>) -> Multiset<Frame> {
    completed_calls(fs, fs.len() as int)
}

/// Where the own cost of one function changes, that of the functions that
/// hold it changes by as much.
proof fn lemma_all_costs_update(
    fs: Seq<FunctionView>,
    after: Seq<FunctionView>,
    at: int,
    delta: int,
    upto: int,
)
    requires
        after.len() == fs.len(),
        0 <= at < fs.len(),
        0 <= upto <= fs.len(),
        forall|i: int| 0 <= i < fs.len() && i != at ==> (#[trigger] after[i]).costs == fs[i].costs,
        own_cost(after[at]) == own_cost(fs[at]) + delta,
    ensures
        all_costs(after, upto) == all_costs(fs, upto) + if at < upto {
            delta
        } else {
            0
        },
    decreases upto,
{
    if upto > 0 {
        lemma_all_costs_update(fs, after, at, delta, upto - 1);
    }
}

/// The own costs of the functions do not depend on what follows them.
pub proof fn lemma_all_costs_prefix(fs: Seq<FunctionView>, more: Seq<FunctionView>, upto: int)
    requires
        0 <= upto <= fs.len(),
        fs.len() <= more.len(),
        forall|i: int| 0 <= i < fs.len() ==> (#[trigger] more[i]).costs == fs[i].costs,
    ensures
        all_costs(more, upto) == all_costs(fs, upto),
    decreases upto,
{
    if upto > 0 {
        lemma_all_costs_prefix(fs, more, upto - 1);
    }
}

/// Recording a unit of cost in a function changes nothing else: the
/// functions keep their addresses and their calls, and no cost rises above
/// a bound that held before, plus one.
pub proof fn lemma_functions_charged(
    fs: Seq<FunctionView>,
    address: Address,
    pc: ProgramCounter,
    bound: nat,
)
    requires
        has_function(fs, address),
        costs_within(fs, bound),
    ensures
        functions_charged(fs, address, pc).len() == fs.len(),
        forall|i: int|
            0 <= i < fs.len() ==> {
                &&& (#[trigger] functions_charged(fs, address, pc)[i]).address == fs[i].address
                &&& functions_charged(fs, address, pc)[i].calls == fs[i].calls
                &&& functions_charged(fs, address, pc)[i].name == fs[i].name
                &&& functions_charged(fs, address, pc)[i].first_pc == fs[i].first_pc
            },
        forall|a: Address|
            has_function(fs, a) ==> has_function(functions_charged(fs, address, pc), a),
        calls_known(fs) ==> calls_known(functions_charged(fs, address, pc)),
        costs_within(functions_charged(fs, address, pc), bound + 1),
        cost_at(fs[index_of(fs, address)].costs, pc) <= bound,
        bound < Cost::MAX ==> costs_of(functions_charged(fs, address, pc)) == costs_of(fs) + 1,
        completed(functions_charged(fs, address, pc)) == completed(fs),
{
    let at = index_of(fs, address);
    let after = functions_charged(fs, address, pc);
    let costs = fs[at].costs;
    lemma_rank_bounds(costs, pc);
    if bound < Cost::MAX {
        lemma_summed_charged(costs, pc);
        lemma_all_costs_update(fs, after, at, 1, fs.len() as int);
    }
    lemma_completed_calls_prefix(fs, after, fs.len() as int);
    assert forall|a: Address| has_function(fs, a) implies has_function(after, a) by {
        let i = index_of(fs, a);
        assert(after[i].address == a);
    }
}

/// Recording a completed call in a function changes nothing else, and adds
/// one to the completed calls.
pub proof fn lemma_functions_called(
    fs: Seq<FunctionView>,
    caller: Address,
    frame: Frame,
    bound: nat,
)
    requires
        has_function(fs, caller),
        has_function(fs, frame.address),
        calls_known(fs),
        costs_within(fs, bound),
    ensures
        functions_called(fs, caller, frame).len() == fs.len(),
        forall|i: int|
            0 <= i < fs.len() ==> {
                &&& (#[trigger] functions_called(fs, caller, frame)[i]).address == fs[i].address
                &&& functions_called(fs, caller, frame)[i].costs == fs[i].costs
            },
        forall|a: Address|
            has_function(fs, a) ==> has_function(functions_called(fs, caller, frame), a),
        calls_known(functions_called(fs, caller, frame)),
        costs_within(functions_called(fs, caller, frame), bound),
        completed(functions_called(fs, caller, frame)) == completed(fs).insert(made(frame)),
        costs_of(functions_called(fs, caller, frame)) == costs_of(fs),
{
    let at = index_of(fs, caller);
    let after = functions_called(fs, caller, frame);
    lemma_all_costs_update(fs, after, at, 0, fs.len() as int);
    assert forall|a: Address| has_function(fs, a) implies has_function(after, a) by {
        let i = index_of(fs, a);
        assert(after[i].address == a);
    }
    lemma_calls_made_prefix(fs[at].calls, after[at].calls, fs[at].calls.len() as int);
    lemma_completed_calls_update(fs, after, at, frame, fs.len() as int);
}

/// The calls made do not depend on what follows them.
pub proof fn lemma_calls_made_prefix(calls: Seq<Frame>, more: Seq<Frame>, upto: int)
    requires
        0 <= upto <= calls.len(),
        calls.len() <= more.len(),
        forall|i: int| 0 <= i < calls.len() ==> (#[trigger] more[i]) == calls[i],
    ensures
        calls_made(more, upto) == calls_made(calls, upto),
    decreases upto,
{
    if upto > 0 {
        lemma_calls_made_prefix(calls, more, upto - 1);
    }
}

/// Where one function gets one more completed call, so do the functions
/// that hold it.
proof fn lemma_completed_calls_update(
    fs: Seq<FunctionView>,
    after: Seq<FunctionView>,
    at: int,
    frame: Frame,
    upto: int,
)
    requires
        after.len() == fs.len(),
        0 <= at < fs.len(),
        0 <= upto <= fs.len(),
        forall|i: int| 0 <= i < fs.len() && i != at ==> (#[trigger] after[i]).calls == fs[i].calls,
        calls_made(after[at].calls, after[at].calls.len() as int) == calls_made(
            fs[at].calls,
            fs[at].calls.len() as int,
        ).insert(made(frame)),
    ensures
        completed_calls(after, upto) == if at < upto {
            completed_calls(fs, upto).insert(made(frame))
        } else {
            completed_calls(fs, upto)
        },
    decreases upto,
{
    if upto > 0 {
        lemma_completed_calls_update(fs, after, at, frame, upto - 1);
    }
}

/// The completed calls of the functions do not depend on what follows them.
pub proof fn lemma_completed_calls_prefix(fs: Seq<FunctionView>, more: Seq<FunctionView>, upto: int)
    requires
        0 <= upto <= fs.len(),
        fs.len() <= more.len(),
        forall|i: int| 0 <= i < fs.len() ==> (#[trigger] more[i]).calls == fs[i].calls,
    ensures
        completed_calls(more, upto) == completed_calls(fs, upto),
    decreases upto,
{
    if upto > 0 {
        lemma_completed_calls_prefix(fs, more, upto - 1);
    }
}

/// Recording a unit of cost keeps the functions well formed.
pub proof fn lemma_functions_charged_wf(fs: Seq<FunctionView>, address: Address, pc: ProgramCounter)
    requires
        functions_wf(fs),
        has_function(fs, address),
    ensures
        functions_wf(functions_charged(fs, address, pc)),
{
    let at = index_of(fs, address);
    lemma_rank_sorted(fs[at].costs, pc);
    lemma_charged_sorted(fs[at].costs, pc, rank(fs[at].costs, pc));
}

/// A function met for the first time, without costs nor calls, joins the
/// functions and changes nothing else.
pub proof fn lemma_functions_joined(fs: Seq<FunctionView>, f: FunctionView, bound: nat)
    requires
        functions_wf(fs),
        calls_known(fs),
        costs_within(fs, bound),
        !has_function(fs, f.address),
        f.costs.len() == 0,
        f.calls.len() == 0,
    ensures
        functions_wf(fs.push(f)),
        calls_known(fs.push(f)),
        costs_within(fs.push(f), bound),
        has_function(fs.push(f), f.address),
        forall|a: Address| has_function(fs, a) ==> has_function(fs.push(f), a),
        costs_of(fs.push(f)) == costs_of(fs),
        completed(fs.push(f)) == completed(fs),
{
    let after = fs.push(f);
    assert(after[fs.len() as int] == f);
    assert forall|a: Address| has_function(fs, a) implies has_function(after, a) by {
        let i = index_of(fs, a);
        assert(after[i].address == a);
    }
    lemma_all_costs_prefix(fs, after, fs.len() as int);
    lemma_completed_calls_prefix(fs, after, fs.len() as int);
}

/// Whether every completed call stands with the function that made it.
pub open spec fn calls_owned(fs: Seq<FunctionView>) -> bool {
    forall|i: int, j: int|
        0 <= i < fs.len() && 0 <= j < fs[i].calls.len() ==> (#[trigger] fs[i].calls[j]).caller
            == fs[i].address
}

/// The completed calls stay with the functions that made them: when a unit
/// of cost is recorded, when a call is recorded with its caller, and when
/// a function without calls joins.
pub proof fn lemma_calls_owned(
    fs: Seq<FunctionView>,
    address: Address,
    pc: ProgramCounter,
    frame: Frame,
    f: FunctionView,
)
    requires
        calls_owned(fs),
    ensures
        has_function(fs, address) ==> calls_owned(functions_charged(fs, address, pc)),
        has_function(fs, frame.caller) ==> calls_owned(functions_called(fs, frame.caller, frame)),
        f.calls.len() == 0 ==> calls_owned(fs.push(f)),
{
}

} // verus!
