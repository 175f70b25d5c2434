//! The chain of the calls that are open.

use crate::bpf::Instruction;
use crate::error::{Error, ErrorView};
use crate::{Address, Cost, ProgramCounter, GROUND_ZERO};
use vstd::multiset::Multiset;
use vstd::prelude::*;

verus! {

/// One call, open or completed.
#[derive(Clone, Copy, Debug, PartialEq, Eq, Structural)]
pub struct Frame {
    /// The address of the function that was called.
    pub address: Address,
    /// The address of the function that called it.
    pub caller: Address,
    /// The program counter of the instruction that called it.
    pub caller_pc: ProgramCounter,
    /// What the call has cost so far, with the calls below it that are
    /// completed.
    pub cost: Cost,
}

/// Whether each call of the chain but the first was made by the call before
/// it.
pub open spec fn linked(chain: Seq<Frame>) -> bool {
    &&& chain.len() >= 1
    &&& forall|i: int| 1 <= i < chain.len() ==> (#[trigger] chain[i]).caller == chain[i - 1].address
}

/// The chain after its innermost call has made the call `frame`.
pub open spec fn chain_pushed(chain: Seq<Frame>, frame: Frame) -> Seq<Frame> {
    chain.push(Frame { caller: chain.last().address, ..frame })
}

/// The chain after its innermost call was charged one unit.
pub open spec fn chain_charged(chain: Seq<Frame>) -> Seq<Frame> {
    chain.update(
        chain.len() - 1,
        Frame { cost: (chain.last().cost + 1) as Cost, ..chain.last() },
    )
}

/// The chain after its innermost call has returned: its cost is added to
/// that of its caller.
pub open spec fn chain_popped(chain: Seq<Frame>) -> Seq<Frame> {
    let rest = chain.drop_last();
    rest.update(
        rest.len() - 1,
        Frame { cost: (rest.last().cost + chain.last().cost) as Cost, ..rest.last() },
    )
}

/// What the calls of the chain cost together.
pub open spec fn chain_cost(chain: Seq<Frame>) -> nat
    decreases chain.len(),
{
    if chain.len() == 0 {
        0
    } else {
        chain_cost(chain.drop_last()) + chain.last().cost as nat
    }
}

/// No call of a chain costs more than the chain, nor do its two innermost
/// calls together.
pub proof fn lemma_chain_cost_bounds(chain: Seq<Frame>)
    ensures
        forall|i: int| 0 <= i < chain.len() ==> (#[trigger] chain[i]).cost <= chain_cost(chain),
        chain.len() >= 2 ==> chain[chain.len() - 2].cost + chain.last().cost <= chain_cost(chain),
    decreases chain.len(),
{
    if chain.len() > 0 {
        lemma_chain_cost_bounds(chain.drop_last());
        assert forall|i: int| 0 <= i < chain.len() implies (#[trigger] chain[i]).cost <= chain_cost(
            chain,
        ) by {
            if i < chain.len() - 1 {
                assert(chain.drop_last()[i] == chain[i]);
            }
        }
    }
}

/// Charging the innermost call one unit makes the chain cost one unit more.
pub proof fn lemma_chain_charged(chain: Seq<Frame>)
    requires
        chain.len() >= 1,
        chain.last().cost < Cost::MAX,
    ensures
        chain_cost(chain_charged(chain)) == chain_cost(chain) + 1,
{
    assert(chain_charged(chain).drop_last() =~= chain.drop_last());
}

/// A new call adds its cost to that of the chain.
pub proof fn lemma_chain_pushed(chain: Seq<Frame>, frame: Frame)
    requires
        chain.len() >= 1,
    ensures
        chain_cost(chain_pushed(chain, frame)) == chain_cost(chain) + frame.cost,
{
    assert(chain_pushed(chain, frame).drop_last() =~= chain);
}

/// A return leaves the cost of the chain as it is.
pub proof fn lemma_chain_popped(chain: Seq<Frame>)
    requires
        chain.len() >= 2,
        chain[chain.len() - 2].cost + chain.last().cost <= Cost::MAX,
    ensures
        chain_cost(chain_popped(chain)) == chain_cost(chain),
{
    let rest = chain.drop_last();
    let popped = chain_popped(chain);
    assert(popped.drop_last() =~= rest.drop_last());
    assert(chain_cost(rest) == chain_cost(rest.drop_last()) + rest.last().cost);
}

/// The call `frame` as it was made: without what it has cost.
pub open spec fn made(frame: Frame) -> Frame {
    Frame { cost: 0, ..frame }
}

/// The calls among the first `upto` of the chain, as they were made; the
/// first of the chain, its root, is left out.
pub open spec fn open_calls(chain: Seq<Frame>, upto: int) -> Multiset<Frame>
    decreases upto,
{
    if upto <= 1 {
        Multiset::empty()
    } else {
        open_calls(chain, upto - 1).insert(made(chain[upto - 1]))
    }
}

/// The calls that are open in the chain, as they were made.
pub open spec fn calls_open(chain: Seq<Frame>) -> Multiset<Frame> {
    open_calls(chain, chain.len() as int)
}

/// Chains whose calls were made alike hold the same open calls.
pub proof fn lemma_open_calls_same(a: Seq<Frame>, b: Seq<Frame>, upto: int)
    requires
        upto <= a.len(),
        upto <= b.len(),
        forall|i: int| 1 <= i < upto ==> made(#[trigger] a[i]) == made(b[i]),
    ensures
        open_calls(a, upto) == open_calls(b, upto),
    decreases upto,
{
    if upto > 1 {
        lemma_open_calls_same(a, b, upto - 1);
    }
}

/// A charge leaves the open calls as they are; a new call joins them; a
/// return takes the innermost call from them.
pub proof fn lemma_calls_open(chain: Seq<Frame>, frame: Frame)
    requires
        chain.len() >= 1,
    ensures
        calls_open(chain_charged(chain)) == calls_open(chain),
        calls_open(chain_pushed(chain, frame)) == calls_open(chain).insert(
            made(Frame { caller: chain.last().address, ..frame }),
        ),
        chain.len() >= 2 ==> calls_open(chain) == calls_open(chain_popped(chain)).insert(
            made(chain.last()),
        ),
{
    let n = chain.len() as int;
    lemma_open_calls_same(chain_charged(chain), chain, n);
    lemma_open_calls_same(chain_pushed(chain, frame), chain, n);
    if n >= 2 {
        lemma_open_calls_same(chain_popped(chain), chain, n - 1);
    }
}

/// A call, and the chain of the calls that are open below it: each of them
/// was made by the one before it.
#[derive(Clone, Debug)]
pub struct Call {
    address: Address,
    caller: Address,
    caller_pc: ProgramCounter,
    cost: Cost,
    callees: Vec<Frame>,
}

impl View for Call {
    type V = Seq<Frame>;

    /// The call itself, then the calls open below it, the innermost last.
    closed spec fn view(&self) -> Seq<Frame> {
        seq![self.frame()] + self.callees@
    }
}

impl Call {
    /// The value of the call itself, without those below it.
    pub closed spec fn frame(&self) -> Frame {
        Frame {
            address: self.address,
            caller: self.caller,
            caller_pc: self.caller_pc,
            cost: self.cost,
        }
    }

    /// Whether the chain is linked.
    pub open spec fn wf(&self) -> bool {
        linked(self@)
    }

    /// Makes the call of the function at `address` by the instruction at
    /// `caller_pc`. Who called is known when the call is pushed.
    pub fn new(address: Address, caller_pc: ProgramCounter) -> (r: Call)
        ensures
            r@ == seq![Frame { address, caller: 0, caller_pc, cost: 0 }],
    {
        Call { address, caller: 0, caller_pc, cost: 0, callees: Vec::new() }
    }

    /// Makes the call that the instruction `ix` of line `lc` asks for.
    ///
    /// An instruction that is no call is refused, and so is a call of the
    /// ground, which no instruction can ask for.
    pub fn from(ix: &Instruction, lc: usize) -> (r: Result<Call, Error>)
        ensures
            match r {
                Ok(call) => {
                    &&& ix@.is_call()
                    &&& ix@.target() != GROUND_ZERO
                    &&& call@ == seq![
                        Frame { address: ix@.target(), caller: 0, caller_pc: ix@.pc, cost: 0 },
                    ]
                },
                Err(e) => if ix@.is_call() {
                    ix@.target() == GROUND_ZERO && e@ == ErrorView::TraceParsing(ix@.text, lc)
                } else {
                    e@ == ErrorView::TraceNotCall(ix@.text, lc)
                },
            },
    {
        if !ix.is_call() {
            return Err(Error::TraceNotCall(ix.text(), lc));
        }
        match ix.call_target(lc) {
            Ok(address) => {
                if address == GROUND_ZERO {
                    Err(Error::TraceParsing(ix.text(), lc))
                } else {
                    Ok(Call::new(address, ix.pc()))
                }
            },
            Err(e) => Err(e),
        }
    }

    /// The address of the function that was called.
    pub fn address(&self) -> (r: Address)
        ensures
            r == self@[0].address,
    {
        self.address
    }

    /// Tells whether the call is the ground, the root of all calls.
    pub fn is_ground(&self) -> (r: bool)
        ensures
            r == (self@[0].address == GROUND_ZERO),
    {
        self.address == GROUND_ZERO
    }

    /// The address of the function that made the call.
    pub fn caller(&self) -> (r: Address)
        ensures
            r == self@[0].caller,
    {
        self.caller
    }

    /// The program counter of the instruction that made the call.
    pub fn caller_pc(&self) -> (r: ProgramCounter)
        ensures
            r == self@[0].caller_pc,
    {
        self.caller_pc
    }

    /// What the call has cost so far.
    pub fn cost(&self) -> (r: Cost)
        ensures
            r == self@[0].cost,
    {
        self.cost
    }

    /// How many calls are open below this one.
    pub fn depth(&self) -> (r: usize)
        ensures
            r == self@.len() - 1,
    {
        self.callees.len()
    }

    /// The call itself, without those below it.
    pub fn top(&self) -> (r: Frame)
        ensures
            r == self@[0],
    {
        Frame {
            address: self.address,
            caller: self.caller,
            caller_pc: self.caller_pc,
            cost: self.cost,
        }
    }

    /// The innermost open call.
    pub fn innermost(&self) -> (r: Frame)
        ensures
            r == self@.last(),
    {
        let n = self.callees.len();
        if n == 0 {
            Frame {
                address: self.address,
                caller: self.caller,
                caller_pc: self.caller_pc,
                cost: self.cost,
            }
        } else {
            self.callees[n - 1]
        }
    }

    /// Adds `call` to the chain, as made by its innermost call.
    pub fn push_call(&mut self, call: Call)
        requires
            old(self).wf(),
        ensures
            final(self).wf(),
            final(self)@ == chain_pushed(old(self)@, call@[0]),
    {
        let caller = self.innermost().address;
        self.callees.push(
            Frame { address: call.address, caller, caller_pc: call.caller_pc, cost: call.cost },
        );
        assert(self@ =~= chain_pushed(old(self)@, call@[0]));
    }

    /// Takes the innermost open call off the chain and adds its cost to
    /// that of its caller.
    pub fn pop_call(&mut self) -> (call: Call)
        requires
            old(self).wf(),
            old(self)@.len() >= 2,
            old(self)@[old(self)@.len() - 2].cost + old(self)@.last().cost <= Cost::MAX,
        ensures
            final(self).wf(),
            final(self)@ == chain_popped(old(self)@),
            call@ == seq![old(self)@.last()],
    {
        let top = self.callees.pop().unwrap();
        let n = self.callees.len();
        if n == 0 {
            self.cost = self.cost + top.cost;
        } else {
            let parent = self.callees[n - 1];
            self.callees.set(n - 1, Frame { cost: parent.cost + top.cost, ..parent });
        }
        let call = Call {
            address: top.address,
            caller: top.caller,
            caller_pc: top.caller_pc,
            cost: top.cost,
            callees: Vec::new(),
        };
        assert(self@ =~= chain_popped(old(self)@));
        call
    }

    /// Charges the innermost open call one unit.
    pub fn charge(&mut self)
        requires
            old(self).wf(),
            old(self)@.last().cost < Cost::MAX,
        ensures
            final(self).wf(),
            final(self)@ == chain_charged(old(self)@),
    {
        let n = self.callees.len();
        if n == 0 {
            self.cost = self.cost + 1;
        } else {
            let innermost = self.callees[n - 1];
            self.callees.set(n - 1, Frame { cost: innermost.cost + 1, ..innermost });
        }
        assert(self@ =~= chain_charged(old(self)@));
    }
}

} // verus!
