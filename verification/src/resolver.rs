//! Names of functions: from the addresses that calls target, and from a dump
//! of the program where there is one.

use crate::dump::{parse_dump_file, parsed_dump};
use crate::error::{result_view, Error, ErrorView};
use crate::number::{decimal, hexadecimal, push_decimal, push_hexadecimal};
use crate::text::text_view;
use crate::{Address, Index, ProgramCounter, GROUND_ZERO, PADDING};
use std::collections::HashMap;
use vstd::prelude::*;
use vstd::string::StringExecFns;

verus! {

/// Maps the addresses of functions, and the program counters of their first
/// instructions, to names.
#[derive(Debug)]
pub struct Resolver {
    not_default: bool,
    functions: Vec<String>,
    index_function_by_address: HashMap<Address, Index>,
    index_function_by_first_pc: HashMap<ProgramCounter, Index>,
    unresolved_counter: usize,
    pretty_source: Vec<String>,
}

/// The mathematical value of a `Resolver`.
pub struct ResolverView {
    /// Whether the resolver was read from a dump.
    pub from_dump: bool,
    /// The names of the functions; the place of a name is its index.
    pub names: Seq<Seq<char>>,
    /// The index of the function at each known address.
    pub by_address: Map<Address, Index>,
    /// The index of the function that begins at each known program counter.
    pub by_first_pc: Map<ProgramCounter, Index>,
    /// How many names were made up so far.
    pub counter: usize,
    /// The lines of the dump's assembly, each at the place that its program
    /// counter gives; the places between them are empty.
    pub pretty_source: Seq<Seq<char>>,
}

/// The name made up for the function at `address`, the `counter`-th without a
/// name of its own: `function_` and the counter, then, where `with_address`
/// is set, the address in brackets.
pub open spec fn synthetic_name(counter: usize, address: Address, with_address: bool) -> Seq<char> {
    if with_address {
        "function_"@ + decimal(counter as nat) + " (0x"@ + hexadecimal(address as nat) + ")"@
    } else {
        "function_"@ + decimal(counter as nat)
    }
}

/// The line of a dump's assembly for the instruction `text` at `pc`: the
/// program counter, a colon, the padding and the text, then the label of the
/// block that the instruction begins, if any, as a comment.
pub open spec fn source_line(pc: ProgramCounter, text: Seq<char>, label: Option<Seq<char>>) -> Seq<
    char,
> {
    match label {
        None => decimal(pc as nat) + ":"@ + PADDING@ + text,
        Some(l) => decimal(pc as nat) + ":"@ + PADDING@ + text + PADDING@ + "; "@ + l,
    }
}

impl ResolverView {
    /// A resolver that knows no function.
    pub open spec fn empty() -> ResolverView {
        ResolverView {
            from_dump: false,
            names: Seq::empty(),
            by_address: Map::empty(),
            by_first_pc: Map::empty(),
            counter: 0,
            pretty_source: Seq::empty(),
        }
    }

    /// Every index points into the table of names, the ground has no name,
    /// and no more names were made up than the table holds.
    pub open spec fn wf(self) -> bool {
        &&& forall|a: Address| #[trigger]
            self.by_address.contains_key(a) ==> self.by_address[a] < self.names.len()
        &&& forall|pc: ProgramCounter| #[trigger]
            self.by_first_pc.contains_key(pc) ==> self.by_first_pc[pc] < self.names.len()
        &&& !self.by_address.contains_key(GROUND_ZERO)
        &&& self.counter <= self.names.len()
    }

    /// The name of the function at a known address.
    pub open spec fn name_of(self, address: Address) -> Seq<char>
        recommends
            self.by_address.contains_key(address),
    {
        self.names[self.by_address[address] as int]
    }

    /// The name of the function that begins at `pc`, if one is known to.
    pub open spec fn name_at(self, pc: ProgramCounter) -> Option<Seq<char>> {
        if self.by_first_pc.contains_key(pc) {
            Some(self.names[self.by_first_pc[pc] as int])
        } else {
            None
        }
    }

    /// The resolver after the function `name`, which begins at `first_pc`,
    /// was added to the table: the program counter now leads to it.
    pub open spec fn add_function(self, name: Seq<char>, first_pc: ProgramCounter) -> ResolverView {
        ResolverView {
            names: self.names.push(name),
            by_first_pc: self.by_first_pc.insert(first_pc, self.names.len() as usize),
            ..self
        }
    }

    /// The resolver after the address `address`, whose function begins at
    /// `first_pc`, was looked up.
    ///
    /// A known address changes nothing. A new address whose function begins
    /// where a known function begins is one more copy of that function. Any
    /// other new address gets a name made up for it.
    pub open spec fn update(
        self,
        address: Address,
        first_pc: ProgramCounter,
        with_address: bool,
    ) -> ResolverView {
        if self.by_address.contains_key(address) {
            self
        } else if self.by_first_pc.contains_key(first_pc) {
            ResolverView {
                by_address: self.by_address.insert(address, self.by_first_pc[first_pc]),
                ..self
            }
        } else {
            ResolverView {
                names: self.names.push(synthetic_name(self.counter, address, with_address)),
                by_first_pc: self.by_first_pc.insert(first_pc, self.names.len() as usize),
                by_address: self.by_address.insert(address, self.names.len() as usize),
                counter: (self.counter + 1) as usize,
                ..self
            }
        }
    }

    /// The resolver after the line `s` of the dump's assembly was put at the
    /// place `i`.
    pub open spec fn with_source(self, i: ProgramCounter, s: Seq<char>) -> ResolverView {
        ResolverView {
            pretty_source: if i < self.pretty_source.len() {
                self.pretty_source.update(i as int, s)
            } else {
                (self.pretty_source + Seq::new(
                    (i - self.pretty_source.len()) as nat,
                    |k: int| Seq::<char>::empty(),
                )).push(s)
            },
            ..self
        }
    }

    /// The resolver after the instruction `text` at `pc` was read from a
    /// dump, below the label `label` and as the first one after the function
    /// label `function`, where there are any.
    ///
    /// The function is added unless one is known to begin at `pc` already;
    /// the instruction's line is put at the place `pc`.
    pub open spec fn with_instruction(
        self,
        pc: ProgramCounter,
        text: Seq<char>,
        label: Option<Seq<char>>,
        function: Option<Seq<char>>,
    ) -> ResolverView {
        let named = if function is Some && !self.by_first_pc.contains_key(pc) {
            self.add_function(function->Some_0, pc)
        } else {
            self
        };
        named.with_source(pc, source_line(pc, text, label))
    }

    /// The line of the assembly listing for the place `i`: the line of the
    /// dump, with the name of the function that begins there, if any, as a
    /// comment.
    pub open spec fn pretty_line(self, i: int) -> Seq<char> {
        match self.name_at(i as usize) {
            Some(name) => self.pretty_source[i] + PADDING@ + "; "@ + name + "\n"@,
            None => self.pretty_source[i] + "\n"@,
        }
    }

    /// The lines of the assembly listing for the places from 2 up to, and
    /// without, `upto`.
    pub open spec fn pretty_lines(self, upto: int) -> Seq<char>
        decreases upto,
    {
        if upto <= 2 {
            Seq::empty()
        } else {
            self.pretty_lines(upto - 1) + self.pretty_line(upto - 1)
        }
    }

    /// The assembly listing made of the dump: a title, then one line for each
    /// place from 2 on, so that an instruction stands on the line that its
    /// program counter numbers.
    pub open spec fn pretty_listing(self) -> Seq<char> {
        ";; Generated BPF pretty assembly code for QCacheGrind\n"@ + self.pretty_lines(
            self.pretty_source.len() as int,
        )
    }
}

/// Looking the same address up twice gives the same name both times,
/// whatever program counters come with it: the second look-up changes
/// nothing.
pub proof fn lemma_update_idempotent(
    r: ResolverView,
    address: Address,
    first_pc: ProgramCounter,
    other_pc: ProgramCounter,
    with_address: bool,
)
    requires
        r.wf(),
        address != GROUND_ZERO,
    ensures
        ({
            let once = r.update(address, first_pc, with_address);
            let twice = once.update(address, other_pc, with_address);
            &&& twice == once
            &&& twice.name_of(address) == once.name_of(address)
        }),
{
}

/// A new address whose function begins where a known function begins gets
/// the name of that function, and no name is made up for it.
pub proof fn lemma_update_alias(
    r: ResolverView,
    address: Address,
    first_pc: ProgramCounter,
    with_address: bool,
)
    requires
        r.wf(),
        address != GROUND_ZERO,
        !r.by_address.contains_key(address),
        r.by_first_pc.contains_key(first_pc),
    ensures
        ({
            let after = r.update(address, first_pc, with_address);
            &&& Some(after.name_of(address)) == r.name_at(first_pc)
            &&& after.names == r.names
            &&& after.counter == r.counter
        }),
{
}

/// Two new addresses whose functions begin at the same program counter get
/// the same name, that of the one looked up first.
pub proof fn lemma_update_copies(
    r: ResolverView,
    owner: Address,
    copy: Address,
    first_pc: ProgramCounter,
    with_address: bool,
)
    requires
        r.wf(),
        owner != GROUND_ZERO,
        copy != GROUND_ZERO,
        !r.by_address.contains_key(owner),
        !r.by_address.contains_key(copy),
    ensures
        ({
            let first = r.update(owner, first_pc, with_address);
            let second = first.update(copy, first_pc, with_address);
            &&& second.name_of(copy) == first.name_of(owner)
            &&& second.name_of(owner) == first.name_of(owner)
        }),
{
}

impl View for Resolver {
    type V = ResolverView;

    closed spec fn view(&self) -> ResolverView {
        ResolverView {
            from_dump: self.not_default,
            names: self.functions.deep_view(),
            by_address: self.index_function_by_address@,
            by_first_pc: self.index_function_by_first_pc@,
            counter: self.unresolved_counter,
            pretty_source: self.pretty_source.deep_view(),
        }
    }
}

impl Default for Resolver {
    fn default() -> (r: Self)
        ensures
            r@ == ResolverView::empty(),
            r@.wf(),
    {
        let r = Resolver {
            not_default: false,
            functions: Vec::new(),
            index_function_by_address: HashMap::new(),
            index_function_by_first_pc: HashMap::new(),
            unresolved_counter: 0,
            pretty_source: Vec::new(),
        };
        assert(r@.names =~= Seq::empty());
        r
    }
}

impl Resolver {
    /// Tells whether the resolver was made of nothing, and not read from a
    /// dump.
    pub fn is_default(&self) -> (r: bool)
        ensures
            r == !self@.from_dump,
    {
        !self.not_default
    }

    /// The name of the function at `address`, which must be known.
    pub fn resolve_by_address(&self, address: Address) -> (name: String)
        requires
            self@.wf(),
            self@.by_address.contains_key(address),
        ensures
            name@ == self@.name_of(address),
    {
        let func_index = *self.index_function_by_address.get(&address).unwrap();
        self.functions[func_index].clone()
    }

    /// Tells whether `address` is known.
    pub fn contains_address(&self, address: Address) -> (r: bool)
        ensures
            r == self@.by_address.contains_key(address),
    {
        self.index_function_by_address.contains_key(&address)
    }

    /// The name of the function that begins at `pc`, if one is known to.
    pub fn resolve_by_first_pc(&self, pc: ProgramCounter) -> (name: Option<String>)
        requires
            self@.wf(),
        ensures
            name.deep_view() == self@.name_at(pc),
    {
        match self.index_function_by_first_pc.get(&pc) {
            Some(func_index) => Some(self.functions[*func_index].clone()),
            None => None,
        }
    }

    /// Tells whether a function is known to begin at `first_pc`.
    pub fn contains_function_with_first_pc(&self, first_pc: ProgramCounter) -> (r: bool)
        ensures
            r == self@.by_first_pc.contains_key(first_pc),
    {
        self.index_function_by_first_pc.contains_key(&first_pc)
    }

    /// Adds the function `name`, which begins at `first_pc`, to the table of
    /// names, and hands back its index.
    pub fn update_first_pc_index(&mut self, name: &str, first_pc: ProgramCounter) -> (index: Index)
        requires
            old(self)@.wf(),
        ensures
            final(self)@ == old(self)@.add_function(name@, first_pc),
            final(self)@.wf(),
            index == old(self)@.names.len(),
    {
        let func_index = self.functions.len();
        let ghost before = self.functions.deep_view();
        self.functions.push(String::from_str(name));
        assert(self.functions.deep_view() =~= before.push(name@));
        self.index_function_by_first_pc.insert(first_pc, func_index);
        func_index
    }

    /// Looks up `address`, whose function begins at `first_pc`, and hands
    /// back its name; a name made up for it holds the address too where
    /// `with_address` is set.
    fn lookup(&mut self, address: Address, first_pc: ProgramCounter, with_address: bool) -> (name:
        String)
        requires
            old(self)@.wf(),
            address != GROUND_ZERO,
        ensures
            final(self)@ == old(self)@.update(address, first_pc, with_address),
            final(self)@.wf(),
            final(self)@.by_address.contains_key(address),
            name@ == final(self)@.name_of(address),
    {
        if !self.index_function_by_address.contains_key(&address) {
            match self.index_function_by_first_pc.get(&first_pc) {
                Some(func_index) => {
                    let func_index = *func_index;
                    assert(old(self)@.by_first_pc.contains_key(first_pc));
                    self.index_function_by_address.insert(address, func_index);
                },
                None => {
                    let mut name = String::from_str("function_");
                    push_decimal(&mut name, self.unresolved_counter as u128);
                    if with_address {
                        name.append(" (0x");
                        push_hexadecimal(&mut name, address as u128);
                        name.append(")");
                    }
                    let func_index = self.update_first_pc_index(name.as_str(), first_pc);
                    self.index_function_by_address.insert(address, func_index);
                    let names = self.functions.len();
                    assert(self.unresolved_counter < names);
                    self.unresolved_counter += 1;
                },
            }
        }
        let func_index = *self.index_function_by_address.get(&address).unwrap();
        self.functions[func_index].clone()
    }

    /// Looks up `address`, whose function begins at `first_pc`, and hands
    /// back its name. A name made up for a new function holds the address.
    pub fn update(&mut self, address: Address, first_pc: ProgramCounter) -> (name: String)
        requires
            old(self)@.wf(),
            address != GROUND_ZERO,
        ensures
            final(self)@ == old(self)@.update(address, first_pc, true),
            final(self)@.wf(),
            final(self)@.by_address.contains_key(address),
            name@ == final(self)@.name_of(address),
    {
        self.lookup(address, first_pc, true)
    }

    /// Looks up `address`, whose function begins at `first_pc`, and hands
    /// back its name. A name made up for a new function is `function_` and a
    /// number.
    pub fn resolve(&mut self, address: Address, first_pc: ProgramCounter) -> (name: String)
        requires
            old(self)@.wf(),
            address != GROUND_ZERO,
        ensures
            final(self)@ == old(self)@.update(address, first_pc, false),
            final(self)@.wf(),
            final(self)@.by_address.contains_key(address),
            name@ == final(self)@.name_of(address),
    {
        self.lookup(address, first_pc, false)
    }

    /// Puts the line `s` of the dump's assembly at the place `i`.
    pub fn add_pretty_source(&mut self, i: ProgramCounter, s: String)
        requires
            old(self)@.wf(),
            i < usize::MAX,
        ensures
            final(self)@ == old(self)@.with_source(i, s@),
            final(self)@.wf(),
    {
        let ghost before = self.pretty_source@;
        while self.pretty_source.len() <= i
            invariant
                i < usize::MAX,
                before == old(self).pretty_source@,
                before.len() <= self.pretty_source.len(),
                before.len() <= i ==> self.pretty_source.len() <= i + 1,
                before.len() > i ==> self.pretty_source.len() == before.len(),
                forall|k: int| 0 <= k < before.len() ==> self.pretty_source@[k] == before[k],
                forall|k: int|
                    before.len() <= k < self.pretty_source.len() ==> self.pretty_source@[k]@
                        == Seq::<char>::empty(),
                self.functions == old(self).functions,
                self.index_function_by_address == old(self).index_function_by_address,
                self.index_function_by_first_pc == old(self).index_function_by_first_pc,
                self.unresolved_counter == old(self).unresolved_counter,
                self.not_default == old(self).not_default,
            decreases i + 1 - self.pretty_source.len(),
        {
            self.pretty_source.push(String::new());
        }
        self.pretty_source.set(i, s);
        proof {
            let have = self@.pretty_source;
            let want = old(self)@.with_source(i, s@).pretty_source;
            assert(have =~= want);
        }
    }

    /// Takes in the instruction `text` at `pc` of a dump, read below the
    /// label `label` and as the first one after the function label
    /// `function`, where there are any.
    pub fn add_instruction(
        &mut self,
        pc: ProgramCounter,
        text: &str,
        label: &Option<String>,
        function: &Option<String>,
    )
        requires
            old(self)@.wf(),
            pc < usize::MAX,
        ensures
            final(self)@ == old(self)@.with_instruction(
                pc,
                text@,
                label.deep_view(),
                function.deep_view(),
            ),
            final(self)@.wf(),
    {
        match function {
            Some(name) => {
                if !self.contains_function_with_first_pc(pc) {
                    self.update_first_pc_index(name.as_str(), pc);
                }
            },
            None => {},
        }
        let mut line = String::new();
        push_decimal(&mut line, pc as u128);
        line.append(":");
        line.append(PADDING);
        line.append(text);
        match label {
            Some(l) => {
                line.append(PADDING);
                line.append("; ");
                line.append(l.as_str());
            },
            None => {},
        }
        self.add_pretty_source(pc, line);
    }

    /// The assembly listing made of the dump.
    pub fn write_pretty_source(&self) -> (out: String)
        requires
            self@.wf(),
        ensures
            out@ == self@.pretty_listing(),
    {
        let mut out = String::from_str(";; Generated BPF pretty assembly code for QCacheGrind\n");
        let n = self.pretty_source.len();
        let mut i: usize = 2;
        while i < n
            invariant
                2 <= i,
                i <= n || i == 2,
                n == self.pretty_source.len(),
                n == self@.pretty_source.len(),
                self@.wf(),
                out@ == ";; Generated BPF pretty assembly code for QCacheGrind\n"@
                    + self@.pretty_lines(i as int),
            decreases n - i,
        {
            out.append(self.pretty_source[i].as_str());
            match self.resolve_by_first_pc(i) {
                Some(name) => {
                    out.append(PADDING);
                    out.append("; ");
                    out.append(name.as_str());
                },
                None => {},
            }
            out.append("\n");
            i += 1;
        }
        out
    }
}

/// The resolver made of a dump: it knows what the dump tells, and that it
/// was read from a dump. Without a dump it knows no function.
pub open spec fn resolved(dump: Option<Seq<char>>) -> Result<ResolverView, ErrorView> {
    match dump {
        None => Ok(ResolverView::empty()),
        Some(text) => match parsed_dump(ResolverView::empty(), text) {
            Ok(view) => Ok(ResolverView { from_dump: true, ..view }),
            Err(e) => Err(e),
        },
    }
}

/// Reads the dump, if there is one, and makes a resolver of it; without a
/// dump the resolver knows no function.
pub fn read(dump: Option<&str>) -> (r: Result<Resolver, Error>)
    ensures
        r is Ok ==> r->Ok_0@.wf(),
        result_view(r) == resolved(text_view(dump)),
{
    match dump {
        None => Ok(Resolver::default()),
        Some(text) => Resolver::read(text),
    }
}

impl Resolver {
    /// Makes a resolver of the dump `text`.
    pub fn read(text: &str) -> (r: Result<Resolver, Error>)
        ensures
            r is Ok ==> r->Ok_0@.wf(),
            result_view(r) == resolved(Some(text@)),
    {
        let mut resv = Resolver::default();
        match parse_dump_file(text, &mut resv) {
            Err(e) => Err(e),
            Ok(_) => {
                resv.not_default = true;
                Ok(resv)
            },
        }
    }
}

} // verus!
