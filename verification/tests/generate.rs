use bpf_profile::error::Error;
use bpf_profile::gen::run;
use bpf_profile::gen::trace::{find_stray_exit, parse, process, walk_trace, Profile};
use bpf_profile::gen::walk::Item;
use bpf_profile::bpf::{Instruction, InstructionData};
use bpf_profile::resolver::Resolver;
use bpf_profile::DEFAULT_ASM;

const SIMPLE_INPUT: &str = "
# The input contains 3 functions with addresses 0x100, 0x200, and 0x300.
# Function 0x100 calls 0x200 once and 0x300 3 times.
# Function 0x200 calls 0x200 2 times.
[Z TRACE bpf] BPF Program Instruction Trace:
 1 [0, 0, 0, 0, 0, 0, 0, 0, 0, 0, 0] 0: aaa
 2 [0, 0, 0, 0, 0, 0, 0, 0, 0, 0, 0] 1: bbb
 3 [0, 0, 0, 0, 0, 0, 0, 0, 0, 0, 0] 2: call 0x100
 4 [0, 0, 0, 0, 0, 0, 0, 0, 0, 0, 0] 3: xxx
 5 [0, 0, 0, 0, 0, 0, 0, 0, 0, 0, 0] 4: call 0x200
 6 [0, 0, 0, 0, 0, 0, 0, 0, 0, 0, 0] 20: yyy
 7 [0, 0, 0, 0, 0, 0, 0, 0, 0, 0, 0] 21: call 0x300
 8 [0, 0, 0, 0, 0, 0, 0, 0, 0, 0, 0] 30: zzz
 9 [0, 0, 0, 0, 0, 0, 0, 0, 0, 0, 0] 31: exit
10 [0, 0, 0, 0, 0, 0, 0, 0, 0, 0, 0] 22: call 0x300
11 [0, 0, 0, 0, 0, 0, 0, 0, 0, 0, 0] 30: zzz
12 [0, 0, 0, 0, 0, 0, 0, 0, 0, 0, 0] 31: exit
13 [0, 0, 0, 0, 0, 0, 0, 0, 0, 0, 0] 23: exit
14 [0, 0, 0, 0, 0, 0, 0, 0, 0, 0, 0] 5: call 0x300
15 [0, 0, 0, 0, 0, 0, 0, 0, 0, 0, 0] 30: zzz
16 [0, 0, 0, 0, 0, 0, 0, 0, 0, 0, 0] 31: exit
17 [0, 0, 0, 0, 0, 0, 0, 0, 0, 0, 0] 6: call 0x300
18 [0, 0, 0, 0, 0, 0, 0, 0, 0, 0, 0] 30: zzz
19 [0, 0, 0, 0, 0, 0, 0, 0, 0, 0, 0] 31: exit
20 [0, 0, 0, 0, 0, 0, 0, 0, 0, 0, 0] 7: call 0x300
21 [0, 0, 0, 0, 0, 0, 0, 0, 0, 0, 0] 30: zzz
22 [0, 0, 0, 0, 0, 0, 0, 0, 0, 0, 0] 31: exit
23 [0, 0, 0, 0, 0, 0, 0, 0, 0, 0, 0] 8: exit
24 [0, 0, 0, 0, 0, 0, 0, 0, 0, 0, 0] 9: ccc
25 [0, 0, 0, 0, 0, 0, 0, 0, 0, 0, 0] 10: ddd
";

const SIMPLE_CALLGRIND_INTEGRAL: &str = "# callgrind format
version: 1
creator: bpf-profile
positions: line
events: Instructions
totals: 25
fl=<none>

fn=function_0 (0x100)
3 6
cfn=function_1 (0x200)
calls=1 0x200
4 8
cfn=function_2 (0x300)
calls=3 0x300
5 6

fn=function_1 (0x200)
20 4
cfn=function_2 (0x300)
calls=2 0x300
21 4

fn=function_2 (0x300)
30 10
";

const SIMPLE_CALLGRIND_LINE_BY_LINE: &str = "# callgrind format
version: 1
creator: bpf-profile
positions: line
events: Instructions
totals: 25
fl=/tmp/generate_line_by_line.asm

fn=function_0 (0x100)
3 1
4 1
5 1
6 1
7 1
8 1
cfn=function_1 (0x200)
calls=1 0x200
4 8
cfn=function_2 (0x300)
calls=1 0x300
5 2
cfn=function_2 (0x300)
calls=1 0x300
6 2
cfn=function_2 (0x300)
calls=1 0x300
7 2

fn=function_1 (0x200)
20 1
21 1
22 1
23 1
cfn=function_2 (0x300)
calls=1 0x300
21 2
cfn=function_2 (0x300)
calls=1 0x300
22 2

fn=function_2 (0x300)
30 5
31 5
";

const SIMPLE_GENERATED_ASM: &str = "\
0:        aaa
1:        bbb
2:        call function_0 (0x100)
3:        xxx        ; function_0 (0x100)
4:        call function_1 (0x200)
5:        call function_2 (0x300)
6:        call function_2 (0x300)
7:        call function_2 (0x300)
8:        exit
9:        ccc
10:        ddd









20:        yyy        ; function_1 (0x200)
21:        call function_2 (0x300)
22:        call function_2 (0x300)
23:        exit






30:        zzz        ; function_2 (0x300)
31:        exit
";

const HEADER: &str = "[Z TRACE bpf] BPF Program Instruction Trace:\n";

fn record(number: usize, pc: usize, text: &str) -> String {
    format!("{} [0, 0, 0, 0, 0, 0, 0, 0, 0, 0, 0] {}: {}\n", number, pc, text)
}

fn trace_of(instructions: &[(usize, &str)]) -> String {
    let mut trace = String::from(HEADER);
    for (i, (pc, text)) in instructions.iter().enumerate() {
        trace.push_str(&record(i + 1, *pc, text));
    }
    trace
}

fn profile_of(trace: &str, listing: Option<&str>) -> (Profile, usize) {
    let mut prof = Profile::new(Resolver::default(), listing).unwrap();
    let open = parse(trace, &mut prof).unwrap();
    (prof, open)
}

#[test]
fn generate_integral() {
    let resv = Resolver::default();
    let prof = Profile::new(resv, None);
    assert!(prof.is_ok());

    let mut prof = prof.unwrap();
    let r = parse(SIMPLE_INPUT, &mut prof);
    assert!(r.is_ok());

    let output = prof.write_callgrind();
    assert!(output.contains(&format!("fl={}\n", DEFAULT_ASM)));

    assert_eq!(output.len(), 317);
    assert_eq!(output, SIMPLE_CALLGRIND_INTEGRAL);
}

#[test]
fn generate_line_by_line() {
    let resv = Resolver::default();
    let asm_name = "/tmp/generate_line_by_line.asm".to_owned();
    let prof = Profile::new(resv, Some(&asm_name));
    assert!(prof.is_ok());

    let mut prof = prof.unwrap();
    let r = parse(SIMPLE_INPUT, &mut prof);
    assert!(r.is_ok());

    let output = prof.write_callgrind();
    assert!(output.contains(&format!("fl={}\n", asm_name)));

    assert_eq!(output.len(), 504);
    assert_eq!(output, SIMPLE_CALLGRIND_LINE_BY_LINE);

    let listing = prof.write_asm().unwrap();

    assert_eq!(listing.len(), 487);
    assert_eq!(listing, SIMPLE_GENERATED_ASM);
}

#[test]
fn assembly_listing_of_a_trace() {
    let (prof, _) = profile_of(SIMPLE_INPUT, Some("out.asm"));
    let listing = prof.write_asm().unwrap();
    assert_eq!(listing, SIMPLE_GENERATED_ASM);
    // The instruction at the program counter `pc` stands at the place `pc`.
    let lines: Vec<&str> = listing.lines().collect();
    assert_eq!(lines.len(), 32);
    assert_eq!(lines[0], "0:        aaa");
    assert!(lines[20].starts_with("20:"));
    assert!(lines[30].starts_with("30:"));
}

#[test]
fn no_listing_unless_asked_for() {
    let (prof, _) = profile_of(SIMPLE_INPUT, None);
    assert!(prof.write_asm().is_none());
}

#[test]
fn listing_has_a_title_where_line_one_is_free() {
    let trace = trace_of(&[(2, "aaa"), (4, "bbb")]);
    let (prof, _) = profile_of(&trace, Some("x"));
    assert_eq!(
        prof.write_asm().unwrap(),
        ";; Generated BPF assembly code for QCacheGrind\n\n2:        aaa\n\n4:        bbb\n"
    );
}

#[test]
fn run_gives_profile_and_listing() {
    let output = run(SIMPLE_INPUT, Some("/tmp/generate_line_by_line.asm"), None, "callgrind").unwrap();
    assert_eq!(output.profile, SIMPLE_CALLGRIND_LINE_BY_LINE);
    assert_eq!(output.assembly.as_deref(), Some(SIMPLE_GENERATED_ASM));
    assert_eq!(output.unbalanced, 0);

    let output = run(SIMPLE_INPUT, None, None, "callgrind").unwrap();
    assert_eq!(output.profile, SIMPLE_CALLGRIND_INTEGRAL);
    assert!(output.assembly.is_none());
}

#[test]
fn same_input_same_output() {
    let first = run(SIMPLE_INPUT, Some("a.asm"), None, "callgrind").unwrap();
    let second = run(SIMPLE_INPUT, Some("a.asm"), None, "callgrind").unwrap();
    assert_eq!(first.profile, second.profile);
    assert_eq!(first.assembly, second.assembly);
    assert_eq!(first.unbalanced, second.unbalanced);
}

#[test]
fn total_cost_counts_the_instructions() {
    let (prof, _) = profile_of(SIMPLE_INPUT, None);
    assert_eq!(prof.total_cost(), 25);
    let own: u64 = (0..prof.functions().len())
        .map(|i| prof.functions().at(i).costs().iter().map(|c| c.1).sum::<u64>())
        .sum();
    assert_eq!(own, 25);
}

#[test]
fn balanced_trace_completes_every_call() {
    let (prof, open) = profile_of(SIMPLE_INPUT, None);
    assert_eq!(open, 0);
    assert_eq!(prof.depth(), 0);
    // Each of the 7 calls of the trace is completed once: the function that
    // was called, the function that called, and the place of the call.
    let mut completed: Vec<(usize, usize, usize)> = Vec::new();
    for i in 0..prof.functions().len() {
        for call in prof.functions().at(i).calls() {
            assert_eq!(call.caller, prof.functions().at(i).address());
            completed.push((call.address, call.caller, call.caller_pc));
        }
    }
    completed.sort();
    assert_eq!(
        completed,
        vec![
            (0x100, usize::MAX, 2),
            (0x200, 0x100, 4),
            (0x300, 0x100, 5),
            (0x300, 0x100, 6),
            (0x300, 0x100, 7),
            (0x300, 0x200, 21),
            (0x300, 0x200, 22),
        ]
    );
}

#[test]
fn only_other_instructions() {
    let trace = trace_of(&[(0, "aaa"), (1, "bbb"), (2, "ccc"), (3, "ddd"), (4, "eee")]);
    let output = run(&trace, None, None, "callgrind").unwrap();
    assert!(output.profile.contains("\ntotals: 5\n"));
    assert!(!output.profile.contains("fn="));
    assert_eq!(
        output.profile,
        "# callgrind format\nversion: 1\ncreator: bpf-profile\npositions: line\nevents: Instructions\ntotals: 5\nfl=<none>\n"
    );
}

#[test]
fn one_function_called_three_times() {
    let mut instructions = Vec::new();
    for round in 0..3 {
        instructions.push((10 + round, "call 0x100"));
        instructions.push((4, "mov r1, r2"));
        instructions.push((5, "exit"));
    }
    let trace = trace_of(&instructions);

    // Line by line: the entry instruction was executed three times, and so
    // was the exit.
    let (prof, open) = profile_of(&trace, Some("x.asm"));
    assert_eq!(open, 0);
    let output = prof.write_callgrind();
    assert!(output.contains("\nfn=function_0 (0x100)\n4 3\n5 3\n"));
    assert!(!output.contains("cfn="));
    assert_eq!(output.matches("fn=").count(), 1);

    // As a whole: one line at the entry, with all that the function cost.
    let (prof, _) = profile_of(&trace, None);
    let output = prof.write_callgrind();
    assert!(output.contains("\ntotals: 9\n"));
    assert!(output.ends_with("\nfn=function_0 (0x100)\n4 6\n"));
}

#[test]
fn nested_calls() {
    let trace = trace_of(&[
        (1, "call 0x100"),
        (10, "call 0x200"),
        (20, "mov r1, r2"),
        (21, "exit"),
        (11, "exit"),
    ]);
    let (prof, open) = profile_of(&trace, None);
    assert_eq!(open, 0);
    assert_eq!(prof.total_cost(), 5);
    let output = prof.write_callgrind();
    // The function at 0x100 executed its call and its exit itself, and
    // called the function at 0x200 once, which executed two instructions.
    assert!(output.contains(
        "\nfn=function_0 (0x100)\n10 2\ncfn=function_1 (0x200)\ncalls=1 0x200\n10 2\n"
    ));
    assert!(output.ends_with("\nfn=function_1 (0x200)\n20 2\n"));
    assert_eq!(output.matches("cfn=").count(), 1);

    let outer = prof.functions().at(1);
    assert_eq!(outer.name(), "function_0 (0x100)");
    assert_eq!(outer.calls().len(), 1);
    assert_eq!(outer.calls()[0].address, 0x200);
    assert_eq!(outer.calls()[0].caller, 0x100);
    assert_eq!(outer.calls()[0].caller_pc, 10);
    assert_eq!(outer.calls()[0].cost, 2);
    // The ground made one call, which cost all but the first instruction.
    let ground = prof.functions().at(0);
    assert_eq!(ground.calls().len(), 1);
    assert_eq!(ground.calls()[0].cost, 4);
}

#[test]
fn copies_of_one_function() {
    let trace = trace_of(&[
        (1, "call 0x300"),
        (50, "mov r1, r2"),
        (51, "exit"),
        (2, "call 0x400"),
        (50, "mov r1, r2"),
        (51, "exit"),
    ]);
    let (prof, _) = profile_of(&trace, None);
    assert_eq!(prof.functions().len(), 3);
    let first = prof.functions().at(1);
    let second = prof.functions().at(2);
    assert_eq!(first.address(), 0x300);
    assert_eq!(second.address(), 0x400);
    assert_eq!(first.name(), "function_0 (0x300)");
    assert_eq!(second.name(), first.name());
    assert_eq!(first.first_pc(), 50);
    assert_eq!(second.first_pc(), 50);
    assert_eq!(prof.resolver().resolve_by_address(0x400), "function_0 (0x300)");
    let output = prof.write_callgrind();
    assert_eq!(output.matches("\nfn=function_0 (0x300)\n50 2\n").count(), 2);
}

#[test]
fn trace_without_header() {
    let trace = record(1, 0, "aaa");
    let r = run(&trace, None, None, "callgrind");
    assert_eq!(r.unwrap_err(), Error::TraceFormat);
}

#[test]
fn exit_without_call_in_the_middle() {
    let trace = trace_of(&[(0, "aaa"), (1, "exit"), (2, "bbb")]);
    let mut prof = Profile::new(Resolver::default(), None).unwrap();
    assert_eq!(parse(&trace, &mut prof), Err(Error::ExitWithoutCall(3)));
    assert_eq!(run(&trace, None, None, "callgrind").unwrap_err(), Error::ExitWithoutCall(3));

    let trace = trace_of(&[(0, "call 0x100"), (10, "exit"), (1, "exit")]);
    assert_eq!(run(&trace, None, None, "callgrind").unwrap_err(), Error::ExitWithoutCall(4));
}

#[test]
fn exit_without_call_is_found_before_the_walk() {
    let other = |pc: usize| Instruction::new(pc, InstructionData::Other, "aaa".to_string(), None);
    let exit = |pc: usize| Instruction::new(pc, InstructionData::Exit, "exit".to_string(), None);
    let call = |pc: usize| Instruction::new(pc, InstructionData::Call(0x100), "call 0x100".to_string(), None);
    let items: Vec<Item> = vec![Ok((1, other(0))), Ok((2, exit(1))), Ok((3, other(2)))];
    assert_eq!(find_stray_exit(&items, 0), Some(2));
    assert_eq!(find_stray_exit(&items, 1), None);
    // The profile is left as it was.
    let mut prof = Profile::new(Resolver::default(), None).unwrap();
    assert_eq!(walk_trace(items, &mut prof), Err(Error::ExitWithoutCall(2)));
    assert_eq!(prof.total_cost(), 0);

    let items: Vec<Item> = vec![
        Ok((1, call(0))),
        Err(Error::TraceSkipped),
        Ok((3, exit(10))),
        Ok((4, call(1))),
        Ok((5, exit(10))),
        Ok((6, exit(2))),
    ];
    assert_eq!(find_stray_exit(&items, 0), Some(6));
    // An error that stops the walk comes first.
    let items: Vec<Item> =
        vec![Err(Error::TraceParsing("call".to_string(), 1)), Ok((2, exit(1)))];
    assert_eq!(find_stray_exit(&items, 0), None);
    let ground = Instruction::new(0, InstructionData::Call(usize::MAX), "call x".to_string(), None);
    let items: Vec<Item> = vec![Ok((1, ground)), Ok((2, exit(1))), Ok((3, exit(1)))];
    assert_eq!(find_stray_exit(&items, 0), None);
    assert_eq!(find_stray_exit(&vec![], 0), None);
}

#[test]
fn profile_after_an_error() {
    // The walk stops at the malformed call of line 3: the two instructions
    // before it are counted, nothing after it is.
    let trace = trace_of(&[(0, "aaa"), (1, "call 0x100"), (10, "call"), (11, "bbb")]);
    let mut prof = Profile::new(Resolver::default(), None).unwrap();
    assert_eq!(parse(&trace, &mut prof), Err(Error::TraceParsing("call".to_string(), 4)));
    assert_eq!(prof.total_cost(), 2);
    assert_eq!(prof.depth(), 0);
    assert_eq!(prof.functions().len(), 1);

    let trace = "junk\n1 [0] 2: call\n3 [0] 3: mov\n";
    let mut prof = Profile::new(Resolver::default(), None).unwrap();
    assert_eq!(parse(trace, &mut prof), Err(Error::TraceParsing("call".to_string(), 2)));
    assert_eq!(prof.total_cost(), 0);

    // A call of the ground is counted, then refused.
    let items: Vec<Item> = vec![
        Ok((1, Instruction::new(0, InstructionData::Other, "aaa".to_string(), None))),
        Ok((2, Instruction::new(1, InstructionData::Call(usize::MAX), "call x".to_string(), None))),
    ];
    let mut prof = Profile::new(Resolver::default(), None).unwrap();
    assert_eq!(process(items, &mut prof), Err(Error::TraceParsing("call x".to_string(), 2)));
    assert_eq!(prof.total_cost(), 2);
}

#[test]
fn instruction_that_disagrees_with_the_listing() {
    let trace = trace_of(&[(0, "aaa"), (1, "bbb"), (0, "exit")]);
    let mut prof = Profile::new(Resolver::default(), Some("x")).unwrap();
    // The exit would be refused first, were a call not open.
    let trace_with_call = trace_of(&[(5, "call 0x100"), (0, "aaa"), (1, "bbb"), (0, "exit")]);
    assert_eq!(
        parse(&trace_with_call, &mut prof),
        Err(Error::TraceInconsistent("exit".to_string(), 5))
    );
    assert_eq!(prof.total_cost(), 3);
    assert_eq!(
        prof.write_asm().unwrap(),
        "0:        aaa        ; function_0 (0x100)\n1:        bbb\n\n\n\n5:        call function_0 (0x100)\n"
    );
    assert_eq!(run(&trace, Some("x"), None, "callgrind").unwrap_err(), Error::ExitWithoutCall(4));
    // Without a listing nothing can disagree.
    let (prof, _) = profile_of(&trace_with_call, None);
    assert_eq!(prof.total_cost(), 4);
    // The same instruction at the same place agrees.
    let again = trace_of(&[(0, "aaa"), (1, "bbb"), (0, "aaa"), (1, "other text")]);
    let (prof, _) = profile_of(&again, Some("x"));
    assert_eq!(prof.write_asm().unwrap(), "0:        aaa\n1:        bbb\n");
}

#[test]
fn missing_exits_at_the_end() {
    let trace = trace_of(&[(0, "call 0x100"), (10, "call 0x200"), (20, "aaa")]);
    let (prof, open) = profile_of(&trace, None);
    assert_eq!(open, 2);
    assert_eq!(prof.depth(), 0);
    assert_eq!(prof.total_cost(), 3);
    let output = prof.write_callgrind();
    assert!(output.contains(
        "\nfn=function_0 (0x100)\n10 1\ncfn=function_1 (0x200)\ncalls=1 0x200\n10 1\n"
    ));
    assert_eq!(run(&trace, None, None, "callgrind").unwrap().unbalanced, 2);
}

#[test]
fn call_at_the_very_end_is_dropped() {
    let trace = trace_of(&[(0, "aaa"), (1, "call 0x100")]);
    let (prof, open) = profile_of(&trace, None);
    assert_eq!(open, 0);
    assert_eq!(prof.total_cost(), 2);
    assert_eq!(prof.functions().len(), 1);
}

#[test]
fn lines_that_are_no_records_are_skipped() {
    let trace = "# a comment\n\n[Z TRACE bpf] BPF Program Instruction Trace:\nnoise\n 1 [0] 0: aaa\n\n 2 [0] 1: bbb\n";
    let (prof, _) = profile_of(trace, None);
    assert_eq!(prof.total_cost(), 2);
}

#[test]
fn malformed_call_stops_the_run() {
    let trace = trace_of(&[(0, "aaa"), (1, "call")]);
    let mut prof = Profile::new(Resolver::default(), None).unwrap();
    assert_eq!(parse(&trace, &mut prof), Err(Error::TraceParsing("call".to_string(), 3)));
}

#[test]
fn process_takes_items() {
    let items: Vec<Item> = vec![
        Err(Error::TraceSkipped),
        Ok((1, Instruction::new(0, InstructionData::Call(0x100), "call 0x100".to_string(), None))),
        Err(Error::TraceSkipped),
        Ok((2, Instruction::new(7, InstructionData::Other, "aaa".to_string(), None))),
        Ok((3, Instruction::new(8, InstructionData::Exit, "exit".to_string(), None))),
    ];
    let mut prof = Profile::new(Resolver::default(), None).unwrap();
    assert_eq!(process(items, &mut prof), Ok(0));
    assert_eq!(prof.total_cost(), 3);
    assert_eq!(prof.functions().at(1).first_pc(), 7);

    let items: Vec<Item> = vec![
        Ok((1, Instruction::new(0, InstructionData::Other, "aaa".to_string(), None))),
        Err(Error::TraceParsing("bad".to_string(), 2)),
        Ok((3, Instruction::new(1, InstructionData::Other, "bbb".to_string(), None))),
    ];
    let mut prof = Profile::new(Resolver::default(), None).unwrap();
    assert_eq!(process(items, &mut prof), Err(Error::TraceParsing("bad".to_string(), 2)));
    assert_eq!(prof.total_cost(), 1);
}

#[test]
fn call_of_the_ground_is_malformed() {
    let items: Vec<Item> = vec![Ok((
        5,
        Instruction::new(0, InstructionData::Call(usize::MAX), "call x".to_string(), None),
    ))];
    let mut prof = Profile::new(Resolver::default(), None).unwrap();
    assert_eq!(process(items, &mut prof), Err(Error::TraceParsing("call x".to_string(), 5)));
}

#[test]
fn calls_from_two_places_are_told_apart_line_by_line_only() {
    let trace = trace_of(&[
        (1, "call 0x100"),
        (10, "call 0x200"),
        (20, "exit"),
        (11, "call 0x200"),
        (20, "exit"),
        (12, "exit"),
    ]);
    let (prof, _) = profile_of(&trace, Some("x"));
    let output = prof.write_callgrind();
    assert!(output.contains(
        "cfn=function_1 (0x200)\ncalls=1 0x200\n10 1\ncfn=function_1 (0x200)\ncalls=1 0x200\n11 1\n"
    ));
    let (prof, _) = profile_of(&trace, None);
    let output = prof.write_callgrind();
    assert!(output.contains("cfn=function_1 (0x200)\ncalls=2 0x200\n10 2\n"));
    assert_eq!(output.matches("cfn=").count(), 1);
}
