use bpf_profile::bpf::{Instruction, InstructionData};
use bpf_profile::calls::{call_events, resolve_calls, run, trace_calls, update_resolver, CallEvent};
use bpf_profile::error::Error;
use bpf_profile::gen::trace::parse_items;
use bpf_profile::gen::walk::Item;
use bpf_profile::resolver::Resolver;

const TRACE: &str = "\
[Z TRACE bpf] BPF Program Instruction Trace:
 1 [0] 0: aaa
 2 [0] 2: call 0x100
 3 [0] 3: xxx
 4 [0] 4: call 0x200
 5 [0] 20: call 0x300
 6 [0] 30: zzz
 7 [0] 31: exit
 8 [0] 23: exit
 9 [0] 5: call 0x300
10 [0] 30: zzz
11 [0] 31: exit
12 [0] 8: exit
13 [0] 9: ccc
";

const REPORT: &str = "\
[0] function_0 (0x100)
[1]   function_1 (0x200)
[2]     function_2 (0x300)
[1]   function_2 (0x300)
";

fn instruction(pc: usize, text: &str) -> Instruction {
    Instruction::new(pc, InstructionData::parse(text, 0).unwrap(), text.to_string(), None)
}

#[test]
fn calls_in_their_order() {
    assert_eq!(run(TRACE, None, 2), Ok(REPORT.to_string()));
    assert_eq!(
        run(TRACE, None, 0),
        Ok("[0] function_0 (0x100)\n[1] function_1 (0x200)\n[2] function_2 (0x300)\n[1] function_2 (0x300)\n".to_string())
    );
}

#[test]
fn calls_need_a_header() {
    assert_eq!(run(" 1 [0] 0: aaa\n", None, 2), Err(Error::TraceFormat));
}

#[test]
fn calls_with_their_places() {
    let items = parse_items(TRACE);
    assert_eq!(items.len(), 14);
    let events = call_events(&items).unwrap();
    assert_eq!(
        events,
        vec![
            CallEvent { address: 0x100, first_pc: 3, depth: 0 },
            CallEvent { address: 0x200, first_pc: 20, depth: 1 },
            CallEvent { address: 0x300, first_pc: 30, depth: 2 },
            CallEvent { address: 0x300, first_pc: 30, depth: 1 },
        ]
    );
    let mut resv = Resolver::default();
    assert_eq!(resolve_calls(&events, &mut resv), 3);
    assert_eq!(resv.resolve_by_address(0x300), "function_2 (0x300)");

    let mut resv = Resolver::default();
    assert_eq!(update_resolver(&items, &mut resv), Ok(3));
    assert_eq!(trace_calls(&items, &resv, 1, 2), Ok(REPORT.to_string()));
    assert_eq!(
        trace_calls(&items, &resv, 3, 1).unwrap().lines().collect::<Vec<_>>(),
        vec![
            "[  0] function_0 (0x100)",
            "[  1]  function_1 (0x200)",
            "[  2]   function_2 (0x300)",
            "[  1]  function_2 (0x300)",
        ]
    );
}

#[test]
fn no_calls_no_lines() {
    let items: Vec<Item> = vec![Ok((1, instruction(0, "aaa"))), Err(Error::TraceSkipped)];
    let mut resv = Resolver::default();
    assert_eq!(update_resolver(&items, &mut resv), Ok(0));
    assert_eq!(trace_calls(&items, &resv, 1, 2), Ok(String::new()));
}

#[test]
fn line_after_a_call_must_be_an_instruction() {
    let items: Vec<Item> = vec![
        Ok((1, instruction(0, "call 0x100"))),
        Err(Error::TraceSkipped),
        Ok((3, instruction(7, "exit"))),
    ];
    assert_eq!(call_events(&items), Err(Error::TraceSkipped));
    let items: Vec<Item> = vec![Ok((1, instruction(0, "call 0x100")))];
    assert_eq!(call_events(&items), Err(Error::TraceSkipped));
    let mut resv = Resolver::default();
    assert_eq!(update_resolver(&items, &mut resv), Err(Error::TraceSkipped));
    assert_eq!(trace_calls(&items, &resv, 1, 2), Err(Error::TraceSkipped));
}

#[test]
fn exit_needs_a_call() {
    let items: Vec<Item> = vec![Ok((1, instruction(0, "aaa"))), Ok((2, instruction(1, "exit")))];
    assert_eq!(call_events(&items), Err(Error::ExitWithoutCall(2)));
}

#[test]
fn errors_of_lines_are_kept() {
    let items: Vec<Item> = vec![
        Ok((1, instruction(0, "aaa"))),
        Err(Error::TraceParsing("call".to_string(), 2)),
    ];
    assert_eq!(call_events(&items), Err(Error::TraceParsing("call".to_string(), 2)));
    let ground = Instruction::new(0, InstructionData::CallX(usize::MAX), "callx r1".to_string(), None);
    assert_eq!(
        call_events(&vec![Ok((9, ground))]),
        Err(Error::TraceParsing("callx r1".to_string(), 9))
    );
}
