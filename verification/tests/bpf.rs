use bpf_profile::bpf::{Instruction, InstructionData};
use bpf_profile::error::Error;

const LINE: &str = " 3 [0, 0, 0, 0, 0, 0, 0, 0, 0, 0, 0] 2: call 0x100";

fn groups(parts: &[Option<&str>]) -> Option<Vec<Option<String>>> {
    Some(parts.iter().map(|p| p.map(str::to_string)).collect())
}

#[test]
fn kinds_of_instructions() {
    assert_eq!(InstructionData::parse("", 1), Ok(InstructionData::Empty));
    assert_eq!(InstructionData::parse("  \t", 1), Ok(InstructionData::Empty));
    assert_eq!(InstructionData::parse("exit", 1), Ok(InstructionData::Exit));
    assert_eq!(InstructionData::parse("  exit ", 1), Ok(InstructionData::Exit));
    assert_eq!(InstructionData::parse("exit 1", 1), Ok(InstructionData::Other));
    assert_eq!(InstructionData::parse("mov r1, r2", 1), Ok(InstructionData::Other));
    assert_eq!(InstructionData::parse("ecall 0x1", 1), Ok(InstructionData::Other));
    assert_eq!(InstructionData::parse("call 0x100", 1), Ok(InstructionData::Call(0x100)));
    assert_eq!(InstructionData::parse("call 100", 1), Ok(InstructionData::Call(0x100)));
    assert_eq!(InstructionData::parse(" call \t 0xcb3fc071 ", 1), Ok(InstructionData::Call(0xcb3fc071)));
    assert_eq!(InstructionData::parse("callx 0x8e0001f9", 1), Ok(InstructionData::Call(0x8e0001f9)));
    assert_eq!(InstructionData::default(), InstructionData::Empty);
}

#[test]
fn malformed_calls() {
    let malformed = |text: &str, line: usize| Err(Error::TraceParsing(text.to_string(), line));
    assert_eq!(InstructionData::parse("call", 7), malformed("call", 7));
    assert_eq!(InstructionData::parse(" call ", 7), malformed("call", 7));
    assert_eq!(InstructionData::parse("call 0x100 0x200", 8), malformed("call 0x100 0x200", 8));
    assert_eq!(InstructionData::parse("call r1", 9), malformed("call r1", 9));
    assert_eq!(InstructionData::parse("callq 0x100", 9), malformed("callq 0x100", 9));
    assert_eq!(InstructionData::parse("call0x100", 9), malformed("call0x100", 9));
    assert_eq!(InstructionData::parse("call 0x", 9), malformed("call 0x", 9));
    assert_eq!(
        InstructionData::parse("call 0x100000000000000000", 9),
        malformed("call 0x100000000000000000", 9)
    );
    // The ground is no function that can be called.
    let ground = format!("call 0x{:x}", usize::MAX);
    assert_eq!(InstructionData::parse(&ground, 3), malformed(&ground, 3));
}

#[test]
fn instruction_of_a_line() {
    let ix = Instruction::parse(LINE, 3).unwrap();
    assert_eq!(ix.pc(), 2);
    assert_eq!(ix.data(), InstructionData::Call(0x100));
    assert_eq!(ix.text(), "call 0x100");
    assert_eq!(ix.bpf_units(), None);
    assert!(ix.is_call());
    assert!(!ix.is_exit());
    assert!(!ix.is_empty());

    let ix = Instruction::parse("12 [1, 2] 31:   exit  ", 12).unwrap();
    assert_eq!(ix.pc(), 31);
    assert!(ix.is_exit());
    assert_eq!(ix.text(), "exit");

    let ix = Instruction::parse("noise 12 [1, 2] 40: mov64 r1, r2", 1).unwrap();
    assert_eq!(ix.pc(), 40);
    assert_eq!(ix.data(), InstructionData::Other);
    assert_eq!(ix.text(), "mov64 r1, r2");
}

#[test]
fn lines_without_a_record_are_skipped() {
    for line in ["", "   ", "# a comment", "[Z TRACE bpf] BPF Program Instruction Trace:", "1 [0] x: exit", "1 0 2: exit", "1 [0] 2:exit"] {
        assert_eq!(Instruction::parse(line, 1), Err(Error::TraceSkipped), "{:?}", line);
    }
}

#[test]
fn malformed_records() {
    assert_eq!(
        Instruction::parse("1 [0] 2: call", 5),
        Err(Error::TraceParsing("call".to_string(), 5))
    );
    let line = "1 [0] 99999999999999999999999: exit";
    assert_eq!(Instruction::parse(line, 6), Err(Error::TraceParsing(line.to_string(), 6)));
}

#[test]
fn instruction_of_capture_groups() {
    let ix = Instruction::from_captures(&groups(&[Some("x"), Some("12"), Some("  call 0x10 ")]), "x", 4);
    let ix = ix.unwrap();
    assert_eq!(ix.pc(), 12);
    assert_eq!(ix.data(), InstructionData::Call(0x10));
    assert_eq!(ix.text(), "call 0x10");

    assert_eq!(Instruction::from_captures(&None, "x", 4), Err(Error::TraceSkipped));
    assert_eq!(
        Instruction::from_captures(&groups(&[Some("x"), Some("12")]), "x", 4),
        Err(Error::TraceSkipped)
    );
    assert_eq!(
        Instruction::from_captures(&groups(&[Some("x"), None, Some("exit")]), "x", 4),
        Err(Error::TraceSkipped)
    );
    assert_eq!(
        Instruction::from_captures(&groups(&[Some("x"), Some("1"), None]), "x", 4),
        Err(Error::TraceSkipped)
    );
    assert_eq!(
        Instruction::from_captures(&groups(&[Some("x"), Some("1x"), Some("exit")]), "the line", 4),
        Err(Error::TraceParsing("the line".to_string(), 4))
    );
    assert_eq!(
        Instruction::from_captures(&groups(&[Some("x"), Some("1"), Some("call")]), "the line", 4),
        Err(Error::TraceParsing("call".to_string(), 4))
    );
    let empty = Instruction::from_captures(&groups(&[Some("x"), Some("5"), Some("  ")]), "x", 4).unwrap();
    assert!(empty.is_empty());
    assert_eq!(empty.pc(), 5);
}

#[test]
fn parts_of_a_call() {
    let call = Instruction::new(4, InstructionData::Call(0x200), "call 0x200".to_string(), Some(9));
    assert_eq!(call.call_operation(1), Ok("call".to_string()));
    assert_eq!(call.call_target(1), Ok(0x200));
    assert_eq!(call.bpf_units(), Some(9));
    let callx = Instruction::new(4, InstructionData::CallX(0x300), "callx r1".to_string(), None);
    assert!(callx.is_call());
    assert_eq!(callx.call_operation(1), Ok("callx".to_string()));
    assert_eq!(callx.call_target(1), Ok(0x300));
    let other = Instruction::new(4, InstructionData::Exit, "exit".to_string(), None);
    assert_eq!(other.call_operation(17), Err(Error::TraceNotCall("exit".to_string(), 17)));
    assert_eq!(other.call_target(18), Err(Error::TraceNotCall("exit".to_string(), 18)));
}

#[test]
fn instructions_at_one_place_of_a_listing() {
    let call = Instruction::new(4, InstructionData::Call(0x200), "call 0x200".to_string(), None);
    let same = Instruction::new(4, InstructionData::Call(0x200), "call other".to_string(), Some(1));
    let elsewhere = Instruction::new(5, InstructionData::Call(0x200), "call 0x200".to_string(), None);
    let other_target = Instruction::new(4, InstructionData::Call(0x300), "call 0x300".to_string(), None);
    assert!(call.compare_asm(&same));
    assert!(!call.compare_asm(&elsewhere));
    assert!(!call.compare_asm(&other_target));
    let indirect = Instruction::new(4, InstructionData::CallX(0x200), "callx r1".to_string(), None);
    let indirect_too = Instruction::new(4, InstructionData::CallX(0x300), "callx r1".to_string(), None);
    assert!(indirect.compare_asm(&indirect_too));
    assert!(!indirect.compare_asm(&call));
    assert!(!call.compare_asm(&indirect));
}

#[test]
fn line_of_a_listing() {
    let ix = Instruction::new(12, InstructionData::Other, "mov r1, r2".to_string(), None);
    assert_eq!(ix.to_text(), "12:        mov r1, r2");
    assert_eq!(ix.duplicate(), ix);
    assert_eq!(Instruction::default().to_text(), "");
    assert!(Instruction::default().is_empty());
    assert_eq!(Instruction::default().pc(), 0);
}
