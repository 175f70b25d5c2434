use bpf_profile::error::Error;
use bpf_profile::gen::run;
use bpf_profile::dump::{check_dump_patterns, code_in, dump_line_of, label_in, parse_dump_file, DumpLine};
use bpf_profile::resolver::{read, Resolver};

const DUMP: &str = "\
ELF Header:
  Magic:   7f 45 4c 46

Disassembly of section .text:

0000000000000100 <entrypoint>:
       2 bf 16 00 00 00 00 00 00 r6 = r1
       3 85 10 00 00 2a 00 00 00 call 0x2a

0000000000000120 <LBB0_1>:
       4 95 00 00 00 00 00 00 00 exit

0000000000000200 <helper>:
0000000000000200 <LBB1_0>:
       7 b7 00 00 00 00 00 00 00 r0 = 0
       8 95 00 00 00 00 00 00 00 exit
";

const PRETTY: &str = "\
;; Generated BPF pretty assembly code for QCacheGrind
2:        r6 = r1        ; entrypoint
3:        call 0x2a
4:        exit        ; LBB0_1


7:        r0 = 0        ; LBB1_0        ; helper
8:        exit
";

fn groups(parts: &[Option<&str>]) -> Option<Vec<Option<String>>> {
    Some(parts.iter().map(|p| p.map(str::to_string)).collect())
}

#[test]
fn names_are_made_up_in_order() {
    let mut resv = Resolver::default();
    assert!(resv.is_default());
    assert_eq!(resv.update(0x100, 3), "function_0 (0x100)");
    assert_eq!(resv.update(0x200, 20), "function_1 (0x200)");
    assert_eq!(resv.update(0xcb3fc071, 30), "function_2 (0xcb3fc071)");
    assert_eq!(resv.resolve_by_address(0x200), "function_1 (0x200)");
    assert_eq!(resv.resolve_by_first_pc(20), Some("function_1 (0x200)".to_string()));
    assert_eq!(resv.resolve_by_first_pc(21), None);
    assert!(resv.contains_address(0x100));
    assert!(!resv.contains_address(0x101));
    assert!(resv.contains_function_with_first_pc(3));
    assert!(!resv.contains_function_with_first_pc(4));
}

#[test]
fn short_names() {
    let mut resv = Resolver::default();
    assert_eq!(resv.resolve(0x100, 3), "function_0");
    assert_eq!(resv.resolve(0x200, 20), "function_1");
    assert_eq!(resv.resolve(0x100, 99), "function_0");
    assert_eq!(resv.resolve(0x300, 20), "function_1");
}

#[test]
fn same_address_same_name() {
    let mut resv = Resolver::default();
    let first = resv.update(0x100, 3);
    let second = resv.update(0x100, 3);
    let third = resv.update(0x100, 77);
    assert_eq!(first, second);
    assert_eq!(first, third);
    assert!(!resv.contains_function_with_first_pc(77));
    assert_eq!(resv.update(0x200, 4), "function_1 (0x200)");
}

#[test]
fn same_first_instruction_same_name() {
    let mut resv = Resolver::default();
    let owner = resv.update(0x300, 50);
    let copy = resv.update(0x400, 50);
    assert_eq!(owner, "function_0 (0x300)");
    assert_eq!(copy, owner);
    assert_eq!(resv.resolve_by_address(0x400), owner);
    // No name was used up for the copy.
    assert_eq!(resv.update(0x500, 60), "function_1 (0x500)");
}

#[test]
fn functions_by_their_first_instruction() {
    let mut resv = Resolver::default();
    assert_eq!(resv.update_first_pc_index("main", 10), 0);
    assert_eq!(resv.update_first_pc_index("helper", 20), 1);
    assert_eq!(resv.resolve_by_first_pc(10), Some("main".to_string()));
    assert_eq!(resv.update(0x100, 20), "helper");
    assert_eq!(resv.update(0x200, 30), "function_0 (0x200)");
}

#[test]
fn resolver_of_a_dump() {
    let resv = read(Some(DUMP)).unwrap();
    assert!(!resv.is_default());
    assert_eq!(resv.resolve_by_first_pc(2), Some("entrypoint".to_string()));
    assert_eq!(resv.resolve_by_first_pc(7), Some("helper".to_string()));
    assert_eq!(resv.resolve_by_first_pc(4), None);
    assert_eq!(resv.write_pretty_source(), PRETTY);

    let none = read(None).unwrap();
    assert!(none.is_default());
    assert_eq!(none.write_pretty_source(), ";; Generated BPF pretty assembly code for QCacheGrind\n");
    assert!(Resolver::read(DUMP).is_ok());
}

#[test]
fn dump_gives_names_to_the_profile() {
    let trace = "[Z TRACE bpf] BPF Program Instruction Trace:\n\
                 1 [0] 1: call 0x100\n\
                 2 [0] 2: r6 = r1\n\
                 3 [0] 3: call 0x2a\n\
                 4 [0] 7: r0 = 0\n\
                 5 [0] 8: exit\n\
                 6 [0] 4: exit\n";
    let output = run(trace, Some("out.asm"), Some(DUMP), "callgrind").unwrap();
    assert_eq!(output.assembly.as_deref(), Some(PRETTY));
    assert!(output.profile.contains("\nfn=entrypoint\n2 1\n3 1\n4 1\ncfn=helper\ncalls=1 0x2a\n3 2\n"));
    assert!(output.profile.contains("\nfn=helper\n7 1\n8 1\n"));
    assert!(output.profile.contains("\nfl=out.asm\n"));
}

#[test]
fn dump_without_header() {
    let dump = "Disassembly of section .text:\n0000 <f>:\n 1 95 exit\n";
    assert_eq!(read(Some(dump)).unwrap_err(), Error::DumpFormat);
    assert_eq!(read(Some("")).unwrap_err(), Error::DumpFormat);
    assert_eq!(read(Some("nothing\nof the kind\n")).unwrap_err(), Error::DumpFormat);
    // The header must come first.
    let dump = "Disassembly of section .text:\nELF Header:\n";
    assert_eq!(read(Some(dump)).unwrap_err(), Error::DumpFormat);
}

#[test]
fn dump_without_disassembly() {
    assert_eq!(read(Some("ELF Header:\n  Magic: 7f\n")).unwrap_err(), Error::DumpFormatNoDisasm);
    assert_eq!(
        read(Some("ELF Header:\n Disassembly of section .text:\n")).unwrap_err(),
        Error::DumpFormatNoDisasm
    );
}

#[test]
fn dump_with_a_line_out_of_place() {
    let dump = "ELF Header:\nDisassembly of section .text:\n\n0000 <f>:\n 1 95 00 exit\nwhat is this\n 2 95 00 exit\n";
    assert_eq!(
        read(Some(dump)).unwrap_err(),
        Error::DumpParsing("what is this".to_string(), 6)
    );
    let dump = "ELF Header:\nDisassembly of section .text:\n 99999999999999999999999 95 00 exit\n";
    assert_eq!(
        read(Some(dump)).unwrap_err(),
        Error::DumpParsing(" 99999999999999999999999 95 00 exit".to_string(), 3)
    );
    let mut resv = Resolver::default();
    assert!(parse_dump_file(dump, &mut resv).is_err());
}

#[test]
fn first_function_at_a_program_counter_keeps_it() {
    let dump = "ELF Header:\nDisassembly of section .text:\n\
                0000 <first>:\n 5 95 00 exit\n\
                0008 <second>:\n 5 95 00 exit\n\
                0010 <ignored>:\n0018 <third>:\n 6 95 00 exit\n";
    let resv = read(Some(dump)).unwrap();
    assert_eq!(resv.resolve_by_first_pc(5), Some("first".to_string()));
    assert_eq!(resv.resolve_by_first_pc(6), Some("third".to_string()));
}

#[test]
fn parts_of_a_dump_line() {
    assert!(check_dump_patterns());
    assert_eq!(label_in(&groups(&[Some("0 <f>"), Some("f")])), Some("f".to_string()));
    assert_eq!(label_in(&groups(&[Some("0 <f>"), None])), None);
    assert_eq!(label_in(&groups(&[Some("0 <f>")])), None);
    assert_eq!(label_in(&None), None);
    let code = groups(&[Some(" 5 95 00 exit"), Some("5"), Some(" 00"), Some("exit")]);
    assert_eq!(code_in(&code), Some((5, "exit".to_string())));
    assert_eq!(code_in(&groups(&[Some("x"), Some("5"), Some(" 00")])), None);
    assert_eq!(code_in(&groups(&[Some("x"), Some("5x"), Some(" 00"), Some("exit")])), None);
    assert_eq!(code_in(&groups(&[Some("x"), None, Some(" 00"), Some("exit")])), None);
    assert_eq!(code_in(&groups(&[Some("x"), Some("5"), Some(" 00"), None])), None);
    assert_eq!(dump_line_of("  \t", &code, &code, &code), DumpLine::Blank);
    assert_eq!(dump_line_of("x", &code, &None, &None), DumpLine::Block("5".to_string()));
    assert_eq!(dump_line_of("x", &None, &code, &code), DumpLine::Function("5".to_string()));
    assert_eq!(dump_line_of("x", &None, &None, &code), DumpLine::Code(5, "exit".to_string()));
    assert_eq!(dump_line_of("x", &None, &None, &None), DumpLine::Unknown);
    let last = usize::MAX.to_string();
    assert_eq!(code_in(&groups(&[Some("x"), Some(last.as_str()), Some(" 00"), Some("exit")])), None);
    assert_eq!(code_in(&None), None);
}

#[test]
fn lines_of_the_dump_by_program_counter() {
    let mut resv = Resolver::default();
    resv.add_pretty_source(3, "three".to_string());
    resv.add_pretty_source(5, "five".to_string());
    resv.add_pretty_source(3, "again".to_string());
    resv.add_instruction(6, "exit", &Some("LBB0_2".to_string()), &Some("f".to_string()));
    resv.add_instruction(7, "exit", &None, &None);
    assert_eq!(
        resv.write_pretty_source(),
        ";; Generated BPF pretty assembly code for QCacheGrind\n\nagain\n\nfive\n6:        exit        ; LBB0_2        ; f\n7:        exit\n"
    );
}
