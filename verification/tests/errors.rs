use bpf_profile::error::Error;

#[test]
fn sentences_of_the_errors() {
    assert_eq!(
        Error::DumpFormat.message(),
        "Unsupported format of dump file: should contain standard header"
    );
    assert_eq!(Error::DumpFormatNoDisasm.message(), "Dump file without disassembly");
    assert_eq!(
        Error::DumpParsing("what".to_string(), 12).message(),
        "Cannot parse instruction 'what' of a function at line '12'"
    );
    assert_eq!(
        Error::TraceFormat.message(),
        "Unsupported format of trace file: should contain standard header"
    );
    assert_eq!(Error::TraceSkipped.message(), "Skipped input");
    assert_eq!(
        Error::TraceNotCall("exit".to_string(), 3).message(),
        "Instruction at line 3 is not a call: 'exit'"
    );
    assert_eq!(
        Error::TraceParsing("call".to_string(), 1000).message(),
        "Cannot parse trace instruction 'call' at line 1000"
    );
    assert_eq!(Error::ExitWithoutCall(0).message(), "Exit without call at line 0");
    assert_eq!(
        Error::TraceInconsistent("exit".to_string(), 7).message(),
        "Inconsistent input at line 7: 'exit'"
    );
    assert_eq!(Error::Pattern.message(), "Invalid regex");
}

#[test]
fn copies_of_the_errors() {
    let errors = [
        Error::DumpFormat,
        Error::DumpFormatNoDisasm,
        Error::DumpParsing("a".to_string(), 1),
        Error::TraceFormat,
        Error::TraceSkipped,
        Error::TraceNotCall("b".to_string(), 2),
        Error::TraceParsing("c".to_string(), 3),
        Error::ExitWithoutCall(4),
        Error::TraceInconsistent("d".to_string(), 5),
        Error::Pattern,
    ];
    for e in errors.iter() {
        assert_eq!(&e.duplicate(), e);
    }
}
