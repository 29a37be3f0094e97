use aeruginous_io::writing::{
    write_text, Manner, OpenMode, Opening, OptionTruncation, Writer, Writing,
};
use aeruginous_io::{Report, Verbosity};
use sysexits::ExitCode;

#[test]
fn truncate_loudly_success_none() {
    let mut buffer = Vec::new();

    assert!("test"
        .truncate_loudly(None::<std::path::PathBuf>, &mut buffer, |_, _| {
            Report::failure("", Verbosity::Loud)
        })
        .result
        .is_ok());
    assert_eq!(buffer, b"test");
}

#[test]
fn truncate_silently_success_none() {
    let mut buffer = Vec::new();

    assert!("test"
        .truncate_silently(None::<std::path::PathBuf>, &mut buffer, |_, _| {
            Err(ExitCode::IoErr)
        })
        .is_ok());
    assert_eq!(buffer, b"test");
}

#[test]
fn write_loudly_success() {
    let mut buffer = Vec::new();

    assert!("test".write_loudly(&mut buffer).result.is_ok());
    assert_eq!(buffer, b"test");
}

#[test]
fn write_silently_success() {
    let mut buffer = Vec::new();

    assert!("test".write_silently(&mut buffer).is_ok());
    assert_eq!(buffer, b"test");
}

#[test]
fn hello_reaches_the_sink() {
    let mut sink = Vec::new();
    assert_eq!("hello".write_silently(&mut sink), Ok(()));
    assert_eq!(sink, b"hello");

    let mut sink = Vec::new();
    let report = "hello".write_loudly(&mut sink);
    assert_eq!(report.result, Ok(()));
    assert_eq!(report.diagnostics, "");
    assert_eq!(sink, b"hello");
}

#[test]
fn the_sink_keeps_what_it_held() {
    let mut sink = b"held ".to_vec();
    assert!(write_text("gr\u{fc}n", &mut sink, Verbosity::Silent).result.is_ok());
    assert_eq!(sink, b"held gr\xc3\xbcn");
    assert!("".write_silently(&mut sink).is_ok());
    assert_eq!(sink, b"held gr\xc3\xbcn");
}

#[test]
fn two_parts_leave_what_the_whole_leaves() {
    let mut parts = Vec::new();
    assert!("first \u{e9}".write_silently(&mut parts).is_ok());
    assert!("second".write_silently(&mut parts).is_ok());
    let mut whole = Vec::new();
    assert!("first \u{e9}second".write_silently(&mut whole).is_ok());
    assert_eq!(parts, whole);

    let first = Opening::appendix("first \u{e9}", Verbosity::Silent);
    let second = Opening::appendix("second", Verbosity::Silent);
    let both = Opening::appendix("first \u{e9}second", Verbosity::Silent);
    let mut file = Vec::new();
    for opening in [first, second] {
        let (_, writing) = opening.opened(Ok::<(), String>(())).ok().unwrap();
        file.extend_from_slice(writing.payload());
    }
    let (_, writing) = both.opened(Ok::<(), String>(())).ok().unwrap();
    assert_eq!(file, writing.payload());
}

#[test]
fn payload_is_the_text_in_utf8() {
    assert_eq!(Writing::new("test\n", Verbosity::Loud).payload(), b"test\n");
    assert_eq!(Writing::new("", Verbosity::Loud).payload(), b"");
    assert_eq!(
        Writing::new("\u{20ac}", Verbosity::Silent).payload(),
        b"\xe2\x82\xac"
    );
}

#[test]
fn a_sink_that_took_every_byte_makes_a_success() {
    let report = Writing::new("hello", Verbosity::Loud).written(Ok(5));
    assert_eq!(report.result, Ok(()));
    assert_eq!(report.diagnostics, "");
    let report = Writing::new("", Verbosity::Silent).written(Ok(0));
    assert_eq!(report.result, Ok(()));
    assert_eq!(report.diagnostics, "");
}

#[test]
fn a_short_write_is_an_input_output_failure() {
    let report = Writing::new("hello", Verbosity::Loud).written(Ok(3));
    assert_eq!(report.result, Err(ExitCode::IoErr));
    assert_eq!(report.diagnostics, "Creating an exact copy was not possible.\n");

    let report = Writing::new("hello", Verbosity::Silent).written(Ok(3));
    assert_eq!(report.result, Err(ExitCode::IoErr));
    assert_eq!(report.diagnostics, "");

    let report = Writing::new("hello", Verbosity::Loud).written(Ok(0));
    assert_eq!(report.result, Err(ExitCode::IoErr));
    let report = Writing::new("hello", Verbosity::Loud).written(Ok(6));
    assert_eq!(report.result, Err(ExitCode::IoErr));
    assert_eq!(report.diagnostics, "Creating an exact copy was not possible.\n");
}

#[test]
fn a_failing_sink_is_an_input_output_failure() {
    let report = Writing::new("hello", Verbosity::Loud).written(Err("Broken pipe".to_string()));
    assert_eq!(report.result, Err(ExitCode::IoErr));
    assert_eq!(report.diagnostics, "Broken pipe\n");

    let report = Writing::new("hello", Verbosity::Silent).written(Err("Broken pipe".to_string()));
    assert_eq!(report.result, Err(ExitCode::IoErr));
    assert_eq!(report.diagnostics, "");
}

#[test]
fn truncation_opens_to_replace() {
    let opening = Opening::truncation("test\n", Verbosity::Silent);
    assert_eq!(
        opening.mode(),
        OpenMode {
            append: false,
            create: true,
            truncate: true,
            write: true
        }
    );
    let (file, writing) = opening.opened(Ok::<u8, String>(7)).ok().unwrap();
    assert_eq!(file, 7);
    assert_eq!(writing.payload(), b"test\n");
    assert_eq!(writing.written(Ok(5)).result, Ok(()));
}

#[test]
fn appendix_opens_to_extend() {
    let opening = Opening::appendix("more", Verbosity::Loud);
    assert_eq!(
        opening.mode(),
        OpenMode {
            append: true,
            create: true,
            truncate: false,
            write: false
        }
    );
    let (_, writing) = opening.opened(Ok::<(), String>(())).ok().unwrap();
    assert_eq!(writing.payload(), b"more");
    assert_ne!(Manner::Appendix, Manner::Truncation);
}

#[test]
fn a_file_that_does_not_open_is_an_input_output_failure() {
    let opening = Opening::truncation("", Verbosity::Loud);
    match opening.opened(Err::<(), String>("Is a directory (os error 21)".to_string())) {
        Ok(_) => panic!("there is no file to write to"),
        Err(report) => {
            assert_eq!(report.result, Err(ExitCode::IoErr));
            assert_eq!(report.diagnostics, "Is a directory (os error 21)\n");
        }
    }
    let opening = Opening::appendix("x", Verbosity::Silent);
    match opening.opened(Err::<(), String>("Permission denied (os error 13)".to_string())) {
        Ok(_) => panic!("there is no file to write to"),
        Err(report) => {
            assert_eq!(report.result, Err(ExitCode::IoErr));
            assert_eq!(report.diagnostics, "");
        }
    }
}

#[test]
fn option_truncation_uses_the_named_file_where_one_is_named() {
    let mut fallback = b"untouched".to_vec();
    let mut seen = Vec::new();
    let result = "data".truncate_silently(Some("out.txt"), &mut fallback, |text, path| {
        seen.push(format!("{text} -> {path}"));
        Ok(())
    });
    assert_eq!(result, Ok(()));
    assert_eq!(seen, vec!["data -> out.txt".to_string()]);
    assert_eq!(fallback, b"untouched");

    let report = "data".truncate_loudly(Some("tests/"), &mut fallback, |text, _| {
        match Opening::truncation(text, Verbosity::Loud)
            .opened(Err::<(), String>("Is a directory (os error 21)".to_string()))
        {
            Ok((_, writing)) => writing.written(Ok(0)),
            Err(report) => report,
        }
    });
    assert_eq!(report.result, Err(ExitCode::IoErr));
    assert_eq!(report.diagnostics, "Is a directory (os error 21)\n");
    assert_eq!(fallback, b"untouched");
}

#[test]
fn option_truncation_equals_the_writer_without_a_name() {
    let mut by_option = b"> ".to_vec();
    let mut by_writer = b"> ".to_vec();
    let loud = "t\u{e9}xt".truncate_loudly(None::<String>, &mut by_option, |_, _| {
        Report::failure("", Verbosity::Loud)
    });
    let direct = "t\u{e9}xt".write_loudly(&mut by_writer);
    assert_eq!(loud.result, direct.result);
    assert_eq!(loud.diagnostics, direct.diagnostics);
    assert_eq!(by_option, by_writer);
    assert_eq!(by_option, b"> t\xc3\xa9xt");
}

/// Carries a truncation through with the replies that the file gave.
fn truncated(
    data: &str,
    verbosity: Verbosity,
    opened: Result<(), String>,
    file: &mut Vec<u8>,
) -> Report<()> {
    let opening = Opening::truncation(data, verbosity);
    assert!(opening.mode().truncate && opening.mode().create);
    match opening.opened(opened) {
        Ok((_, writing)) => {
            file.clear();
            file.extend_from_slice(writing.payload());
            let taken = writing.payload().len();
            writing.written(Ok(taken))
        }
        Err(report) => report,
    }
}

#[test]
fn truncate_loudly_failure() {
    let mut file = Vec::new();
    let opened = Err("Is a directory (os error 21)".to_string());
    assert!(truncated("", Verbosity::Loud, opened, &mut file)
        .result
        .is_err());
}

#[test]
fn truncate_silently_failure() {
    let mut file = Vec::new();
    let opened = Err("Is a directory (os error 21)".to_string());
    assert!(truncated("", Verbosity::Silent, opened, &mut file)
        .result
        .is_err());
}

#[test]
fn truncate_loudly_success() {
    let mut file = Vec::new();

    assert!(truncated("test\n", Verbosity::Loud, Ok(()), &mut file)
        .result
        .is_ok());
    assert_eq!(file, b"test\n");
}

#[test]
fn truncate_silently_success() {
    let mut file = Vec::new();

    assert!(truncated("test\n", Verbosity::Silent, Ok(()), &mut file)
        .result
        .is_ok());
    assert_eq!(file, b"test\n");
}

#[test]
fn truncate_loudly_success_some() {
    let mut file = Vec::new();

    assert!("test\n"
        .truncate_loudly(Some("some.txt"), &mut Vec::new(), |data, _| {
            truncated(data, Verbosity::Loud, Ok(()), &mut file)
        })
        .result
        .is_ok());
    assert_eq!(file, b"test\n");
}

#[test]
fn truncate_silently_success_some() {
    let mut file = Vec::new();

    assert!("test\n"
        .truncate_silently(Some("some.txt"), &mut Vec::new(), |data, _| {
            truncated(data, Verbosity::Silent, Ok(()), &mut file).result
        })
        .is_ok());
    assert_eq!(file, b"test\n");
}

#[test]
fn a_second_truncation_replaces_the_first() {
    let mut file = b"what the file held".to_vec();
    assert!(truncated("first", Verbosity::Silent, Ok(()), &mut file)
        .result
        .is_ok());
    assert_eq!(file, b"first");
    assert!(truncated("first", Verbosity::Silent, Ok(()), &mut file)
        .result
        .is_ok());
    assert_eq!(file, b"first");
    assert!(truncated("second", Verbosity::Silent, Ok(()), &mut file)
        .result
        .is_ok());
    assert_eq!(file, b"second");
}
