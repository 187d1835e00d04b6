use dolang_ext::console::data::{
    data_bytes, encode_value, parse_mode, strip_line_ending, write_data, DataArg, Framing,
};
use dolang_ext::console::routing::{
    ambient, ansi_enabled, can_style, capture_into, capture_outcome, captured_text, complete,
    default_line_ending, flush, install_capture, install_console, is_captured, is_tty,
    line_ending, mute_output, restore_capture, route, terminal_line_ending, terminal_output,
    write_terminal_line, CaptureInto, Console, ConsoleId, Geometry, Host, Request, Strand,
};
use dolang_ext::console::sink::{Emitted, SinkConsole, SubConsole};
use dolang_ext::error::Error;
use dolang_ext::value::Value;

#[test]
fn strips_exactly_one_complete_line_ending() {
    assert_eq!(strip_line_ending("text\r\n"), "text");
    assert_eq!(strip_line_ending("text\n"), "text");
    assert_eq!(strip_line_ending("text\r"), "text\r");
    assert_eq!(strip_line_ending("text\n\n"), "text\n");
    assert_eq!(strip_line_ending("text\r\r\n"), "text\r");
}

#[test]
fn bare_consoles_take_nothing() {
    let console = Console;
    assert!(matches!(console.write(), Err(Error::NotSupported)));
    assert!(matches!(console.flush(), Err(Error::NotSupported)));
    assert_eq!(console.line_ending(), "\n");
    assert!(!console.can_style() && !console.is_tty());
    assert!(console.geometry().is_none());
    assert!(matches!(Geometry.rows(), Err(Error::NotSupported)));
    assert!(matches!(Geometry.cols(), Err(Error::NotSupported)));
}

#[test]
fn modes_are_symbols() {
    assert!(matches!(parse_mode(&None), Ok(Framing::Line)));
    let chunk = Some(Value::Sym("CHUNK".to_string()));
    assert!(matches!(parse_mode(&chunk), Ok(Framing::Chunk)));
    let line = Some(Value::Sym("LINE".to_string()));
    assert!(matches!(parse_mode(&line), Ok(Framing::Line)));
    assert!(parse_mode(&Some(Value::Sym("WORD".to_string()))).is_err());
    assert!(parse_mode(&Some(Value::Int(1))).is_err());
}

#[test]
fn data_is_text_or_bytes() {
    assert_eq!(
        data_bytes(&Value::Str("h\u{e9}".to_string())).unwrap(),
        [0x68, 0xc3, 0xa9]
    );
    assert_eq!(data_bytes(&Value::Bin(vec![0xff])).unwrap(), [0xff]);
    assert!(data_bytes(&Value::Nil).is_err());
    assert_eq!(
        encode_value(&Value::Int(5), Ok("5".to_string())).unwrap(),
        b"5"
    );
    assert_eq!(
        encode_value(&Value::Bin(vec![1]), Ok("x".to_string())).unwrap(),
        [1]
    );
    assert!(write_data(&vec![DataArg::Key("k".to_string())]).is_err());
    assert_eq!(
        write_data(&vec![DataArg::Pos(Value::Str("ab".to_string()))]).unwrap(),
        b"ab"
    );
}

#[test]
fn lines_are_framed_across_writes() {
    let mut sink = SinkConsole::new(false, Framing::Line);
    let fed = sink.feed(&b"one\ntw".to_vec(), false);
    assert!(fed.error.is_none());
    let lines: Vec<String> = fed
        .values
        .iter()
        .map(|v| match v {
            Emitted::Text(s) => s.clone(),
            Emitted::Bytes(_) => panic!("bytes"),
        })
        .collect();
    assert_eq!(lines, ["one\n"]);
    let fed = sink.feed(&b"o".to_vec(), true);
    assert!(matches!(&fed.values[..], [Emitted::Text(s)] if s == "two"));
}

#[test]
fn chunks_pass_through() {
    let mut sink = SinkConsole::new(true, Framing::Chunk);
    assert!(sink.can_style());
    let fed = sink.feed(&vec![0xff, 10, 1], false);
    assert!(matches!(&fed.values[..], [Emitted::Bytes(b)] if b == &[0xff, 10, 1]));
    assert!(sink.drain(true).is_empty());
}

#[test]
fn lines_have_to_be_text() {
    let mut sink = SinkConsole::new(false, Framing::Line);
    let fed = sink.feed(&vec![0xff, 10], false);
    match fed.error {
        Some(Error::Runtime(m)) => assert_eq!(m, "console capture: invalid UTF-8"),
        other => panic!("{other:?}"),
    }
    let mut sub = SubConsole::new(true);
    assert!(sub.append(b"ab".to_vec()).is_ok());
    assert!(sub.append(vec![0xff]).is_err());
    assert_eq!(sub.text(), "ab");
    assert!(sub.can_style());
}

#[test]
fn output_goes_to_the_host_or_is_captured() {
    let mut host = Host::new();
    let mut strand = Strand::new();
    assert!(route(&strand, &host).is_err());
    install_console(&mut host, ConsoleId(1), true, "\r\n");
    assert_eq!(route(&strand, &host).unwrap().0, 1);
    assert!(ansi_enabled(&strand, &host));
    assert_eq!(terminal_line_ending(&strand, &host).unwrap(), b"\r\n");
    assert!(!is_captured(&strand));
    let saved = install_capture(&mut strand, ConsoleId(2), false, Value::Str("\n".to_string()));
    assert!(is_captured(&strand));
    assert_eq!(ambient(&strand, &host).unwrap().0, 2);
    assert!(!ansi_enabled(&strand, &host));
    assert!(matches!(terminal_output(&strand), Some(ConsoleId(2))));
    restore_capture(&mut strand, saved);
    assert_eq!(route(&strand, &host).unwrap().0, 1);
    assert!(ansi_enabled(&strand, &host));
}

#[test]
fn writes_are_dispatched() {
    let mut host = Host::new();
    install_console(&mut host, ConsoleId(7), false, "\n");
    let mut strand = Strand::new();
    let d = dolang_ext::console::routing::write(&mut strand, &host, b"a".to_vec()).unwrap();
    assert_eq!(d.target.0, 7);
    assert!(matches!(&d.request, Request::Write(b) if b == b"a"));
    complete(&mut strand, d.previous);
    let d = dolang_ext::console::routing::writeln(&mut strand, &host, b"a".to_vec()).unwrap();
    assert!(matches!(&d.request, Request::WriteLine(b, e) if b == b"a" && e == b"\n"));
    complete(&mut strand, d.previous);
    let d = flush(&mut strand, &host).unwrap();
    assert!(matches!(d.request, Request::Flush));
    complete(&mut strand, d.previous);
    let d = write_terminal_line(&mut strand, &host, Some(ConsoleId(9)), b"\r\n".to_vec(), "x").unwrap();
    assert_eq!(d.target.0, 9);
    complete(&mut strand, d.previous);
}

#[test]
fn consoles_answer_with_the_right_types() {
    assert!(can_style(&Value::Bool(true)).unwrap());
    assert!(can_style(&Value::Nil).is_err());
    assert!(!is_tty(&Value::Bool(false)).unwrap());
    assert!(is_tty(&Value::Int(1)).is_err());
    assert!(line_ending(&Value::Str("\n".to_string())).is_ok());
    assert!(line_ending(&Value::Int(1)).is_err());
    assert!(default_line_ending() == "\n" || default_line_ending() == "\r\n");
}

#[test]
fn captures_chomp_and_choose_consoles() {
    assert_eq!(captured_text("a\n", None), "a");
    assert_eq!(captured_text("a\n", Some(true)), "a");
    assert_eq!(captured_text("a\n", Some(false)), "a\n");
    assert!(matches!(capture_into(true, &None), Ok(CaptureInto::Console)));
    assert!(matches!(
        capture_into(false, &Some(Value::Sym("CHUNK".to_string()))),
        Ok(CaptureInto::Sink(Framing::Chunk))
    ));
    assert_eq!(mute_output(true, ConsoleId(1), ConsoleId(2)).0, 1);
    assert_eq!(mute_output(false, ConsoleId(1), ConsoleId(2)).0, 2);
}

#[test]
fn captures_report_the_block_first() {
    let error = |m: &str| Err(Error::Runtime(m.to_string()));
    assert!(capture_outcome(Ok(()), Ok(())).is_ok());
    assert!(matches!(capture_outcome(error("a"), error("b")), Err(Error::Runtime(m)) if m == "a"));
    assert!(matches!(capture_outcome(error("a"), Ok(())), Err(Error::Runtime(m)) if m == "a"));
    assert!(matches!(capture_outcome(Ok(()), error("b")), Err(Error::Runtime(m)) if m == "b"));
    let strand = Strand::new();
    assert!(matches!(strand.capture_line_ending, Value::Nil));
    assert!(!strand.local.capture_can_style() && !strand.local.capturing());
}

#[test]
fn consoles_are_shown_for_debugging() {
    assert_eq!(SinkConsole::new(false, Framing::Line).debug(), "<sink console>");
    assert_eq!(SubConsole::new(false).debug(), "<sub console>");
}
