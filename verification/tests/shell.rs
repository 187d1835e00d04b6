use dolang_ext::error::Error;
use dolang_ext::shell::process::{
    bool_arg, bytes_arg, bytes_from_value, cd_plan, check_stream_end, connect_error,
    env_overrides, exec, exit, first_positional, override_invocation, program_args,
    program_override, read_size, start_in, stop_outcome, string_arg, visible_args,
    visible_program, windows_admin, CallArg, CdPlan, EnvArg, EnvEdit, EnvValue, Exec, ExecContext,
    Invocation, IoMode, ProgramArg, ProgramOverride, ProgramValue, StartIn, Stdin, StreamEnd,
    VfsSource,
};
use dolang_ext::shell::syntax::{
    classify_node, highlight_range, push_sanitized, token_style, Context, NodeClass, NodeKind,
    SemanticToken, Token,
};
use dolang_ext::shell::sys::{
    cpu_info, os_info, Architecture, OperatingSystem, OperatingSystemFamily, Target,
};
use dolang_ext::shell::term::{echo_line, preformat};
use dolang_ext::shell::time::{
    coerce_sleep_duration, datetime_to_system_time, DateTimeAnnex, DurationAnnex, Seconds, SystemTime, Wait,
};
use dolang_ext::shell::words::{join, quote, split};
use dolang_ext::term::render::{Arg, Item};
use dolang_ext::value::Value;

fn text(s: &str) -> Value {
    Value::Str(s.to_string())
}

fn token(token: Token, start: usize, end: usize) -> SemanticToken {
    SemanticToken {
        token,
        start,
        end,
        class: NodeClass::Normal,
        context: Context::Bare,
    }
}

#[test]
fn highlights_a_source_range_without_changing_plain_text() {
    let source = "let answer = 42";
    let tokens = vec![
        token(Token::Keyword, 0, 3),
        token(Token::Variable, 4, 10),
        token(Token::Operator, 11, 12),
        token(Token::Number, 13, 15),
    ];
    assert_eq!(
        highlight_range(source, &tokens, 0, source.len(), false),
        source
    );
    assert_eq!(
        highlight_range(source, &tokens, 0, source.len(), true),
        "\u{1b}[31mlet\u{1b}[0m answer \u{1b}[33m=\u{1b}[0m \u{1b}[36m42\u{1b}[0m"
    );
}

#[test]
fn highlighting_cuts_tokens_at_the_range() {
    let tokens = vec![token(Token::Keyword, 0, 3)];
    assert_eq!(
        highlight_range("let x", &tokens, 1, 5, true),
        "\u{1b}[31met\u{1b}[0m x"
    );
    let mut out = String::new();
    push_sanitized(&mut out, "a\u{7}b\tc\u{1b}");
    assert_eq!(out, "a\u{fffd}b\tc\u{fffd}");
}

#[test]
fn nodes_and_tokens_are_classified() {
    assert!(matches!(
        classify_node(Some(NodeKind::KeyParam)),
        NodeClass::Param
    ));
    assert!(matches!(classify_node(None), NodeClass::Normal));
    assert!(token_style(Token::Variable, NodeClass::Normal, Context::Bare).is_none());
    assert!(token_style(Token::Keyword, NodeClass::Normal, Context::Bare).is_some());
}

#[test]
fn times_count_nanoseconds() {
    let t = DateTimeAnnex::from_total_nanos(-1_500_000_000);
    assert_eq!(t.total_nanos(), -1_500_000_000);
    let system = t.to_system_time().unwrap();
    assert!(system.before_epoch);
    assert_eq!((system.secs, system.nanos), (1, 500_000_000));
    assert_eq!(DateTimeAnnex::from_system_time(system).unwrap().total_nanos(), -1_500_000_000);
    let later = SystemTime {
        before_epoch: false,
        secs: 3,
        nanos: 7,
    };
    assert_eq!(
        DateTimeAnnex::from_system_time(later).unwrap().total_nanos(),
        3_000_000_007
    );
}

#[test]
fn times_are_written_and_parsed() {
    let t = DateTimeAnnex::from_total_nanos(1_000_000_000_500_000_000);
    assert_eq!(t.rfc3339().unwrap(), "2001-09-09T01:46:40.5Z");
    let parsed = DateTimeAnnex::parse_rfc3339(&text("2001-09-09T03:46:40.5+02:00")).unwrap();
    assert_eq!(parsed.total_nanos(), t.total_nanos());
    assert!(DateTimeAnnex::parse_rfc3339(&text("yesterday")).is_err());
    assert!(DateTimeAnnex::parse_rfc3339(&Value::Nil).is_err());
    assert!(DateTimeAnnex::from_total_nanos(i128::MAX).rfc3339().is_err());
}

#[test]
fn unix_seconds_and_nanoseconds_add_up() {
    let t = DateTimeAnnex::from_unix(&Some(Seconds::Int(2)), &Some(Value::Int(5))).unwrap();
    assert_eq!(t.total_nanos(), 2_000_000_005);
    assert!(DateTimeAnnex::from_unix(&Some(Seconds::Other), &None).is_err());
}

#[test]
fn times_compare_and_subtract() {
    let a = DateTimeAnnex::from_total_nanos(10);
    let b = DateTimeAnnex::from_total_nanos(4);
    assert!(b.lt(Some(DateTimeAnnex::from_total_nanos(10))).unwrap());
    assert!(!a.eq_to(Some(DateTimeAnnex::from_total_nanos(4))).unwrap());
    assert!(a.lt(None).is_err());
    let d = a.minus(Some(b)).unwrap();
    assert_eq!(d.nanos(), 6);
}

#[test]
fn durations_are_written_exactly() {
    let write = |n: i128| {
        let mut out = String::new();
        DurationAnnex::from_total_nanos(n).write_seconds(&mut out);
        out
    };
    assert_eq!(write(1_500_000_000), "1.5s");
    assert_eq!(write(-1), "-0.000000001s");
    assert_eq!(write(3_000_000_000), "3s");
    let d = DurationAnnex::from_total_nanos(2_000_000_003);
    assert_eq!(d.to_std_duration().unwrap(), (2, 3));
    assert!(DurationAnnex::from_total_nanos(-1).to_std_duration().is_err());
    assert_eq!(coerce_sleep_duration(&Wait::Int(4)).unwrap(), (4, 0));
    assert!(coerce_sleep_duration(&Wait::Int(-4)).is_err());
    assert!(coerce_sleep_duration(&Wait::Other).is_err());
}

#[test]
fn words_are_quoted_joined_and_split() {
    assert_eq!(quote("a b").unwrap(), "'a b'");
    assert_eq!(quote("plain").unwrap(), "plain");
    assert!(quote("a\0b").is_err());
    let words = vec!["echo".to_string(), "a b".to_string()];
    let line = join(&words).unwrap();
    assert_eq!(line, "echo 'a b'");
    let mut iter = split(&text(&line)).unwrap();
    assert_eq!(iter.next().unwrap(), Some("echo".to_string()));
    assert_eq!(iter.next().unwrap(), Some("a b".to_string()));
    assert_eq!(iter.next().unwrap(), None);
    let mut open = split(&text("a 'b")).unwrap();
    assert_eq!(open.next().unwrap(), Some("a".to_string()));
    assert!(open.next().is_err());
    assert!(split(&Value::Nil).is_err());
}

#[test]
fn systems_have_names() {
    let mut target = Target {
        os: OperatingSystem::Linux,
        family: OperatingSystemFamily::Unix,
        arch: Architecture::X86_64,
        is_wine: None,
        logical_cpus: 8,
    };
    let os = os_info(&target).unwrap();
    assert_eq!((os.os, os.family), ("LINUX", "UNIX"));
    assert!(os.wine().is_err());
    let cpu = cpu_info(&target).unwrap();
    assert_eq!((cpu.arch, cpu.logical_count), ("X86_64", 8));
    target.os = OperatingSystem::Other;
    assert!(os_info(&target).is_err());
    target.arch = Architecture::Other;
    assert!(cpu_info(&target).is_err());
}

#[test]
fn exits_and_commands_are_planned() {
    assert_eq!(exit(&None).unwrap().code, 0);
    assert_eq!(exit(&Some(Value::Int(3))).unwrap().code, 3);
    assert!(exit(&Some(Value::Nil)).is_err());
    let exec = Exec::new(
        "ls".to_string(),
        vec!["-l".to_string()],
        "/tmp".to_string(),
        vec![("A".to_string(), Some("1".to_string())), ("B".to_string(), None)],
    );
    let plan = exec.command();
    assert_eq!(plan.program, "ls");
    assert_eq!(plan.args, ["-l"]);
    assert_eq!(plan.cwd, "/tmp");
    assert!(matches!(&plan.env[0], EnvEdit::Assign(k, v) if k == "A" && v == "1"));
    assert!(matches!(&plan.env[1], EnvEdit::Remove(k) if k == "B"));
}

#[test]
fn programs_are_replaced_by_programs_that_are_found() {
    let context = |direct, found: Option<&str>| ExecContext {
        direct,
        found: found.map(|f| f.to_string()),
        cwd: "/".to_string(),
        env: vec![],
    };
    let args = || vec![ProgramArg::Pos(Ok("-l".to_string()))];
    let plan = exec("ls", context(true, Some("/bin/ls")), &args()).unwrap().command();
    assert_eq!((plan.program.as_str(), plan.cwd.as_str()), ("/bin/ls", "/"));
    assert_eq!(plan.args, ["-l"]);
    match exec("ls", context(false, Some("/bin/ls")), &args()) {
        Err(Error::Unsupported(m)) => {
            assert_eq!(m, "shell.exec is only supported on the host VFS")
        }
        other => panic!("{other:?}"),
    }
    match exec("ls", context(true, None), &args()) {
        Err(Error::NotFound(m)) => assert_eq!(m, "executable not found: ls"),
        other => panic!("{other:?}"),
    }
}

#[test]
fn elevated_file_systems_are_planned() {
    let env = Some(EnvArg::Dict(vec![(text("A"), EnvValue::Nil)]));
    let plan = windows_admin(&None, &Some(Ok(false)), &env, &vec![]).unwrap();
    assert!(plan.elevate);
    assert!(matches!(plan.start_in, StartIn::Joined));
    assert_eq!(plan.env, [("A".to_string(), None)]);
    let plan = windows_admin(&Some(Value::Bool(false)), &None, &None, &vec![]).unwrap();
    assert!(!plan.elevate && plan.env.is_empty());
    match windows_admin(&Some(Value::Nil), &None, &None, &vec![]) {
        Err(Error::Type(m)) => assert_eq!(m, "elevate: expected bool"),
        other => panic!("{other:?}"),
    }
    match windows_admin(&None, &None, &Some(EnvArg::Other), &vec![]) {
        Err(Error::Type(m)) => assert_eq!(m, "env: expected Dict"),
        other => panic!("{other:?}"),
    }
}

#[test]
fn arguments_are_checked() {
    let args = vec![CallArg::Pos(Value::Int(1))];
    assert!(matches!(first_positional(&args), Ok(Value::Int(1))));
    assert!(first_positional(&vec![CallArg::Key("k".to_string())]).is_err());
    let args = vec![ProgramArg::Pos(Ok("a".to_string()))];
    assert_eq!(program_args(&args).unwrap(), ["a"]);
    match program_args(&vec![ProgramArg::Key("k".to_string())]) {
        Err(Error::UnexpectedKey(k)) => assert_eq!(k, "k"),
        other => panic!("{other:?}"),
    }
    assert!(bool_arg(&Value::Bool(true), "x").unwrap());
    assert!(bool_arg(&Value::Nil, "x").is_err());
    assert_eq!(string_arg(&text("s"), "x").unwrap(), "s");
    assert!(string_arg(&Value::Nil, "x").is_err());
    assert_eq!(bytes_arg(&Value::Bin(vec![1]), "x").unwrap(), [1]);
    assert_eq!(bytes_from_value(&text("s"), "x").unwrap(), b"s");
}

#[test]
fn input_modes_and_sizes() {
    let stdin = Stdin::new(IoMode::Chunk);
    assert!(stdin.lines().eq_to(&Some(Stdin::new(IoMode::Line))));
    assert!(!stdin.chunks().eq_to(&Some(Stdin::new(IoMode::Line))));
    assert!(!stdin.eq_to(&None));
    assert_eq!(read_size(&None).unwrap(), None);
    assert_eq!(read_size(&Some(Value::Int(9))).unwrap(), Some(9));
    assert!(read_size(&Some(Value::Int(-1))).is_err());
}

#[test]
fn connections_report_the_first_error() {
    let stop = || Err(Error::Runtime("stop".to_string()));
    match stop_outcome(stop(), Ok(())) {
        Err(Error::Runtime(m)) => assert_eq!(m, "stop"),
        other => panic!("{other:?}"),
    }
    assert!(stop_outcome(Ok(()), Ok(())).is_ok());
    let _ = connect_error(Error::NotSupported, Ok(()));
    let socket = VfsSource::Unix("/run/x".to_string());
    assert_eq!(socket.debug("\"/run/x\""), "<shell.Vfs socket: \"/run/x\">");
    assert_eq!(VfsSource::Stream.debug(""), "<shell.Vfs stream>");
    assert_eq!(VfsSource::WindowsAdmin.debug(""), "<shell.Vfs windows admin>");
    assert!(VfsSource::Stream.has_launcher());
    assert!(!VfsSource::WindowsAdmin.has_launcher());
    assert!(matches!(start_in(None), StartIn::Current));
    assert!(matches!(start_in(Some(true)), StartIn::Given));
    assert!(matches!(start_in(Some(false)), StartIn::Joined));
}

#[test]
fn environments_and_invocations_are_overridden() {
    let env = vec![("HOME".to_string(), "/root".to_string())];
    let pairs = vec![
        (text("A"), EnvValue::Text(Ok("1".to_string()))),
        (text("B"), EnvValue::Nil),
        (text("HOME"), EnvValue::Inherit),
    ];
    let edits = env_overrides(&pairs, &env).unwrap();
    assert_eq!(edits[0], ("A".to_string(), Some("1".to_string())));
    assert_eq!(edits[1], ("B".to_string(), None));
    assert_eq!(edits[2], ("HOME".to_string(), Some("/root".to_string())));
    assert!(env_overrides(&vec![(Value::Nil, EnvValue::Nil)], &env).is_err());
    let mut invocation = Invocation {
        args: None,
        program: None,
    };
    let started = vec!["a".to_string()];
    assert_eq!(visible_args(&invocation, &started), ["a"]);
    let previous = override_invocation(&mut invocation, Some(vec!["b".to_string()]), None);
    assert!(previous.args.is_none());
    assert_eq!(visible_args(&invocation, &started), ["b"]);
    assert!(matches!(
        program_override(&ProgramValue::Path("/x".to_string())),
        Ok(ProgramOverride::Path(p)) if p == "/x"
    ));
    assert!(program_override(&ProgramValue::Other).is_err());
}

#[test]
fn programs_see_what_overrides_them() {
    let mut invocation = Invocation {
        args: None,
        program: None,
    };
    assert!(visible_program(&invocation, &None).is_none());
    let started = Some(ProgramOverride::Path("/bin/x".to_string()));
    assert!(matches!(
        visible_program(&invocation, &started),
        Some(ProgramOverride::Path(p)) if p == "/bin/x"
    ));
    invocation.program = Some(ProgramOverride::Module("m".to_string()));
    assert!(matches!(
        visible_program(&invocation, &started),
        Some(ProgramOverride::Module(m)) if m == "m"
    ));
}

#[test]
fn changing_directory_reports_changes_or_runs() {
    let path = || Ok("/".to_string());
    let unread = || Err(Error::Type("expected a path".to_string()));
    let key = || CallArg::Key("k".to_string());
    assert!(matches!(cd_plan(&vec![], unread()), Ok(CdPlan::Report)));
    assert!(matches!(
        cd_plan(&vec![CallArg::Pos(text("/"))], path()),
        Ok(CdPlan::Change(p)) if p == "/"
    ));
    assert!(matches!(
        cd_plan(&vec![CallArg::Pos(text("/")), CallArg::Pos(Value::Other)], path()),
        Ok(CdPlan::During(p)) if p == "/"
    ));
    assert!(matches!(
        cd_plan(&vec![CallArg::Pos(text("/")), key()], path()),
        Err(Error::UnexpectedKey(k)) if k == "k"
    ));
    assert!(matches!(cd_plan(&vec![key()], unread()), Err(Error::UnexpectedKey(_))));
    assert!(matches!(
        cd_plan(&vec![CallArg::Pos(Value::Nil), key()], unread()),
        Err(Error::Type(m)) if m == "expected a path"
    ));
}

#[test]
fn covered_tokens_are_not_cut_at() {
    let source = "a\u{e9}b";
    let tokens = vec![token(Token::Number, 0, 4), token(Token::Number, 2, 3)];
    assert_eq!(highlight_range(source, &tokens, 0, 4, false), source);
    assert_eq!(highlight_range(source, &tokens, 0, 4, true), "\x1b[36ma\u{e9}b\x1b[0m");
}

#[test]
fn the_shell_ends_its_lines() {
    let item = Item::Plain {
        verbatim: Ok("a".to_string()),
        display: Ok("a".to_string()),
    };
    assert_eq!(echo_line(false, &vec![Arg::Pos(item)]).unwrap(), "a\n");
    assert_eq!(preformat(&text("\x1b[1mx")).unwrap().encode(), "\x1b[1mx\x1b[0m");
    match preformat(&Value::Nil) {
        Err(Error::Type(m)) => assert_eq!(m, "preformat: expected str"),
        other => panic!("{other:?}"),
    }
}

#[test]
fn streams_have_to_be_pipes() {
    assert!(check_stream_end(StreamEnd::Input, true).is_ok());
    assert!(matches!(
        check_stream_end(StreamEnd::Input, false),
        Err(Error::Type(m)) if m == "Vfs: stream iterator is not a pipe channel"
    ));
    assert!(matches!(
        check_stream_end(StreamEnd::Output, false),
        Err(Error::Type(m)) if m == "Vfs: stream sink is not a pipe channel"
    ));
}

#[test]
fn only_points_in_time_have_clock_readings() {
    let time = DateTimeAnnex::from_total_nanos(-1_500_000_000);
    let reading = datetime_to_system_time(&Some(time)).unwrap();
    assert_eq!((reading.before_epoch, reading.secs, reading.nanos), (true, 1, 500_000_000));
    assert!(matches!(
        datetime_to_system_time(&None),
        Err(Error::Type(m)) if m == "expected DateTime"
    ));
}
