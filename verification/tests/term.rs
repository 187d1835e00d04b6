use dolang_ext::error::Error;
use dolang_ext::term::cells::display_width;
use dolang_ext::term::filter::{filter_preformatted, Filter, FilterMode};
use dolang_ext::term::layout::{clip_encoding, encoded_width, sgr_at, TextLayout};
use dolang_ext::term::options::{attr, color, color_by_name, parse_style, StyleOptions};
use dolang_ext::term::render::{
    lay_out, render_args, write_spaces, Align, Arg, Fill, Item, Kind, ParamName, Segment, Spec,
};
use dolang_ext::term::sgr::{parse_sgr_value, SgrParser};
use dolang_ext::term::style::{index_to_code, write_sgr_op, Color, Sgr, Style, BOLD, DIM, UNDERLINE};
use dolang_ext::term::texts::{
    apply_style, create_preformatted_text, echo, make_style, make_text, preformat, preformatted_text, print,
    text_encoding, Applied, TextArg,
};
use dolang_ext::term::extension::TermExt;
use dolang_ext::value::Value;

fn filter(input: &str, mode: FilterMode) -> String {
    let mut filter = Filter::new(mode);
    filter.write_str(input);
    filter.finish()
}

fn bold() -> Style {
    let mut style = Style::default();
    style.attrs[BOLD] = true;
    style
}

fn options() -> StyleOptions {
    StyleOptions {
        fg: None,
        bg: None,
        bold: None,
        dim: None,
        italic: None,
        underline: None,
        blink: None,
        reverse: None,
        hidden: None,
        strikethrough: None,
    }
}

fn plain(s: &str) -> Item {
    Item::Plain {
        verbatim: Ok(s.to_string()),
        display: Ok(s.to_string()),
    }
}

fn spec() -> Spec {
    Spec {
        kind: None,
        sign: false,
        alt: false,
        fill: Fill::Char(' '),
        align: Align::Left,
        width: None,
        precision: None,
    }
}

#[test]
fn term_strips_controls_and_non_sgr_sequences() {
    assert_eq!(
        filter(
            "a\x07b\x1b[2Jc\x1b]0;title\x07d\u{009b}31me\u{009d}title\x07f\n\tg",
            FilterMode::Plain,
        ),
        "abcdef\n\tg"
    );
}

#[test]
fn term_ordinary_text_strips_sgr_sequences() {
    assert_eq!(
        filter("before\x1b[31mred\x1b[0mafter", FilterMode::Plain),
        "beforeredafter"
    );
}

#[test]
fn term_canonicalizes_sgr_and_resets_at_end() {
    assert_eq!(
        filter("\x1b[1;31mred\x1b[39m bold", FilterMode::Preformat),
        "\x1b[1m\x1b[31mred\x1b[39m bold\x1b[0m"
    );
}

#[test]
fn term_supports_indexed_and_rgb_colors() {
    assert_eq!(
        filter("\x1b[38;5;123ma\x1b[48;2;1;2;3mb", FilterMode::Preformat),
        "\x1b[38;5;123ma\x1b[48;2;1;2;3mb\x1b[0m"
    );
}

#[test]
fn term_child_resets_restore_parent_style() {
    let mut parent = Style::default();
    parent.attrs[BOLD] = true;
    assert_eq!(
        filter("\x1b[31mred\x1b[0mparent", FilterMode::Child(parent)),
        "\x1b[31mred\x1b[0m\x1b[1mparent"
    );
}

#[test]
fn term_scanner_preserves_state_across_writes() {
    let mut filter = Filter::new(FilterMode::Preformat);
    filter.write_str("a\x1b[");
    filter.write_str("31mred");
    assert_eq!(filter.finish(), "a\x1b[31mred\x1b[0m");
}

#[test]
fn filtering_twice_changes_nothing() {
    let once = filter("x\x1b[1my\x07\x1b[0mz", FilterMode::Plain);
    assert_eq!(once, "xyz");
    assert_eq!(filter(&once, FilterMode::Plain), once);
    let styled = filter_preformatted("\x1b[1;4mhi", true);
    assert_eq!(styled, "\x1b[1m\x1b[4mhi\x1b[0m");
    assert_eq!(filter_preformatted(&styled, true), styled);
    assert_eq!(filter_preformatted("\x1b[1;4mhi", false), "hi");
}

#[test]
fn pieces_filter_like_the_whole() {
    let input = "a\x1b[1;3xmb\x1b]2;t\x1b\\c\x1b[38;5;9md";
    let whole = filter(input, FilterMode::Preformat);
    for cut in 0..=input.len() {
        let mut pieces = Filter::new(FilterMode::Preformat);
        pieces.write_str(&input[..cut]);
        pieces.write_str(&input[cut..]);
        assert_eq!(pieces.finish(), whole, "{cut}");
    }
}

#[test]
fn codes_of_attributes() {
    let codes: Vec<u8> = (0..8).map(index_to_code).collect();
    assert_eq!(codes, [1, 2, 3, 4, 5, 7, 8, 9]);
}

#[test]
fn operations_change_styles() {
    let mut style = Style::default();
    style.apply(Sgr::AttrOn(BOLD));
    style.apply(Sgr::AttrOn(DIM));
    style.apply(Sgr::Fg(Some(Color::Ansi(1))));
    assert!(style.attrs[BOLD] && style.attrs[DIM]);
    style.apply(Sgr::IntensityOff);
    assert!(!style.attrs[BOLD] && !style.attrs[DIM]);
    assert_eq!(style.fg, Some(Color::Ansi(1)));
    style.apply(Sgr::Reset);
    assert!(style.is_plain());
    let mut out = String::new();
    write_sgr_op(&mut out, Sgr::Bg(Some(Color::Ansi(9))));
    write_sgr_op(&mut out, Sgr::AttrOff(UNDERLINE, 24));
    assert_eq!(out, "\x1b[101m\x1b[24m");
}

#[test]
fn written_styles_read_back() {
    let mut style = bold();
    style.fg = Some(Color::Rgb(1, 2, 3));
    style.bg = Some(Color::Indexed(200));
    let mut out = String::new();
    style.write(&mut out);
    assert_eq!(out, "\x1b[1;38;2;1;2;3;48;5;200m");
    let mut read = Style::default();
    let mut parser = SgrParser::new(&out[2..out.len() - 1]);
    while let Some(op) = parser.next() {
        read.apply(op);
    }
    assert_eq!(read, style);
}

#[test]
fn parameters_are_numbers() {
    assert_eq!(parse_sgr_value(""), Some(0));
    assert_eq!(parse_sgr_value("38"), Some(38));
    assert_eq!(parse_sgr_value("65535"), Some(65535));
    assert_eq!(parse_sgr_value("65536"), None);
    assert_eq!(parse_sgr_value("x"), None);
    let mut parser = SgrParser::new("");
    assert_eq!(parser.next(), Some(Sgr::Reset));
    assert_eq!(parser.next(), None);
    let mut parser = SgrParser::new("38;5;300;1");
    assert_eq!(parser.next(), Some(Sgr::AttrOn(4)));
}

#[test]
fn widths_count_cells() {
    assert_eq!(display_width("abc"), 3);
    assert_eq!(display_width("\u{4f60}\u{597d}"), 4);
    assert_eq!(display_width("e\u{301}"), 1);
    assert_eq!(encoded_width("\x1b[1mab\x1b[0m"), 2);
    assert_eq!(
        sgr_at(&"a\x1b[1mb".chars().collect(), 1),
        Some((5, "1".to_string()))
    );
    assert_eq!(sgr_at(&"abc".chars().collect(), 1), None);
}

#[test]
fn clipping_keeps_cells_and_styling() {
    assert_eq!(clip_encoding("\x1b[1mabc\x1b[0m", 2), "\x1b[1mab\x1b[0m");
    assert_eq!(clip_encoding("\u{4f60}\u{597d}", 3), "\u{4f60}");
    assert_eq!(clip_encoding("abc", 5), "abc");
    let layout = TextLayout::new("\x1b[31mxyz\x1b[0m");
    assert_eq!(layout.width(), 3);
    assert_eq!(layout.prefix(1), "\x1b[31mx\x1b[0m");
    assert_eq!(layout.prefix(0), "");
}

#[test]
fn colors_by_name_number_and_components() {
    assert_eq!(color_by_name("BRIGHT_RED"), Some(Color::Ansi(9)));
    assert_eq!(color_by_name("red"), None);
    let none = color(&None, "fg", Some(Color::Ansi(2)));
    assert_eq!(none.unwrap(), Some(Color::Ansi(2)));
    let inherit = color(
        &Some(Value::Sym("INHERIT".to_string())),
        "fg",
        Some(Color::Ansi(2)),
    );
    assert_eq!(inherit.unwrap(), None);
    let index = color(&Some(Value::Int(255)), "fg", None);
    assert_eq!(index.unwrap(), Some(Color::Indexed(255)));
    let rgb = Value::Array(vec![Value::Int(1), Value::Int(2), Value::Int(3)]);
    assert_eq!(color(&Some(rgb), "fg", None).unwrap(), Some(Color::Rgb(1, 2, 3)));
    let messages = [
        (Value::Sym("PINK".to_string()), "fg: unknown color"),
        (Value::Int(256), "fg: color index out of range"),
        (Value::Tuple(vec![]), "fg: expected 3 color components"),
    ];
    for (value, message) in messages {
        match color(&Some(value), "fg", None) {
            Err(Error::Value(m)) => assert_eq!(m, message),
            other => panic!("{other:?}"),
        }
    }
    let bad = Value::Tuple(vec![Value::Int(1), Value::Nil, Value::Int(3)]);
    match color(&Some(bad), "bg", None) {
        Err(Error::Type(m)) => assert_eq!(m, "bg: RGB components must be int"),
        other => panic!("{other:?}"),
    }
    let large = Value::Tuple(vec![Value::Int(1), Value::Int(-1), Value::Int(3)]);
    match color(&Some(large), "bg", None) {
        Err(Error::Value(m)) => assert_eq!(m, "bg: RGB component out of range"),
        other => panic!("{other:?}"),
    }
    match color(&Some(Value::Nil), "bg", None) {
        Err(Error::Type(m)) => assert_eq!(m, "bg: expected Sym, int, array, or Tuple"),
        other => panic!("{other:?}"),
    }
}

#[test]
fn attributes_are_true_or_inherited() {
    assert!(attr(&None, "bold", true).unwrap());
    assert!(attr(&Some(Value::Bool(true)), "bold", false).unwrap());
    assert!(!attr(&Some(Value::Sym("INHERIT".to_string())), "bold", true).unwrap());
    match attr(&Some(Value::Bool(false)), "bold", true) {
        Err(Error::Value(m)) => assert_eq!(m, "bold: expected true or :INHERIT:"),
        other => panic!("{other:?}"),
    }
    let style = parse_style(&options(), bold()).unwrap();
    assert_eq!(style, bold());
}

#[test]
fn layout_pads_and_clips() {
    let mut s = spec();
    s.width = Some(5);
    assert_eq!(lay_out(&s, "ab"), "ab   ");
    s.align = Align::Right;
    assert_eq!(lay_out(&s, "ab"), "   ab");
    s.align = Align::Center;
    s.fill = Fill::Char('.');
    assert_eq!(lay_out(&s, "ab"), ".ab..");
    s.precision = Some(1);
    s.width = None;
    assert_eq!(lay_out(&s, "ab"), "a");
    let mut out = String::new();
    write_spaces(&mut out, 3);
    assert_eq!(out, "   ");
}

#[test]
fn arguments_render_in_their_style() {
    let args = vec![Arg::Pos(plain("a\x1b[31mb"))];
    assert_eq!(render_args(bold(), true, &args).unwrap(), "\x1b[1mab\x1b[0m");
    assert_eq!(render_args(bold(), false, &args).unwrap(), "ab");
    let nested = vec![Arg::Pos(Item::Text("\x1b[31mx\x1b[0my".to_string()))];
    assert_eq!(
        render_args(bold(), true, &nested).unwrap(),
        "\x1b[1m\x1b[31mx\x1b[0m\x1b[1my\x1b[0m"
    );
    let keyed = vec![Arg::Key("k".to_string(), plain("v"))];
    match render_args(bold(), true, &keyed) {
        Err(Error::UnexpectedKey(k)) => assert_eq!(k, "k"),
        other => panic!("{other:?}"),
    }
    let missing = vec![Arg::Pos(Item::Fmt(vec![Segment::Param(ParamName {
        position: None,
        text: "name".to_string(),
    })]))];
    assert!(render_args(bold(), true, &missing).is_err());
}

#[test]
fn bound_items_are_laid_out() {
    let mut s = spec();
    s.kind = Some(Kind::Str);
    s.width = Some(4);
    s.align = Align::Right;
    let item = Item::Bound {
        spec: s,
        value: Box::new(Item::Text("\x1b[1mab\x1b[0m".to_string())),
        verbatim: Ok("ab".to_string()),
        display: Ok("ab".to_string()),
    };
    let text = render_args(Style::default(), true, &vec![Arg::Pos(item)]).unwrap();
    assert_eq!(text, "  \x1b[1mab\x1b[0m");
}

#[test]
fn texts_show_indent_clip_and_join() {
    let text = create_preformatted_text("\x1b[1mone\ntwo\x1b[0m");
    assert_eq!(text.display(), "one\ntwo");
    assert_eq!(text.encode(), "\x1b[1mone\ntwo\x1b[0m");
    assert_eq!(text.debug(), "<term.Text \"\\u{1b}[1mone\\ntwo\\u{1b}[0m\">");
    assert_eq!(text.indent(2).encode(), "  \x1b[1mone\n  two\x1b[0m");
    assert_eq!(text.indent(0).encode(), text.encode());
    let word = preformatted_text("abcdef");
    assert_eq!(word.width(), 6);
    assert_eq!(word.clip(4, &None).unwrap().encode(), "abcd");
    let suffix = Some(TextArg::Str("..".to_string()));
    assert_eq!(word.clip(4, &suffix).unwrap().encode(), "ab..");
    let sep = preformatted_text(", ");
    assert_eq!(sep.join(&vec![plain("a"), plain("b")]).unwrap().encode(), "a, b");
    assert_eq!(
        text_encoding(&TextArg::Str("a\x07b".to_string())).unwrap(),
        "ab"
    );
    assert!(text_encoding(&TextArg::Other).is_err());
    let marked = preformat(&Value::Str("\x1b[4mu".to_string())).unwrap();
    assert_eq!(marked.encode(), "\x1b[4mu\x1b[0m");
    match preformat(&Value::Int(1)) {
        Err(Error::Type(m)) => assert_eq!(m, "preformat: expected Str"),
        other => panic!("{other:?}"),
    }
}

#[test]
fn styles_make_text_and_styles() {
    let mut o = options();
    o.bold = Some(Value::Bool(true));
    match apply_style(&o, Style::default(), &vec![]).unwrap() {
        Applied::Style(style) => assert_eq!(style, bold()),
        other => panic!("{other:?}"),
    }
    match apply_style(&o, Style::default(), &vec![Arg::Pos(plain("x"))]).unwrap() {
        Applied::Text(text) => assert_eq!(text.encode(), "\x1b[1mx\x1b[0m"),
        other => panic!("{other:?}"),
    }
    assert_eq!(make_style(&o, Style::default(), &vec![]).unwrap(), bold());
    match make_style(&o, Style::default(), &vec![Arg::Pos(plain("x"))]) {
        Err(Error::UnexpectedPositional(i)) => assert_eq!(i, 0),
        other => panic!("{other:?}"),
    }
    let text = make_text(&options(), Style::default(), &vec![Arg::Pos(plain("x"))]).unwrap();
    assert_eq!(text.encode(), "x");
    assert_eq!(print(&o, false, &vec![Arg::Pos(plain("x"))]).unwrap(), "x");
    assert_eq!(
        print(&o, true, &vec![Arg::Pos(plain("x"))]).unwrap(),
        "\x1b[1mx\x1b[0m"
    );
}

#[test]
fn echo_separates_and_names() {
    let args = vec![
        Arg::Pos(plain("a")),
        Arg::Key("k".to_string(), plain("v")),
    ];
    assert_eq!(echo(true, &args).unwrap(), "a k: v");
    assert_eq!(echo(true, &vec![]).unwrap(), "");
}

#[test]
fn the_terminal_extension_is_named() {
    assert_eq!(TermExt.name(), "term");
    assert_eq!(TermExt.description(), "Do Terminal Extension");
}

#[test]
fn printable_ascii_takes_a_cell_each() {
    let all: String = (' '..='~').collect();
    assert_eq!(display_width(&all), 95);
    assert_eq!(encoded_width(&all), 95);
    assert_eq!(encoded_width("\x1b[1;38;5;200mabc"), encoded_width("abc"));
    assert_eq!(encoded_width("\x1b[31mabc\x1b[0m"), 3);
}

#[test]
fn no_sequence_starts_past_the_end() {
    let chars: Vec<char> = "\x1b[1m".chars().collect();
    assert_eq!(sgr_at(&chars, 0), Some((4, "1".to_string())));
    assert_eq!(sgr_at(&chars, 4), None);
    assert_eq!(sgr_at(&chars, 5), None);
    assert_eq!(sgr_at(&chars, usize::MAX), None);
}
