//! Syntax highlighting of a range of source text.

use vstd::prelude::*;
use vstd::utf8::{decode_utf8, encode_utf8, is_char_boundary, valid_utf8};
use anstyle::{AnsiColor, Effects, Style};
use crate::text::{control, is_control};

verus! {

broadcast use vstd::string::group_string_axioms;

/// What a piece of source text is.
#[derive(Clone, Copy, Debug, PartialEq, Eq, Structural)]
pub enum Token {
    Comment,
    Keyword,
    Literal,
    Operator,
    Delim,
    Escape,
    Key,
    StringDelim,
    ModuleItem,
    Number,
    Constant,
    ModuleName,
    Field,
    Method,
    Sigil,
    Variable,
}

/// Where a token stands.
#[derive(Clone, Copy, Debug, PartialEq, Eq, Structural)]
pub enum Context {
    Bare,
    Call,
}

/// What a token refers to, as far as coloring cares.
#[derive(Clone, Copy, Debug, PartialEq, Eq, Structural)]
pub enum NodeClass {
    Normal,
    Param,
    Function,
    Module,
    Prelude,
    PreludeModule,
}

/// The kinds of nodes that a token can name.
#[derive(Clone, Copy, Debug, PartialEq, Eq, Structural)]
pub enum NodeKind {
    PositionalParam,
    KeyParam,
    RestParam,
    SelfParam,
    Class,
    Function,
    Method,
    SpecialMethod,
    ImportModule,
    PreludeItem,
    PreludeModule,
    Other,
}

/// What a token refers to that names a node of the kind `kind`, if any.
pub open spec fn class_of(kind: Option<NodeKind>) -> NodeClass {
    match kind {
        Some(NodeKind::PositionalParam) => NodeClass::Param,
        Some(NodeKind::KeyParam) => NodeClass::Param,
        Some(NodeKind::RestParam) => NodeClass::Param,
        Some(NodeKind::SelfParam) => NodeClass::Param,
        Some(NodeKind::Class) => NodeClass::Function,
        Some(NodeKind::Function) => NodeClass::Function,
        Some(NodeKind::Method) => NodeClass::Function,
        Some(NodeKind::SpecialMethod) => NodeClass::Function,
        Some(NodeKind::ImportModule) => NodeClass::Module,
        Some(NodeKind::PreludeItem) => NodeClass::Prelude,
        Some(NodeKind::PreludeModule) => NodeClass::PreludeModule,
        _ => NodeClass::Normal,
    }
}

/// What a token refers to that names a node of the kind `kind`, if any.
pub fn classify_node(kind: Option<NodeKind>) -> (r: NodeClass)
    ensures
        r == class_of(kind),
{
    match kind {
        Some(NodeKind::PositionalParam) => NodeClass::Param,
        Some(NodeKind::KeyParam) => NodeClass::Param,
        Some(NodeKind::RestParam) => NodeClass::Param,
        Some(NodeKind::SelfParam) => NodeClass::Param,
        Some(NodeKind::Class) => NodeClass::Function,
        Some(NodeKind::Function) => NodeClass::Function,
        Some(NodeKind::Method) => NodeClass::Function,
        Some(NodeKind::SpecialMethod) => NodeClass::Function,
        Some(NodeKind::ImportModule) => NodeClass::Module,
        Some(NodeKind::PreludeItem) => NodeClass::Prelude,
        Some(NodeKind::PreludeModule) => NodeClass::PreludeModule,
        _ => NodeClass::Normal,
    }
}

/// The colors that tokens have.
#[derive(Clone, Copy, Debug, PartialEq, Eq, Structural)]
pub enum Hue {
    Red,
    Green,
    Yellow,
    Blue,
    Magenta,
    Cyan,
    White,
}

/// The appearance of a token: a color, dimmed or not.
#[derive(Clone, Copy, Debug, PartialEq, Eq, Structural)]
pub struct Look {
    pub hue: Hue,
    pub dimmed: bool,
}

/// The color of a token; an ordinary variable has none.
pub open spec fn look_of(token: Token, class: NodeClass, context: Context) -> Option<Look> {
    let hue = match token {
        Token::Comment => Some(Hue::White),
        Token::Keyword => Some(Hue::Red),
        Token::Literal => Some(Hue::Green),
        Token::Operator => Some(Hue::Yellow),
        Token::Delim => Some(Hue::Yellow),
        Token::Escape => Some(Hue::Yellow),
        Token::Key => Some(Hue::Yellow),
        Token::StringDelim => Some(Hue::Cyan),
        Token::ModuleItem => Some(Hue::Cyan),
        Token::Number => Some(Hue::Cyan),
        Token::Constant => Some(Hue::Magenta),
        Token::ModuleName => Some(Hue::Magenta),
        Token::Field => if context == Context::Call {
            Some(Hue::Blue)
        } else {
            Some(Hue::Cyan)
        },
        Token::Method => Some(Hue::Blue),
        Token::Sigil => Some(Hue::White),
        Token::Variable => if context == Context::Call {
            Some(Hue::Blue)
        } else {
            match class {
                NodeClass::Function => Some(Hue::Blue),
                NodeClass::Module => Some(Hue::Magenta),
                NodeClass::Param => Some(Hue::Magenta),
                NodeClass::PreludeModule => Some(Hue::Magenta),
                NodeClass::Prelude => Some(Hue::Cyan),
                NodeClass::Normal => None,
            }
        },
    };
    match hue {
        Some(hue) => Some(Look { hue, dimmed: token == Token::Comment }),
        None => None,
    }
}

/// The color of a token.
pub fn token_style(token: Token, class: NodeClass, context: Context) -> (r: Option<Look>)
    ensures
        r == look_of(token, class, context),
{
    let hue = match token {
        Token::Comment => return Some(Look { hue: Hue::White, dimmed: true }),
        Token::Keyword => Hue::Red,
        Token::Literal => Hue::Green,
        Token::Operator => Hue::Yellow,
        Token::Delim => Hue::Yellow,
        Token::Escape => Hue::Yellow,
        Token::Key => Hue::Yellow,
        Token::StringDelim => Hue::Cyan,
        Token::ModuleItem => Hue::Cyan,
        Token::Number => Hue::Cyan,
        Token::Constant => Hue::Magenta,
        Token::ModuleName => Hue::Magenta,
        Token::Field => match context {
            Context::Call => Hue::Blue,
            Context::Bare => Hue::Cyan,
        },
        Token::Method => Hue::Blue,
        Token::Sigil => Hue::White,
        Token::Variable => match context {
            Context::Call => Hue::Blue,
            Context::Bare => match class {
                NodeClass::Function => Hue::Blue,
                NodeClass::Module => Hue::Magenta,
                NodeClass::Param => Hue::Magenta,
                NodeClass::PreludeModule => Hue::Magenta,
                NodeClass::Prelude => Hue::Cyan,
                NodeClass::Normal => return None,
            },
        },
    };
    Some(Look { hue, dimmed: false })
}

/// The sequence that selects a color.
pub open spec fn hue_sequence(hue: Hue) -> Seq<char> {
    match hue {
        Hue::Red => "\x1b[31m"@,
        Hue::Green => "\x1b[32m"@,
        Hue::Yellow => "\x1b[33m"@,
        Hue::Blue => "\x1b[34m"@,
        Hue::Magenta => "\x1b[35m"@,
        Hue::Cyan => "\x1b[36m"@,
        Hue::White => "\x1b[37m"@,
    }
}

/// What selects an appearance: the dimming, then the color.
pub open spec fn look_sequence(look: Look) -> Seq<char> {
    (if look.dimmed {
        "\x1b[2m"@
    } else {
        Seq::empty()
    }) + hue_sequence(look.hue)
}

/// `anstyle::Style` displayed, and its `render_reset`: a style with a
/// foreground color and perhaps dimming writes its effects before its color,
/// each as a sequence of its own, and is reset by a single sequence.
#[verifier::external_body]
fn render_style(hue: Hue, dimmed: bool) -> (r: (String, String))
    ensures
        r.0@ == look_sequence(Look { hue, dimmed }),
        r.1@ == "\x1b[0m"@,
{
    let color = match hue {
        Hue::Red => AnsiColor::Red,
        Hue::Green => AnsiColor::Green,
        Hue::Yellow => AnsiColor::Yellow,
        Hue::Blue => AnsiColor::Blue,
        Hue::Magenta => AnsiColor::Magenta,
        Hue::Cyan => AnsiColor::Cyan,
        Hue::White => AnsiColor::White,
    };
    let effects = Effects::new().set(Effects::DIMMED, dimmed);
    let style = Style::new().fg_color(Some(color.into())).effects(effects);
    (style.to_string(), style.render_reset().to_string())
}

/// A character made safe for the terminal: control characters but tabs and
/// line endings are replaced.
pub open spec fn safe(c: char) -> char {
    if c == '\t' || c == '\n' || c == '\r' || !control(c) {
        c
    } else {
        '\u{fffd}'
    }
}

/// Text made safe for the terminal.
pub open spec fn safe_text(s: Seq<char>) -> Seq<char> {
    Seq::new(s.len(), |i: int| safe(s[i]))
}

/// The text in a range of bytes.
pub open spec fn slice(source: Seq<char>, from: int, to: int) -> Seq<char> {
    decode_utf8(encode_utf8(source).subrange(from, to))
}

/// A token with its place in the source, in bytes, and what it refers to.
#[derive(Clone, Copy, Debug, PartialEq, Eq, Structural)]
pub struct SemanticToken {
    pub token: Token,
    pub start: usize,
    pub end: usize,
    pub class: NodeClass,
    pub context: Context,
}

/// Whether `a` comes strictly before `b`: it starts earlier, or it starts at
/// the same place and reaches further.
pub open spec fn precedes(a: SemanticToken, b: SemanticToken) -> bool {
    a.start < b.start || a.start == b.start && a.end > b.end
}

/// Where `t` goes among `sorted`: after everything that it does not precede.
pub open spec fn place(sorted: Seq<SemanticToken>, t: SemanticToken) -> int
    decreases sorted.len(),
{
    if sorted.len() > 0 && precedes(t, sorted.last()) {
        place(sorted.drop_last(), t)
    } else {
        sorted.len() as int
    }
}

/// The tokens in order; tokens that neither precedes stay as they were.
pub open spec fn ordered(tokens: Seq<SemanticToken>) -> Seq<SemanticToken>
    decreases tokens.len(),
{
    if tokens.len() == 0 {
        Seq::empty()
    } else {
        let before = ordered(tokens.drop_last());
        before.insert(place(before, tokens.last()), tokens.last())
    }
}

/// A token's text in color.
pub open spec fn styled(text: Seq<char>, look: Option<Look>, color: bool) -> Seq<char> {
    match look {
        Some(look) if color => look_sequence(look) + safe_text(text) + "\x1b[0m"@,
        _ => safe_text(text),
    }
}

/// Where the visible part of a token starts, when everything before `done`
/// has been written.
pub open spec fn visible_start(t: SemanticToken, from: int, done: int) -> int {
    let s = if t.start > from { t.start as int } else { from };
    if s > done { s } else { done }
}

/// Where the visible part of a token ends.
pub open spec fn visible_end(t: SemanticToken, to: int) -> int {
    if t.end < to { t.end as int } else { to }
}

/// The highlighted text of the first `n` tokens in order, and how far it
/// reaches. What earlier tokens cover is not written again.
pub open spec fn highlighted(
    source: Seq<char>,
    sorted: Seq<SemanticToken>,
    n: nat,
    from: int,
    to: int,
    color: bool,
) -> (Seq<char>, int)
    decreases n,
{
    if n == 0 {
        (Seq::empty(), from)
    } else {
        let (out, done) = highlighted(source, sorted, (n - 1) as nat, from, to, color);
        let t = sorted[n - 1];
        let start = visible_start(t, from, done);
        let end = visible_end(t, to);
        if end <= start {
            (out, done)
        } else {
            let gap = if start > done {
                safe_text(slice(source, done, start))
            } else {
                Seq::empty()
            };
            (
                out + gap + styled(
                    slice(source, start, end),
                    look_of(t.token, t.class, t.context),
                    color,
                ),
                end,
            )
        }
    }
}

/// A range of the source, highlighted.
pub open spec fn highlighted_range(
    source: Seq<char>,
    tokens: Seq<SemanticToken>,
    from: int,
    to: int,
    color: bool,
) -> Seq<char> {
    let sorted = ordered(tokens);
    let (out, done) = highlighted(source, sorted, sorted.len(), from, to, color);
    if done < to {
        out + safe_text(slice(source, done, to))
    } else {
        out
    }
}

/// Whether `at` is a place where the source can be cut.
pub open spec fn cuttable(source: Seq<char>, at: int) -> bool {
    0 <= at <= encode_utf8(source).len() && is_char_boundary(encode_utf8(source), at)
}

/// How far the highlighted text of the first `n` tokens in order reaches.
pub open spec fn reached(sorted: Seq<SemanticToken>, n: nat, from: int, to: int) -> int
    decreases n,
{
    if n == 0 {
        from
    } else {
        let done = reached(sorted, (n - 1) as nat, from, to);
        let t = sorted[n - 1];
        if visible_end(t, to) <= visible_start(t, from, done) {
            done
        } else {
            visible_end(t, to)
        }
    }
}

/// Whether the source can be cut at both ends of the visible part of the
/// token `n`, if it has one.
pub open spec fn cuts_token(
    source: Seq<char>,
    sorted: Seq<SemanticToken>,
    n: int,
    from: int,
    to: int,
) -> bool {
    let start = visible_start(sorted[n], from, reached(sorted, n as nat, from, to));
    let end = visible_end(sorted[n], to);
    start < end ==> cuttable(source, start) && cuttable(source, end)
}

/// Whether the source can be cut wherever highlighting the range cuts it: at
/// the ends of the range, and at those of the tokens that are visible in it.
pub open spec fn cuts(source: Seq<char>, tokens: Seq<SemanticToken>, from: int, to: int) -> bool {
    let sorted = ordered(tokens);
    from < to ==> {
        &&& cuttable(source, from)
        &&& cuttable(source, to)
        &&& forall|n: int|
            0 <= n < sorted.len() ==> #[trigger] cuts_token(source, sorted, n, from, to)
    }
}

proof fn lemma_reached(
    source: Seq<char>,
    sorted: Seq<SemanticToken>,
    n: nat,
    from: int,
    to: int,
    color: bool,
)
    ensures
        highlighted(source, sorted, n, from, to, color).1 == reached(sorted, n, from, to),
    decreases n,
{
    if n > 0 {
        lemma_reached(source, sorted, (n - 1) as nat, from, to, color);
    }
}

/// Appends text made safe for the terminal.
pub fn push_sanitized(out: &mut String, value: &str)
    ensures
        final(out)@ == old(out)@ + safe_text(value@),
{
    assert(out@ =~= old(out)@ + safe_text(value@.take(0)));
    for c in iter: value.chars()
        invariant
            iter.seq() == value@,
            out@ == old(out)@ + safe_text(value@.take(iter.index())),
    {
        let ghost before = out@;
        if c == '\t' || c == '\n' || c == '\r' || !is_control(c) {
            out.push(c);
        } else {
            out.push('\u{fffd}');
        }
        proof {
            let k = iter.index();
            assert(safe_text(value@.take(k + 1)) =~= safe_text(value@.take(k)).push(safe(c)));
            assert(out@ =~= old(out)@ + safe_text(value@.take(k + 1)));
        }
    }
    assert(value@.take(value@.len() as int) =~= value@);
}

/// Appends text in color.
fn push_styled(out: &mut String, value: &str, look: Option<Look>, color: bool)
    ensures
        final(out)@ == old(out)@ + styled(value@, look, color),
{
    if color {
        if let Some(look) = look {
            let (select, reset) = render_style(look.hue, look.dimmed);
            out.append(select.as_str());
            push_sanitized(out, value);
            out.append(reset.as_str());
            assert(out@ =~= old(out)@ + styled(value@, Some(look), color));
            return;
        }
    }
    push_sanitized(out, value);
}

/// A cut of text is a cut of its beginning.
proof fn lemma_cut_of_prefix(bytes: Seq<u8>, at: int, to: int)
    requires
        valid_utf8(bytes),
        0 <= at <= to <= bytes.len(),
        is_char_boundary(bytes, at),
        is_char_boundary(bytes, to),
    ensures
        valid_utf8(bytes.subrange(0, to)),
        is_char_boundary(bytes.subrange(0, to), at),
{
    vstd::utf8::valid_utf8_split(bytes, to);
    let head = bytes.subrange(0, to);
    vstd::utf8::is_char_boundary_start_end_of_seq(head);
    if at < to {
        vstd::utf8::is_char_boundary_iff_not_is_continuation_byte(bytes, at);
        vstd::utf8::is_char_boundary_iff_not_is_continuation_byte(head, at);
        assert(head[at] == bytes[at]);
    }
}

/// The text in a range of bytes.
fn slice_of(source: &str, from: usize, to: usize) -> (r: &str)
    requires
        from <= to,
        cuttable(source@, from as int),
        cuttable(source@, to as int),
    ensures
        r@ == slice(source@, from as int, to as int),
{
    let ghost bytes = encode_utf8(source@);
    proof {
        vstd::utf8::encode_utf8_valid_utf8(source@);
        lemma_cut_of_prefix(bytes, from as int, to as int);
    }
    let (head, _) = source.split_at(to);
    let (_, r) = head.split_at(from);
    proof {
        vstd::utf8::encode_utf8_decode_utf8(r@);
        assert(bytes.subrange(0, to as int).subrange(from as int, to as int) =~= bytes.subrange(
            from as int,
            to as int,
        ));
    }
    r
}

/// Ordering keeps exactly the tokens there were.
pub proof fn ordering_keeps_tokens(tokens: Seq<SemanticToken>)
    ensures
        ordered(tokens).to_multiset() == tokens.to_multiset(),
        ordered(tokens).len() == tokens.len(),
    decreases tokens.len(),
{
    broadcast use vstd::seq_lib::group_to_multiset_ensures;

    if tokens.len() == 0 {
        assert(tokens =~= Seq::<SemanticToken>::empty());
    } else {
        ordering_keeps_tokens(tokens.drop_last());
        let before = ordered(tokens.drop_last());
        lemma_place(before, tokens.last());
        vstd::seq_lib::to_multiset_insert(before, place(before, tokens.last()), tokens.last());
        assert(tokens =~= tokens.drop_last().push(tokens.last()));
    }
}

proof fn lemma_place(sorted: Seq<SemanticToken>, t: SemanticToken)
    ensures
        0 <= place(sorted, t) <= sorted.len(),
        forall|i: int| place(sorted, t) <= i < sorted.len() ==> precedes(t, #[trigger] sorted[i]),
        place(sorted, t) > 0 ==> !precedes(t, sorted[place(sorted, t) - 1]),
    decreases sorted.len(),
{
    if sorted.len() > 0 && precedes(t, sorted.last()) {
        lemma_place(sorted.drop_last(), t);
        assert forall|i: int| place(sorted, t) <= i < sorted.len() implies precedes(
            t,
            #[trigger] sorted[i],
        ) by {
            if i < sorted.len() - 1 {
                assert(sorted[i] == sorted.drop_last()[i]);
            }
        }
    }
}

/// Ordered tokens follow one another: none precedes an earlier one.
pub proof fn ordering_orders(tokens: Seq<SemanticToken>)
    ensures
        forall|i: int, j: int|
            0 <= i < j < ordered(tokens).len() ==> !precedes(
                #[trigger] ordered(tokens)[j],
                #[trigger] ordered(tokens)[i],
            ),
    decreases tokens.len(),
{
    if tokens.len() > 0 {
        ordering_orders(tokens.drop_last());
        let before = ordered(tokens.drop_last());
        let t = tokens.last();
        let p = place(before, t);
        lemma_place(before, t);
        let all = ordered(tokens);
        assert forall|i: int, j: int| 0 <= i < j < all.len() implies !precedes(
            #[trigger] all[j],
            #[trigger] all[i],
        ) by {
            let bi = if i < p { i } else { i - 1 };
            let bj = if j < p { j } else { j - 1 };
            if i != p && j != p {
                assert(all[i] == before[bi]);
                assert(all[j] == before[bj]);
            } else if i == p {
                assert(all[j] == before[bj]);
                assert(precedes(t, before[bj]));
            } else {
                assert(all[i] == before[i]);
                if i < p - 1 {
                    assert(!precedes(before[p - 1], before[i]));
                }
            }
        }
    }
}

/// The tokens in order.
fn sorted_tokens(tokens: &Vec<SemanticToken>) -> (sorted: Vec<SemanticToken>)
    ensures
        sorted@ == ordered(tokens@),
{
    let mut sorted: Vec<SemanticToken> = Vec::new();
    let mut i: usize = 0;
    while i < tokens.len()
        invariant
            i <= tokens@.len(),
            sorted@ == ordered(tokens@.take(i as int)),
        decreases tokens@.len() - i,
    {
        let t = tokens[i];
        let ghost before = sorted@;
        let mut p: usize = sorted.len();
        assert(before.take(p as int) =~= before);
        while p > 0
            invariant_except_break
                p <= before.len(),
                place(before, t) == place(before.take(p as int), t),
            invariant
                sorted@ == before,
                p <= before.len(),
            ensures
                p == place(before, t),
            decreases p,
        {
            let last = sorted[p - 1];
            proof {
                assert(before.take(p as int).last() == last);
                assert(before.take(p as int).drop_last() =~= before.take(p - 1));
            }
            if t.start < last.start || t.start == last.start && t.end > last.end {
                p = p - 1;
            } else {
                break;
            }
        }
        sorted.insert(p, t);
        proof {
            assert(tokens@.take(i + 1).drop_last() =~= tokens@.take(i as int));
        }
        i = i + 1;
    }
    assert(tokens@.take(i as int) =~= tokens@);
    sorted
}

/// A range of the source, highlighted.
pub fn highlight_range(
    source: &str,
    tokens: &Vec<SemanticToken>,
    from: usize,
    to: usize,
    color: bool,
) -> (out: String)
    requires
        cuts(source@, tokens@, from as int, to as int),
    ensures
        out@ == highlighted_range(source@, tokens@, from as int, to as int, color),
{
    let sorted = sorted_tokens(tokens);
    let mut out = String::new();
    let mut done: usize = from;
    let mut i: usize = 0;
    while i < sorted.len()
        invariant
            i <= sorted@.len(),
            sorted@ == ordered(tokens@),
            cuts(source@, tokens@, from as int, to as int),
            (out@, done as int) == highlighted(
                source@,
                sorted@,
                i as nat,
                from as int,
                to as int,
                color,
            ),
            from <= done,
            from < to ==> done <= to && cuttable(source@, done as int),
            from >= to ==> done == from,
        decreases sorted@.len() - i,
    {
        let t = sorted[i];
        let mut start: usize = t.start;
        if start < from {
            start = from;
        }
        if start < done {
            start = done;
        }
        let end: usize = if t.end < to {
            t.end
        } else {
            to
        };
        if end > start {
            proof {
                lemma_reached(source@, sorted@, i as nat, from as int, to as int, color);
                assert(cuts_token(source@, sorted@, i as int, from as int, to as int));
            }
            let ghost before = out@;
            if start > done {
                push_sanitized(&mut out, slice_of(source, done, start));
            } else {
                assert(out@ =~= before + Seq::<char>::empty());
            }
            push_styled(
                &mut out,
                slice_of(source, start, end),
                token_style(t.token, t.class, t.context),
                color,
            );
            done = end;
        }
        i = i + 1;
    }
    if done < to {
        push_sanitized(&mut out, slice_of(source, done, to));
    }
    out
}

proof fn lemma_safe_concat(a: Seq<char>, b: Seq<char>)
    ensures
        safe_text(a + b) == safe_text(a) + safe_text(b),
{
    assert(safe_text(a + b) =~= safe_text(a) + safe_text(b));
}

/// Neighbouring ranges make up the range over both.
proof fn lemma_slices(source: Seq<char>, a: int, b: int, c: int)
    requires
        a <= b <= c,
        cuttable(source, a),
        cuttable(source, b),
        cuttable(source, c),
    ensures
        slice(source, a, c) == slice(source, a, b) + slice(source, b, c),
{
    let bytes = encode_utf8(source);
    vstd::utf8::encode_utf8_valid_utf8(source);
    lemma_cut_of_prefix(bytes, a, c);
    lemma_cut_of_prefix(bytes, b, c);
    let head = bytes.subrange(0, c);
    // The range from `a` to `c`, cut at `b`.
    vstd::utf8::valid_utf8_split(head, a);
    let whole = head.subrange(a, c);
    assert(whole =~= bytes.subrange(a, c));
    vstd::utf8::is_char_boundary_start_end_of_seq(whole);
    if b < c {
        if a < b {
            vstd::utf8::is_char_boundary_iff_not_is_continuation_byte(bytes, b);
            vstd::utf8::is_char_boundary_iff_not_is_continuation_byte(whole, b - a);
            assert(whole[b - a] == bytes[b]);
        }
    }
    assert(is_char_boundary(whole, b - a));
    vstd::utf8::decode_utf8_split(whole, b - a);
    assert(whole.subrange(0, b - a) =~= bytes.subrange(a, b));
    assert(whole.subrange(b - a, whole.len() as int) =~= bytes.subrange(b, c));
    assert(slice(source, a, c) =~= slice(source, a, b) + slice(source, b, c));
}

proof fn lemma_uncolored(source: Seq<char>, tokens: Seq<SemanticToken>, n: nat, from: int, to: int)
    requires
        n <= ordered(tokens).len(),
        0 <= from < to,
        cuts(source, tokens, from, to),
    ensures
        ({
            let (out, done) = highlighted(source, ordered(tokens), n, from, to, false);
            &&& from <= done <= to
            &&& cuttable(source, done)
            &&& out == safe_text(slice(source, from, done))
        }),
    decreases n,
{
    if n == 0 {
        assert(encode_utf8(source).subrange(from, from) =~= Seq::<u8>::empty());
        assert(safe_text(slice(source, from, from)) =~= Seq::<char>::empty());
    } else {
        lemma_uncolored(source, tokens, (n - 1) as nat, from, to);
        let sorted = ordered(tokens);
        let (out, done) = highlighted(source, sorted, (n - 1) as nat, from, to, false);
        let t = sorted[n - 1];
        let start = visible_start(t, from, done);
        let end = visible_end(t, to);
        if end > start {
            lemma_reached(source, sorted, (n - 1) as nat, from, to, false);
            assert(cuts_token(source, sorted, n - 1, from, to));
            lemma_slices(source, from, done, start);
            lemma_slices(source, from, start, end);
            lemma_safe_concat(slice(source, from, done), slice(source, done, start));
            lemma_safe_concat(slice(source, from, start), slice(source, start, end));
            if start == done {
                assert(encode_utf8(source).subrange(done, start) =~= Seq::<u8>::empty());
                assert(slice(source, done, start) =~= Seq::<char>::empty());
                assert(safe_text(slice(source, from, start)) + Seq::<char>::empty() =~= safe_text(
                    slice(source, from, start),
                ));
            }
            assert(highlighted(source, sorted, n, from, to, false).0 =~= safe_text(
                slice(source, from, end),
            ));
        }
    }
}

/// Without color, highlighting changes nothing but control characters.
pub proof fn uncolored_text_is_the_source(
    source: Seq<char>,
    tokens: Seq<SemanticToken>,
    from: int,
    to: int,
)
    requires
        0 <= from <= to,
        cuts(source, tokens, from, to),
    ensures
        from < to ==> highlighted_range(source, tokens, from, to, false) == safe_text(
            slice(source, from, to),
        ),
        from == to ==> highlighted_range(source, tokens, from, to, false) == Seq::<char>::empty(),
{
    let sorted = ordered(tokens);
    if from < to {
        lemma_uncolored(source, tokens, sorted.len(), from, to);
        let (out, done) = highlighted(source, sorted, sorted.len(), from, to, false);
        if done < to {
            lemma_slices(source, from, done, to);
            lemma_safe_concat(slice(source, from, done), slice(source, done, to));
        }
    } else {
        lemma_empty_range(source, sorted, sorted.len(), from);
    }
}

proof fn lemma_empty_range(source: Seq<char>, sorted: Seq<SemanticToken>, n: nat, from: int)
    ensures
        highlighted(source, sorted, n, from, from, false) == (Seq::<char>::empty(), from),
    decreases n,
{
    if n > 0 {
        lemma_empty_range(source, sorted, (n - 1) as nat, from);
    }
}

} // verus!
