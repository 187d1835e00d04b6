//! What color does to highlighted text: nothing but color it, by what its
//! tokens are.

use vstd::prelude::*;
use crate::shell::syntax::{
    class_of, highlighted, highlighted_range, hue_sequence, look_of, look_sequence, ordered, place,
    safe, safe_text, slice, styled, visible_end, visible_start, Context, Hue, Look, NodeClass,
    NodeKind, SemanticToken, Token,
};
use crate::term::filter::{filtered, FilterView, ModeView};
use crate::term::filter_laws::{
    lemma_styling_concat, lemma_styling_dropped, lemma_styling_empty, lemma_styling_sequence,
    none_final, scan_in_pieces, sequences, styling,
};
use crate::term::style::sgr_sequence;
use crate::text::control;

verus! {

broadcast use vstd::string::group_string_axioms;

proof fn lemma_hue_is_styling(hue: Hue)
    ensures
        styling(hue_sequence(hue)),
        styling("\x1b[2m"@),
        styling("\x1b[0m"@),
{
    reveal_strlit("\x1b[");
    reveal_strlit("m");
    reveal_strlit("\x1b[0m");
    reveal_strlit("\x1b[2m");
    reveal_strlit("\x1b[31m");
    reveal_strlit("\x1b[32m");
    reveal_strlit("\x1b[33m");
    reveal_strlit("\x1b[34m");
    reveal_strlit("\x1b[35m");
    reveal_strlit("\x1b[36m");
    reveal_strlit("\x1b[37m");
    lemma_styling_sequence(seq!['0']);
    assert(sgr_sequence(seq!['0']) =~= "\x1b[0m"@);
    lemma_styling_sequence(seq!['2']);
    assert(sgr_sequence(seq!['2']) =~= "\x1b[2m"@);
    let last = match hue {
        Hue::Red => '1',
        Hue::Green => '2',
        Hue::Yellow => '3',
        Hue::Blue => '4',
        Hue::Magenta => '5',
        Hue::Cyan => '6',
        Hue::White => '7',
    };
    lemma_styling_sequence(seq!['3', last]);
    assert(sgr_sequence(seq!['3', last]) =~= hue_sequence(hue));
}

proof fn lemma_look_is_styling(look: Look)
    ensures
        styling(look_sequence(look)),
        styling("\x1b[0m"@),
{
    lemma_hue_is_styling(look.hue);
    lemma_styling_empty();
    let dim = if look.dimmed {
        "\x1b[2m"@
    } else {
        Seq::empty()
    };
    lemma_styling_concat(dim, hue_sequence(look.hue));
}

/// To plain text, styling means nothing.
proof fn lemma_dropped(f: FilterView, s: Seq<char>)
    requires
        f.mode is Plain,
        f.state is Ground,
        styling(s),
    ensures
        f.scan(s) == f,
{
    let params = choose|params: Seq<Seq<char>>|
        none_final(params) && #[trigger] sequences(params) == s;
    lemma_styling_dropped(f, params);
}

/// Text that was made safe starts no sequence.
proof fn lemma_safe_scan(f: FilterView, s: Seq<char>)
    requires
        f.mode is Plain,
        f.state is Ground,
    ensures
        f.scan(safe_text(s)).mode is Plain,
        f.scan(safe_text(s)).state is Ground,
    decreases s.len(),
{
    if s.len() > 0 {
        lemma_safe_scan(f, s.drop_last());
        assert(safe_text(s).drop_last() =~= safe_text(s.drop_last()));
        assert(safe_text(s).last() == safe(s.last()));
    }
}

/// A token's text reads the same in color.
proof fn lemma_styled(f: FilterView, text: Seq<char>, look: Option<Look>)
    requires
        f.mode is Plain,
        f.state is Ground,
    ensures
        f.scan(styled(text, look, true)) == f.scan(safe_text(text)),
        f.scan(safe_text(text)).mode is Plain,
        f.scan(safe_text(text)).state is Ground,
        styled(text, look, false) == safe_text(text),
{
    lemma_safe_scan(f, text);
    if let Some(look) = look {
        lemma_look_is_styling(look);
        let select = look_sequence(look);
        scan_in_pieces(f, select + safe_text(text), "\x1b[0m"@);
        scan_in_pieces(f, select, safe_text(text));
        lemma_dropped(f, select);
        lemma_dropped(f.scan(safe_text(text)), "\x1b[0m"@);
    }
}

proof fn lemma_highlighted(
    source: Seq<char>,
    sorted: Seq<SemanticToken>,
    n: nat,
    from: int,
    to: int,
)
    ensures
        ({
            let f = FilterView::start(ModeView::Plain);
            let (colored, a) = highlighted(source, sorted, n, from, to, true);
            let (plain, b) = highlighted(source, sorted, n, from, to, false);
            &&& a == b
            &&& f.scan(colored) == f.scan(plain)
            &&& f.scan(plain).mode is Plain
            &&& f.scan(plain).state is Ground
        }),
    decreases n,
{
    let f = FilterView::start(ModeView::Plain);
    if n > 0 {
        let m = (n - 1) as nat;
        lemma_highlighted(source, sorted, m, from, to);
        let (colored, done) = highlighted(source, sorted, m, from, to, true);
        let (plain, _) = highlighted(source, sorted, m, from, to, false);
        let t = sorted[n - 1];
        let start = visible_start(t, from, done);
        let end = visible_end(t, to);
        if end > start {
            let gap = if start > done {
                safe_text(slice(source, done, start))
            } else {
                Seq::empty()
            };
            let text = slice(source, start, end);
            let look = look_of(t.token, t.class, t.context);
            lemma_safe_scan(f.scan(plain), slice(source, done, start));
            assert(f.scan(plain).scan(Seq::<char>::empty()) == f.scan(plain));
            scan_in_pieces(f, colored, gap);
            scan_in_pieces(f, plain, gap);
            let g = f.scan(plain + gap);
            lemma_styled(g, text, look);
            scan_in_pieces(f, colored + gap, styled(text, look, true));
            scan_in_pieces(f, plain + gap, styled(text, look, false));
        }
    }
}

/// Color only colors: taking the styling out of highlighted text leaves what
/// highlighting without color gives.
pub proof fn color_only_colors(source: Seq<char>, tokens: Seq<SemanticToken>, from: int, to: int)
    ensures
        filtered(ModeView::Plain, highlighted_range(source, tokens, from, to, true)) == filtered(
            ModeView::Plain,
            highlighted_range(source, tokens, from, to, false),
        ),
{
    let f = FilterView::start(ModeView::Plain);
    let sorted = ordered(tokens);
    let n = sorted.len();
    lemma_highlighted(source, sorted, n, from, to);
    let (colored, done) = highlighted(source, sorted, n, from, to, true);
    let (plain, _) = highlighted(source, sorted, n, from, to, false);
    if done < to {
        let rest = safe_text(slice(source, done, to));
        scan_in_pieces(f, colored, rest);
        scan_in_pieces(f, plain, rest);
        lemma_safe_scan(f.scan(plain), slice(source, done, to));
    }
}

/// Whether this is how a token looks: which tokens have each color, and that
/// comments alone are dimmed.
pub open spec fn looks(token: Token, class: NodeClass, context: Context, look: Look) -> bool {
    let variable = token == Token::Variable && context == Context::Bare;
    &&& look.dimmed <==> token == Token::Comment
    &&& match look.hue {
        Hue::White => token == Token::Comment || token == Token::Sigil,
        Hue::Red => token == Token::Keyword,
        Hue::Green => token == Token::Literal,
        Hue::Yellow => {
            ||| token == Token::Operator
            ||| token == Token::Delim
            ||| token == Token::Escape
            ||| token == Token::Key
        },
        Hue::Blue => {
            ||| token == Token::Method
            ||| context == Context::Call && (token == Token::Field || token == Token::Variable)
            ||| variable && class == NodeClass::Function
        },
        Hue::Cyan => {
            ||| token == Token::StringDelim
            ||| token == Token::ModuleItem
            ||| token == Token::Number
            ||| token == Token::Field && context == Context::Bare
            ||| variable && class == NodeClass::Prelude
        },
        Hue::Magenta => {
            ||| token == Token::Constant
            ||| token == Token::ModuleName
            ||| variable && (class == NodeClass::Param || class == NodeClass::Module || class
                == NodeClass::PreludeModule)
        },
    }
}

/// Tokens look like what they are and what they refer to; only variables that
/// refer to nothing known, and are not called, have no color.
pub proof fn tokens_look_like_what_they_are(
    token: Token,
    class: NodeClass,
    context: Context,
    look: Look,
)
    ensures
        look_of(token, class, context) == Some(look) <==> looks(token, class, context, look),
        look_of(token, class, context) is None <==> token == Token::Variable && context
            == Context::Bare && class == NodeClass::Normal,
{
}

/// A token refers to what the node that it names is.
pub proof fn nodes_are_told_apart(kind: NodeKind, class: NodeClass)
    ensures
        class_of(None) == NodeClass::Normal,
        class_of(Some(kind)) == class <==> match class {
            NodeClass::Param => {
                ||| kind == NodeKind::PositionalParam
                ||| kind == NodeKind::KeyParam
                ||| kind == NodeKind::RestParam
                ||| kind == NodeKind::SelfParam
            },
            NodeClass::Function => {
                ||| kind == NodeKind::Class
                ||| kind == NodeKind::Function
                ||| kind == NodeKind::Method
                ||| kind == NodeKind::SpecialMethod
            },
            NodeClass::Module => kind == NodeKind::ImportModule,
            NodeClass::Prelude => kind == NodeKind::PreludeItem,
            NodeClass::PreludeModule => kind == NodeKind::PreludeModule,
            NodeClass::Normal => kind == NodeKind::Other,
        },
{
}

/// A token that stands in the range is colored where it stands, from its first
/// character to its last, and what stands around it is not.
pub proof fn tokens_are_colored_where_they_stand(
    source: Seq<char>,
    t: SemanticToken,
    from: int,
    to: int,
    look: Look,
)
    requires
        from < t.start < t.end < to,
        looks(t.token, t.class, t.context, look),
    ensures
        highlighted_range(source, seq![t], from, to, true) == safe_text(
            slice(source, from, t.start as int),
        ) + (look_sequence(look) + safe_text(slice(source, t.start as int, t.end as int))
            + "\x1b[0m"@) + safe_text(slice(source, t.end as int, to)),
{
    tokens_look_like_what_they_are(t.token, t.class, t.context, look);
    let tokens = seq![t];
    assert(tokens.drop_last() =~= Seq::<SemanticToken>::empty());
    reveal_with_fuel(ordered, 2);
    assert(ordered(tokens) =~= tokens);
    reveal_with_fuel(highlighted, 2);
    let gap = safe_text(slice(source, from, t.start as int));
    assert(Seq::<char>::empty() + gap =~= gap);
}

/// Of two tokens the one that starts first is colored where both stand, and
/// the other only behind it.
pub proof fn earlier_tokens_win(
    source: Seq<char>,
    first: SemanticToken,
    second: SemanticToken,
    to: int,
    color: bool,
)
    requires
        0 < first.start < second.start <= first.end < second.end < to,
    ensures
        highlighted_range(source, seq![second, first], 0, to, color) == highlighted_range(
            source,
            seq![first, second],
            0,
            to,
            color,
        ),
        highlighted_range(source, seq![first, second], 0, to, color) == safe_text(
            slice(source, 0, first.start as int),
        ) + styled(
            slice(source, first.start as int, first.end as int),
            look_of(first.token, first.class, first.context),
            color,
        ) + styled(
            slice(source, first.end as int, second.end as int),
            look_of(second.token, second.class, second.context),
            color,
        ) + safe_text(slice(source, second.end as int, to)),
{
    let a = seq![first, second];
    let b = seq![second, first];
    let none = Seq::<SemanticToken>::empty();
    reveal_with_fuel(ordered, 3);
    reveal_with_fuel(place, 3);
    assert(a.drop_last() =~= seq![first]);
    assert(b.drop_last() =~= seq![second]);
    assert(seq![first].drop_last() =~= none);
    assert(seq![second].drop_last() =~= none);
    assert(none.insert(0, first) =~= seq![first]);
    assert(none.insert(0, second) =~= seq![second]);
    assert(ordered(a) =~= a);
    assert(ordered(b) =~= a);
    reveal_with_fuel(highlighted, 3);
    let gap = safe_text(slice(source, 0, first.start as int));
    assert(Seq::<char>::empty() + gap =~= gap);
    let one = gap + styled(
        slice(source, first.start as int, first.end as int),
        look_of(first.token, first.class, first.context),
        color,
    );
    assert(one + Seq::<char>::empty() =~= one);
}

/// Text made safe keeps every character but the control characters other than
/// tabs and line endings, and none of those is left.
pub proof fn safe_text_controls_nothing(s: Seq<char>, i: int)
    requires
        0 <= i < s.len(),
    ensures
        safe_text(s).len() == s.len(),
        safe_text(s)[i] == s[i] || (safe_text(s)[i] == '\u{fffd}' && control(s[i])),
        control(safe_text(s)[i]) ==> s[i] == '\t' || s[i] == '\n' || s[i] == '\r',
        !control(s[i]) || s[i] == '\t' || s[i] == '\n' || s[i] == '\r' ==> safe_text(s)[i] == s[i],
{
}

} // verus!
