//! What becomes of control sequences: nothing but styling gets through.

use vstd::prelude::*;
use crate::term::filter::{filtered, FilterView, ModeView, ScanView};
use crate::term::filter_laws::{
    lemma_scan_params, lemma_scan_push, no_final, scan_in_pieces,
};

verus! {

/// A control sequence that is no styling disappears: what stands around it is
/// filtered as if it were not there.
pub proof fn control_sequences_disappear(f: FilterView, params: Seq<char>, end: char, c1: bool)
    requires
        f.state is Ground,
        forall|i: int| 0 <= i < params.len() ==> !('@' <= #[trigger] params[i] <= '~'),
        '@' <= end <= '~',
        end != 'm',
    ensures
        f.scan(
            (if c1 {
                seq!['\u{9b}']
            } else {
                seq!['\x1b', '[']
            }) + params + seq![end],
        ) == f,
{
    let intro = if c1 {
        seq!['\u{9b}']
    } else {
        seq!['\x1b', '[']
    };
    let f1 = f.to(ScanView::Csi(Seq::empty()));
    let none = Seq::<char>::empty();
    assert(no_final(params));
    assert(f.scan(none) == f);
    if c1 {
        assert(intro =~= none.push('\u{9b}'));
        lemma_scan_push(f, none, '\u{9b}');
    } else {
        assert(intro =~= none.push('\x1b').push('['));
        lemma_scan_push(f, none, '\x1b');
        lemma_scan_push(f, none.push('\x1b'), '[');
    }
    assert(f.scan(intro) == f1);
    scan_in_pieces(f, intro, params);
    lemma_scan_params(f1, params);
    assert(intro + params + seq![end] =~= (intro + params).push(end));
    lemma_scan_push(f, intro + params, end);
    assert(f.scan((intro + params).push(end)) =~= f);
}

/// Whether `body` neither ends a string nor starts to.
pub open spec fn inside_string(body: Seq<char>) -> bool {
    forall|i: int| 0 <= i < body.len() ==> #[trigger] body[i] != '\x07' && body[i] != '\x1b'
}

proof fn lemma_string(f: FilterView, body: Seq<char>)
    requires
        f.state == ScanView::StringControl(false),
        inside_string(body),
    ensures
        f.scan(body) == f,
    decreases body.len(),
{
    if body.len() > 0 {
        let init = body.drop_last();
        assert forall|i: int| 0 <= i < init.len() implies #[trigger] init[i] != '\x07' && init[i]
            != '\x1b' by {
            assert(init[i] == body[i]);
        }
        lemma_string(f, init);
        assert(body[body.len() - 1] != '\x07');
        assert(f.step(body.last()) =~= f);
    }
}

/// Whether a character after an escape starts a string that a terminal keeps
/// to itself.
pub open spec fn starts_string(c: char) -> bool {
    c == ']' || c == 'P' || c == 'X' || c == '^' || c == '_'
}

/// A string meant for the terminal disappears with all it holds, whether a bell
/// or a string terminator ends it.
pub proof fn strings_for_the_terminal_disappear(
    f: FilterView,
    start: char,
    body: Seq<char>,
    bell: bool,
)
    requires
        f.state is Ground,
        starts_string(start),
        inside_string(body),
    ensures
        f.scan(
            seq!['\x1b', start] + body + (if bell {
                seq!['\x07']
            } else {
                seq!['\x1b', '\\']
            }),
        ) == f,
{
    let none = Seq::<char>::empty();
    let intro = seq!['\x1b', start];
    let f1 = f.to(ScanView::StringControl(false));
    assert(f.scan(none) == f);
    assert(intro =~= none.push('\x1b').push(start));
    lemma_scan_push(f, none, '\x1b');
    lemma_scan_push(f, none.push('\x1b'), start);
    assert(f.scan(intro) =~= f1);
    scan_in_pieces(f, intro, body);
    lemma_string(f1, body);
    let so_far = intro + body;
    if bell {
        assert(so_far + seq!['\x07'] =~= so_far.push('\x07'));
        lemma_scan_push(f, so_far, '\x07');
        assert(f.scan(so_far.push('\x07')) =~= f);
    } else {
        assert(so_far + seq!['\x1b', '\\'] =~= so_far.push('\x1b').push('\\'));
        lemma_scan_push(f, so_far, '\x1b');
        lemma_scan_push(f, so_far.push('\x1b'), '\\');
        assert(f.scan(so_far.push('\x1b').push('\\')) =~= f);
    }
}

/// A character that stands by itself gets through if it is no control character
/// or one that starts a line or skips ahead; other control characters that
/// start nothing disappear.
pub proof fn characters_stand_for_themselves(f: FilterView, c: char)
    requires
        f.state is Ground,
    ensures
        ' ' <= c <= '~' || c >= '\u{a0}' || c == '\n' || c == '\t' ==> f.scan(seq![c]) == (
        FilterView { out: f.out.push(c), ..f }),
        c < ' ' && c != '\n' && c != '\t' && c != '\x1b' ==> f.scan(seq![c]) == f,
        '\u{7f}' <= c < '\u{a0}' && c != '\u{9b}' && c != '\u{90}' && !('\u{9d}' <= c
            <= '\u{9f}') ==> f.scan(seq![c]) == f,
{
    let none = Seq::<char>::empty();
    assert(seq![c] =~= none.push(c));
    assert(f.scan(none) == f);
    lemma_scan_push(f, none, c);
}

/// What disappears from the middle of a text leaves the text filtered as if it
/// had never been there.
pub proof fn what_disappears_leaves_no_trace(
    mode: ModeView,
    before: Seq<char>,
    gone: Seq<char>,
    after: Seq<char>,
)
    requires
        FilterView::start(mode).scan(before).scan(gone) == FilterView::start(mode).scan(before),
    ensures
        filtered(mode, before + gone + after) == filtered(mode, before + after),
{
    let f = FilterView::start(mode);
    scan_in_pieces(f, before + gone, after);
    scan_in_pieces(f, before, gone);
    scan_in_pieces(f, before, after);
}

} // verus!
