//! Encoded text laid out: which of its characters a terminal shows, in what
//! style, and how many cells they take.

use vstd::prelude::*;
use crate::term::cells::{
    all_printable_ascii, cells, cluster_cells, cluster_width, clusters, contents, counted,
    display_width, flattened, split_clusters, total_cells,
};
use crate::term::filter::is_final;
use crate::term::sgr::{params_ops, sgr_ops, sgr_value, sgr_values, SgrParser};
use crate::term::style::{Style, StyleView};
use crate::text::{chars_of, number, split, string_of};

verus! {

broadcast use vstd::string::group_string_axioms;

/// The first position from `from` on that holds the end of a control
/// sequence, or the length of `s`.
pub open spec fn first_final(s: Seq<char>, from: int) -> int
    decreases s.len() - from,
{
    if from >= s.len() || is_final(s[from]) {
        from
    } else {
        first_final(s, from + 1)
    }
}

/// Where the SGR sequence that starts at `at` has its final character, if
/// one starts there.
pub open spec fn sgr_end(s: Seq<char>, at: int) -> Option<int> {
    if 0 <= at && at + 1 < s.len() && s[at] == '\x1b' && s[at + 1] == '[' {
        let end = first_final(s, at + 2);
        if end < s.len() && s[end] == 'm' {
            Some(end)
        } else {
            None
        }
    } else {
        None
    }
}

/// One character that a terminal shows, where it ends in the encoded text,
/// and the style selected at that point.
pub type Shown = (char, int, StyleView);

/// The characters shown from `at` on, when `style` is selected there.
pub open spec fn shown_from(s: Seq<char>, at: int, style: StyleView) -> Seq<Shown>
    decreases s.len() - at,
{
    if at < 0 || at >= s.len() {
        Seq::empty()
    } else {
        match sgr_end(s, at) {
            Some(end) => if end >= at {
                shown_from(s, end + 1, style.applied_all(params_ops(s.subrange(at + 2, end))))
            } else {
                Seq::empty()
            },
            None => seq![(s[at], at + 1, style)] + shown_from(s, at + 1, style),
        }
    }
}

/// All characters shown of `s`.
pub open spec fn shown(s: Seq<char>) -> Seq<Shown> {
    shown_from(s, 0, StyleView::plain())
}

/// The characters themselves.
pub open spec fn shown_chars(run: Seq<Shown>) -> Seq<char> {
    Seq::new(run.len(), |i: int| run[i].0)
}

/// The text a terminal shows for `s`, without its styling.
pub open spec fn visible(s: Seq<char>) -> Seq<char> {
    shown_chars(shown(s))
}

/// How many of the leading clusters `parts` fit into `room` cells.
pub open spec fn fitting(parts: Seq<Seq<char>>, room: int) -> nat
    decreases parts.len(),
{
    if parts.len() > 0 && cluster_cells(parts[0]) <= room {
        1 + fitting(parts.drop_first(), room - cluster_cells(parts[0]))
    } else {
        0
    }
}

/// Whether `kept` is made of the first `k` clusters of a text, which fit into
/// `width` cells, while one more would not.
pub open spec fn leads(text: Seq<char>, kept: Seq<char>, k: int, width: int) -> bool {
    let parts = clusters(text);
    &&& 0 <= k <= parts.len()
    &&& kept == flattened(parts.take(k))
    &&& total_cells(parts.take(k)) <= width
    &&& k < parts.len() ==> total_cells(parts.take(k + 1)) > width
}

/// As much of the encoded text as shows the leading clusters that fit, with
/// whatever style it leaves selected reset.
pub open spec fn prefix_encoding(s: Seq<char>, width: nat) -> Seq<char> {
    let parts = clusters(visible(s));
    let kept = flattened(parts.take(fitting(parts, width as int) as int)).len();
    if kept == 0 {
        Seq::empty()
    } else {
        let last = shown(s)[kept - 1];
        if last.2 == StyleView::plain() {
            s.take(last.1)
        } else {
            s.take(last.1) + "\x1b[0m"@
        }
    }
}

/// The encoded text, clipped to `width` cells: itself where it fits.
pub open spec fn clipped(s: Seq<char>, width: usize) -> Seq<char> {
    if counted(cells(visible(s))) <= width {
        s
    } else {
        prefix_encoding(s, width as nat)
    }
}

/// The style selected after all of `s` from `at` on.
pub open spec fn style_from(s: Seq<char>, at: int, style: StyleView) -> StyleView
    decreases s.len() - at,
{
    if at < 0 || at >= s.len() {
        style
    } else {
        match sgr_end(s, at) {
            Some(end) => if end >= at {
                style_from(s, end + 1, style.applied_all(params_ops(s.subrange(at + 2, end))))
            } else {
                style
            },
            None => style_from(s, at + 1, style),
        }
    }
}

/// The style that `s` leaves selected.
pub open spec fn style_after(s: Seq<char>) -> StyleView {
    style_from(s, 0, StyleView::plain())
}

/// The search for the end of a sequence stays in range.
proof fn lemma_first_final(s: Seq<char>, from: int)
    requires
        0 <= from <= s.len(),
    ensures
        from <= first_final(s, from) <= s.len(),
        forall|i: int| from <= i < first_final(s, from) ==> !is_final(#[trigger] s[i]),
        first_final(s, from) < s.len() ==> is_final(s[first_final(s, from)]),
    decreases s.len() - from,
{
    if from < s.len() && !is_final(s[from]) {
        lemma_first_final(s, from + 1);
    }
}

/// A character that starts no SGR sequence is shown.
proof fn lemma_shown_plain(s: Seq<char>, at: int, style: StyleView, done: Seq<Shown>)
    requires
        0 <= at < s.len(),
        sgr_end(s, at) is None,
    ensures
        done + shown_from(s, at, style) == done.push((s[at], at + 1, style))
            + shown_from(s, at + 1, style),
{
    let x = (s[at], at + 1, style);
    let rest = shown_from(s, at + 1, style);
    assert(shown_from(s, at, style) == seq![x] + rest);
    assert(done.push(x) + rest =~= done + (seq![x] + rest));
}

/// Shown characters end after where the search for them started.
proof fn lemma_shown_ends(s: Seq<char>, at: int, style: StyleView)
    requires
        0 <= at,
    ensures
        forall|i: int|
            0 <= i < shown_from(s, at, style).len() ==> at < (#[trigger] shown_from(s, at, style)[i]).1
                <= s.len(),
    decreases s.len() - at,
{
    if at < s.len() {
        match sgr_end(s, at) {
            Some(end) => {
                let after = style.applied_all(params_ops(s.subrange(at + 2, end)));
                lemma_first_final(s, at + 2);
                lemma_shown_ends(s, end + 1, after);
                let rest = shown_from(s, end + 1, after);
                assert(shown_from(s, at, style) == rest);
                assert forall|i: int| 0 <= i < rest.len() implies at < (#[trigger] rest[i]).1 <= s.len() by {
                    assert(end + 1 < rest[i].1);
                }
            },
            None => {
                lemma_shown_ends(s, at + 1, style);
                let all = shown_from(s, at, style);
                let rest = shown_from(s, at + 1, style);
                assert forall|i: int| 0 <= i < all.len() implies at < (#[trigger] all[i]).1 <= s.len() by {
                    if i > 0 {
                        assert(all[i] == rest[i - 1]);
                    }
                }
            },
        }
    }
}

/// The sequence that selects nothing.
pub proof fn lemma_reset_ops()
    ensures
        "\x1b[0m"@.len() == 4,
        "\x1b[0m"@[0] == '\x1b',
        "\x1b[0m"@[1] == '[',
        "\x1b[0m"@[2] == '0',
        "\x1b[0m"@[3] == 'm',
        params_ops(seq!['0']) == seq![crate::term::style::Sgr::Reset],
{
    reveal_strlit("\x1b[0m");
    let p = seq!['0'];
    assert(p.drop_last() =~= Seq::<char>::empty());
    assert(split(Seq::<char>::empty(), ';') =~= seq![Seq::<char>::empty()]);
    assert(split(p, ';') =~= seq![p]);
    reveal_with_fuel(number, 2);
    assert(sgr_value(p) == Some(0u16));
    assert(sgr_values(p) =~= seq![Some(0u16)]);
    reveal_with_fuel(sgr_ops, 2);
    assert(params_ops(p) =~= seq![crate::term::style::Sgr::Reset]);
}

/// A text cut after its shown character `m`, where `style` was selected, shows
/// the characters up to that one; a reset added there adds nothing.
proof fn lemma_cut(s: Seq<char>, at: int, style: StyleView, m: int, e: int, reset: bool)
    requires
        0 <= at <= e <= s.len(),
        -1 <= m < shown_from(s, at, style).len(),
        m >= 0 ==> e == shown_from(s, at, style)[m].1,
        m >= 0 ==> reset || shown_from(s, at, style)[m].2 == StyleView::plain(),
        m == -1 ==> at == e && (reset || style == StyleView::plain()),
    ensures
        ({
            let t = s.take(e) + (if reset { "\x1b[0m"@ } else { Seq::empty() });
            &&& shown_from(t, at, style) == shown_from(s, at, style).take(m + 1)
            &&& style_from(t, at, style) == StyleView::plain()
        }),
    decreases e - at,
{
    let tail: Seq<char> = if reset { "\x1b[0m"@ } else { Seq::empty() };
    let t = s.take(e) + tail;
    let all = shown_from(s, at, style);
    lemma_reset_ops();
    lemma_shown_ends(s, at, style);
    assert(forall|i: int| 0 <= i < e ==> t[i] == s[i]);
    assert(forall|i: int| 0 <= i < tail.len() ==> t[e + i] == tail[i]);
    if m == -1 {
        if reset {
            reveal_with_fuel(first_final, 3);
            assert(t[e + 2] == '0' && t[e + 3] == 'm' && t[e] == '\x1b' && t[e + 1] == '[');
            assert(first_final(t, e + 2) == e + 3);
            assert(t.subrange(e + 2, e + 3) =~= seq!['0']);
            reveal_with_fuel(StyleView::applied_all, 2);
            reveal_with_fuel(shown_from, 2);
            reveal_with_fuel(style_from, 2);
        }
        assert(shown_from(t, at, style) =~= all.take(0));
    } else {
        match sgr_end(s, at) {
            Some(end) => {
                let after = style.applied_all(params_ops(s.subrange(at + 2, end)));
                lemma_first_final(s, at + 2);
                lemma_shown_ends(s, end + 1, after);
                assert(all == shown_from(s, end + 1, after));
                assert(all[m].1 > end + 1);
                lemma_first_final_agrees(s, t, at + 2, e);
                assert(t.subrange(at + 2, end) =~= s.subrange(at + 2, end));
                lemma_cut(s, end + 1, after, m, e, reset);
            },
            None => {
                let rest = shown_from(s, at + 1, style);
                assert(all =~= seq![(s[at], at + 1, style)] + rest);
                if s[at] == '\x1b' && at + 1 < e && s[at + 1] == '[' {
                    lemma_first_final(s, at + 2);
                    lemma_first_final_agrees(s, t, at + 2, e);
                    if first_final(s, at + 2) >= e {
                        assert(first_final(t, at + 2) == first_final(t, e));
                        reveal_with_fuel(first_final, 3);
                    }
                }
                assert(sgr_end(t, at) is None);
                if m > 0 {
                    lemma_shown_ends(s, at + 1, style);
                    assert(all[m] == rest[m - 1]);
                }
                lemma_cut(s, at + 1, style, m - 1, e, reset);
                assert(seq![(s[at], at + 1, style)] + rest.take(m) =~= all.take(m + 1));
            },
        }
    }
}

/// Texts that agree up to `e` have the same sequence ends before `e`.
proof fn lemma_first_final_agrees(s: Seq<char>, t: Seq<char>, from: int, e: int)
    requires
        0 <= from <= e <= s.len(),
        e <= t.len(),
        forall|i: int| 0 <= i < e ==> t[i] == s[i],
    ensures
        first_final(s, from) < e ==> first_final(t, from) == first_final(s, from),
        first_final(s, from) >= e ==> first_final(t, from) == first_final(t, e),
    decreases e - from,
{
    if from < e && !is_final(s[from]) {
        lemma_first_final_agrees(s, t, from + 1, e);
    } else if from == e {
        lemma_first_final(s, from);
    }
}

/// The SGR sequence that starts at `at`, if one does: the position after it,
/// and its parameters. None starts past the end.
pub fn sgr_at(value: &Vec<char>, at: usize) -> (r: Option<(usize, String)>)
    ensures
        at >= value@.len() ==> r is None,
        match r {
            Some((next, params)) => sgr_end(value@, at as int) == Some(next - 1) && at + 3 <= next
                <= value@.len() && params@ == value@.subrange(at + 2, next - 1),
            None => sgr_end(value@, at as int) is None,
        },
{
    let len = value.len();
    if at >= len || len - at < 2 || value[at] != '\x1b' || value[at + 1] != '[' {
        return None;
    }
    let mut i: usize = at + 2;
    while i < len
        invariant
            at + 2 <= i <= len,
            len == value@.len(),
            first_final(value@, at + 2) == first_final(value@, i as int),
            value@[at as int] == '\x1b',
            value@[at + 1] == '[',
        decreases len - i,
    {
        let c = value[i];
        if '\u{40}' <= c && c <= '\u{7e}' {
            if c != 'm' {
                return None;
            }
            return Some((i + 1, string_of(value, at + 2, i)));
        }
        i = i + 1;
    }
    None
}

/// Where one shown character ends in the encoded text, and its style.
#[derive(Clone, Copy)]
struct TextOffset {
    end: usize,
    style: Style,
}

/// An encoded text, laid out.
pub struct TextLayout {
    encoded: Vec<char>,
    plain: String,
    offsets: Vec<TextOffset>,
}

impl View for TextLayout {
    type V = Seq<char>;

    /// The encoded text.
    closed spec fn view(&self) -> Seq<char> {
        self.encoded@
    }
}

impl TextLayout {
    #[verifier::type_invariant]
    spec fn inv(self) -> bool {
        &&& self.plain@ == visible(self.encoded@)
        &&& self.offsets@.len() == shown(self.encoded@).len()
        &&& forall|i: int|
            0 <= i < self.offsets@.len() ==> {
                &&& (#[trigger] self.offsets@[i]).end == shown(self.encoded@)[i].1
                &&& self.offsets@[i].style@ == shown(self.encoded@)[i].2
                &&& self.offsets@[i].end <= self.encoded@.len()
            }
    }

    /// Lays out an encoded text.
    pub fn new(encoded: &str) -> (layout: TextLayout)
        ensures
            layout@ == encoded@,
    {
        let chars = chars_of(encoded);
        let ghost s = chars@;
        let len = chars.len();
        let mut plain = String::new();
        let mut offsets: Vec<TextOffset> = Vec::new();
        let mut style = Style::default();
        let mut at: usize = 0;
        let ghost mut done: Seq<Shown> = Seq::empty();
        assert(done + shown_from(s, 0, style@) =~= shown(s));
        while at < len
            invariant
                at <= len,
                len == s.len(),
                s == chars@,
                done + shown_from(s, at as int, style@) == shown(s),
                plain@ == shown_chars(done),
                offsets@.len() == done.len(),
                forall|i: int|
                    0 <= i < offsets@.len() ==> {
                        &&& (#[trigger] offsets@[i]).end == done[i].1
                        &&& offsets@[i].style@ == done[i].2
                        &&& offsets@[i].end <= len
                    },
            decreases len - at,
        {
            if let Some((next, params)) = sgr_at(&chars, at) {
                let ghost before = style@;
                let mut parser = SgrParser::new(params.as_str());
                let ghost all = params_ops(params@);
                let ghost mut rest = all;
                loop
                    invariant
                        rest == parser@,
                        style@.applied_all(rest) == before.applied_all(all),
                    ensures
                        style@ == before.applied_all(all),
                    decreases rest.len(),
                {
                    let op = match parser.next() {
                        Some(op) => op,
                        None => {
                            break;
                        },
                    };
                    proof {
                        assert(rest.drop_first() =~= parser@);
                        rest = parser@;
                    }
                    style.apply(op);
                }
                at = next;
            } else {
                let c = chars[at];
                proof {
                    let x = (c, at + 1, style@);
                    lemma_shown_plain(s, at as int, style@, done);
                    assert(shown_chars(done.push(x)) =~= shown_chars(done).push(c));
                    done = done.push(x);
                }
                at = at + 1;
                plain.push(c);
                offsets.push(TextOffset { end: at, style });
            }
        }
        assert(done =~= shown(s));
        TextLayout { encoded: chars, plain, offsets }
    }

    /// The cells the text takes.
    pub fn width(&self) -> (w: usize)
        ensures
            w == counted(cells(visible(self@))),
            all_printable_ascii(visible(self@)) ==> w == visible(self@).len(),
    {
        proof {
            use_type_invariant(self);
        }
        display_width(self.plain.as_str())
    }

    /// As much of the text as fits into `width` cells, cut between clusters.
    /// What is left shows a leading part of the text, takes no more cells
    /// than that, and leaves no style selected.
    pub fn prefix(&self, width: usize) -> (r: String)
        ensures
            r@ == prefix_encoding(self@, width as nat),
            cells(visible(r@)) <= width,
            visible(r@).is_prefix_of(visible(self@)),
            style_after(r@) == StyleView::plain(),
            exists|k: int| #[trigger] leads(visible(self@), visible(r@), k, width as int),
            all_printable_ascii(visible(self@)) && width <= visible(self@).len() ==> visible(r@)
                == visible(self@).take(width as int),
    {
        proof {
            use_type_invariant(self);
        }
        let parts = split_clusters(self.plain.as_str());
        let ghost all = contents(parts@);
        let mut used: usize = 0;
        let mut kept: usize = 0;
        let total = self.offsets.len();
        let mut i: usize = 0;
        assert(all.skip(0) =~= all);
        while i < parts.len()
            invariant_except_break
                i <= parts@.len(),
                used <= width,
                fitting(all, width as int) == i + fitting(all.skip(i as int), width - used),
            invariant
                all == contents(parts@),
                all == clusters(visible(self@)),
                i <= parts@.len(),
                kept == flattened(all.take(i as int)).len(),
                used == total_cells(all.take(i as int)),
                used <= width,
                flattened(all) == visible(self@),
                total == visible(self@).len(),
                all_printable_ascii(visible(self@)) ==> used == i && kept == i && all == Seq::new(
                    visible(self@).len(),
                    |j: int| seq![visible(self@)[j]],
                ),
            ensures
                i == fitting(all, width as int),
                i < parts@.len() ==> total_cells(all.take(i + 1)) > width,
                i < parts@.len() && all_printable_ascii(visible(self@)) ==> i == width,
            decreases parts@.len() - i,
        {
            let w = cluster_width(parts[i].as_str());
            let ghost rest = all.skip(i as int);
            proof {
                assert(rest[0] == parts@[i as int]@);
                assert(rest.drop_first() =~= all.skip(i + 1));
                assert(all.take(i + 1).drop_last() =~= all.take(i as int));
                assert(all.take(i + 1).last() == parts@[i as int]@);
                assert(all[i as int] == parts@[i as int]@);
            }
            if w > width - used {
                break;
            }
            used = used + w;
            proof {
                assert(all.take(i + 1).drop_last() =~= all.take(i as int));
                assert(all.take(i + 1).last() == parts@[i as int]@);
                lemma_flattened_take(all, i + 1);
            }
            kept = kept + parts[i].as_str().unicode_len();
            i = i + 1;
        }
        proof {
            lemma_flattened_take(all, i as int);
        }
        proof {
            assert(clusters(flattened(all.take(i as int))) == all.take(i as int));
            assert(leads(visible(self@), flattened(all.take(i as int)), i as int, width as int));
        }
        if kept == 0 {
            assert(visible(Seq::empty()) =~= flattened(all.take(i as int)));
            return String::new();
        }
        let offset = self.offsets[kept - 1];
        let mut clipped = string_of(&self.encoded, 0, offset.end);
        assert(self@.subrange(0, offset.end as int) =~= self@.take(offset.end as int));
        proof {
            lemma_shown_ends(self@, 0, StyleView::plain());
            lemma_cut(
                self@,
                0,
                StyleView::plain(),
                kept - 1,
                offset.end as int,
                offset.style@ != StyleView::plain(),
            );
            assert(clipped@ + Seq::<char>::empty() =~= clipped@);
            assert(shown_chars(shown(self@).take(kept as int)) =~= visible(self@).take(kept as int));
        }
        if !offset.style.is_plain() {
            clipped.append("\x1b[0m");
        }
        proof {
            let kept_text = flattened(all.take(i as int));
            assert(shown(clipped@) == shown(self@).take(kept as int));
            assert(visible(clipped@) == visible(self@).take(kept as int));
            assert(visible(clipped@) == kept_text);
            assert(leads(visible(self@), visible(clipped@), i as int, width as int));
        }
        clipped
    }
}

/// Leading clusters make up a leading part of the text.
proof fn lemma_flattened_take(parts: Seq<Seq<char>>, k: int)
    requires
        0 <= k <= parts.len(),
    ensures
        flattened(parts.take(k)).len() <= flattened(parts).len(),
        flattened(parts.take(k)) == flattened(parts).take(flattened(parts.take(k)).len() as int),
    decreases parts.len(),
{
    if k == parts.len() {
        assert(parts.take(k) =~= parts);
        assert(flattened(parts) =~= flattened(parts).take(flattened(parts).len() as int));
    } else {
        lemma_flattened_take(parts.drop_last(), k);
        assert(parts.drop_last().take(k) =~= parts.take(k));
        assert(flattened(parts.take(k)) =~= flattened(parts).take(
            flattened(parts.take(k)).len() as int,
        ));
    }
}

/// Text without escape characters is all shown.
pub proof fn unstyled_text_is_shown(s: Seq<char>)
    requires
        !s.contains('\x1b'),
    ensures
        visible(s) == s,
{
    lemma_unstyled_shown(s, 0, StyleView::plain());
    assert(visible(s) =~= s);
}

proof fn lemma_unstyled_shown(s: Seq<char>, at: int, style: StyleView)
    requires
        0 <= at <= s.len(),
        !s.contains('\x1b'),
    ensures
        shown_chars(shown_from(s, at, style)) == s.skip(at),
    decreases s.len() - at,
{
    if at < s.len() {
        assert(s.contains(s[at]));
        lemma_unstyled_shown(s, at + 1, style);
        let rest = shown_from(s, at + 1, style);
        let all = shown_from(s, at, style);
        assert(all == seq![(s[at], at + 1, style)] + rest);
        assert(shown_chars(all) =~= seq![s[at]] + shown_chars(rest));
        assert(seq![s[at]] + s.skip(at + 1) =~= s.skip(at));
    } else {
        assert(shown_chars(shown_from(s, at, style)) =~= s.skip(at));
    }
}

/// The cells an encoded text takes: its escape sequences take none, and
/// printable ASCII takes one for each character.
pub fn encoded_width(encoded: &str) -> (w: usize)
    ensures
        w == counted(cells(visible(encoded@))),
        all_printable_ascii(visible(encoded@)) ==> w == visible(encoded@).len(),
        all_printable_ascii(encoded@) ==> w == encoded@.len(),
{
    proof {
        if all_printable_ascii(encoded@) {
            unstyled_text_is_shown(encoded@);
        }
    }
    TextLayout::new(encoded).width()
}

/// Clips an encoded text to `width` cells. The result never takes more, and
/// shows a leading part of the text; where anything was cut off, it leaves no
/// style selected.
pub fn clip_encoding(encoded: &str, width: usize) -> (r: String)
    ensures
        r@ == clipped(encoded@, width),
        counted(cells(visible(r@))) <= width,
        visible(r@).is_prefix_of(visible(encoded@)),
        r@ != encoded@ ==> style_after(r@) == StyleView::plain(),
        counted(cells(visible(encoded@))) <= width ==> r@ == encoded@,
        counted(cells(visible(encoded@))) > width ==> exists|k: int| #[trigger]
            leads(visible(encoded@), visible(r@), k, width as int),
        all_printable_ascii(visible(encoded@)) && width <= visible(encoded@).len() ==> visible(r@)
            == visible(encoded@).take(width as int),
{
    let layout = TextLayout::new(encoded);
    if layout.width() <= width {
        assert(visible(encoded@) =~= visible(encoded@).take(visible(encoded@).len() as int));
        encoded.to_owned()
    } else {
        layout.prefix(width)
    }
}

} // verus!
