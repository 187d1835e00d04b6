//! How many terminal cells text takes.

use vstd::prelude::*;
use unicode_segmentation::UnicodeSegmentation;
use unicode_width::UnicodeWidthChar;

verus! {

broadcast use vstd::string::group_string_axioms;

/// All of `parts`, one after the other.
pub open spec fn flattened(parts: Seq<Seq<char>>) -> Seq<char>
    decreases parts.len(),
{
    if parts.len() == 0 {
        Seq::empty()
    } else {
        flattened(parts.drop_last()) + parts.last()
    }
}

/// What each of `strings` holds.
pub open spec fn contents(strings: Seq<String>) -> Seq<Seq<char>> {
    strings.map_values(|s: String| s@)
}

/// Whether a character is one of printable ASCII.
pub open spec fn printable_ascii(c: char) -> bool {
    '\u{20}' <= c < '\u{7f}'
}

/// Whether a text holds nothing but printable ASCII.
pub open spec fn all_printable_ascii(text: Seq<char>) -> bool {
    forall|i: int| 0 <= i < text.len() ==> printable_ascii(#[trigger] text[i])
}

/// The extended grapheme clusters of a text.
pub uninterp spec fn clusters(text: Seq<char>) -> Seq<Seq<char>>;

/// The columns a character takes by itself; control characters have none.
pub uninterp spec fn columns(c: char) -> Option<usize>;

/// `UnicodeSegmentation::graphemes`, with extended clusters. They are not
/// empty and make up the text in order; and since whether a position is a
/// boundary depends on the text before it and the one character after it,
/// text cut off at a boundary keeps the clusters it had. Characters of
/// printable ASCII join with none of their kind.
#[verifier::external_body]
fn graphemes(text: &str) -> (r: Vec<String>)
    ensures
        contents(r@) == clusters(text@),
        flattened(contents(r@)) == text@,
        forall|i: int| 0 <= i < r@.len() ==> (#[trigger] r@[i])@.len() > 0,
        forall|k: int|
            0 <= k <= r@.len() ==> #[trigger] clusters(flattened(contents(r@).take(k))) == contents(
                r@,
            ).take(k),
        all_printable_ascii(text@) ==> contents(r@) == Seq::new(
            text@.len(),
            |i: int| seq![text@[i]],
        ),
{
    text.graphemes(true).map(String::from).collect()
}

/// `UnicodeWidthChar::width`. Printable ASCII is one column wide.
#[verifier::external_body]
fn char_width(c: char) -> (r: Option<usize>)
    ensures
        r == columns(c),
        printable_ascii(c) ==> r == Some(1usize),
{
    c.width()
}

/// The columns a character adds to its cluster.
pub open spec fn char_cells(c: char) -> nat {
    if c <= '\u{1f}' {
        0
    } else {
        match columns(c) {
            Some(n) => n as nat,
            None => 0,
        }
    }
}

/// The columns of all characters of a cluster.
pub open spec fn cluster_columns(cluster: Seq<char>) -> nat
    decreases cluster.len(),
{
    if cluster.len() == 0 {
        0
    } else {
        cluster_columns(cluster.drop_last()) + char_cells(cluster.last())
    }
}

/// The cells of one cluster: a terminal never gives it more than two.
pub open spec fn cluster_cells(cluster: Seq<char>) -> nat {
    if cluster_columns(cluster) < 2 {
        cluster_columns(cluster)
    } else {
        2
    }
}

/// The cells of a series of clusters.
pub open spec fn total_cells(parts: Seq<Seq<char>>) -> nat
    decreases parts.len(),
{
    if parts.len() == 0 {
        0
    } else {
        total_cells(parts.drop_last()) + cluster_cells(parts.last())
    }
}

/// The cells of a text.
pub open spec fn cells(text: Seq<char>) -> nat {
    total_cells(clusters(text))
}

/// A count, as far as a machine word can hold it.
pub open spec fn counted(n: nat) -> usize {
    if n <= usize::MAX {
        n as usize
    } else {
        usize::MAX
    }
}

/// The cells of one cluster.
pub(crate) fn cluster_width(cluster: &str) -> (w: usize)
    ensures
        w == cluster_cells(cluster@),
        cluster@.len() == 1 && printable_ascii(cluster@[0]) ==> w == 1,
{
    let mut w: usize = 0;
    for c in iter: cluster.chars()
        invariant
            iter.seq() == cluster@,
            forall|i: int|
                0 <= i < iter.index() && printable_ascii(cluster@[i]) ==> columns(
                    #[trigger] cluster@[i],
                ) == Some(1usize),
            w == cluster_cells(cluster@.take(iter.index())),
    {
        proof {
            assert(cluster@.take(iter.index() + 1).drop_last() =~= cluster@.take(iter.index()));
        }
        let n: usize = if c <= '\u{1f}' {
            0
        } else {
            match char_width(c) {
                Some(n) => n,
                None => 0,
            }
        };
        if w < 2 {
            if n >= 2 {
                w = 2;
            } else {
                w = w + n;
            }
        }
    }
    assert(cluster@.take(cluster@.len() as int) =~= cluster@);
    proof {
        reveal_with_fuel(cluster_columns, 2);
    }
    w
}

/// The clusters of `text`.
pub(crate) fn split_clusters(text: &str) -> (r: Vec<String>)
    ensures
        contents(r@) == clusters(text@),
        flattened(contents(r@)) == text@,
        forall|i: int| 0 <= i < r@.len() ==> (#[trigger] r@[i])@.len() > 0,
        forall|k: int|
            0 <= k <= r@.len() ==> #[trigger] clusters(flattened(contents(r@).take(k))) == contents(
                r@,
            ).take(k),
        all_printable_ascii(text@) ==> contents(r@) == Seq::new(
            text@.len(),
            |i: int| seq![text@[i]],
        ),
{
    graphemes(text)
}

/// The cells of a text. Printable ASCII takes one for each character.
pub fn display_width(text: &str) -> (w: usize)
    ensures
        w == counted(cells(text@)),
        all_printable_ascii(text@) ==> w == text@.len(),
{
    let parts = split_clusters(text);
    let ghost all = contents(parts@);
    let mut w: usize = 0;
    let mut i: usize = 0;
    while i < parts.len()
        invariant
            i <= parts@.len(),
            all == contents(parts@),
            w == counted(total_cells(all.take(i as int))),
            all_printable_ascii(text@) ==> all == Seq::new(text@.len(), |i: int| seq![text@[i]])
                && w == i,
        decreases parts@.len() - i,
    {
        proof {
            assert(all.take(i + 1).drop_last() =~= all.take(i as int));
            assert(all.take(i + 1).last() == parts@[i as int]@);
            assert(all[i as int] == parts@[i as int]@);
        }
        w = w.saturating_add(cluster_width(parts[i].as_str()));
        i = i + 1;
    }
    assert(all.take(parts@.len() as int) =~= all);
    w
}

} // verus!
