//! The renderer model: what the inline and the numbered multi-line layouts of
//! a sequence of cleaned texts are, and that empty texts never contribute.
use vstd::prelude::*;
use crate::text::dec_rep;

verus! {

/// The separator between entries of the inline layout.
pub open spec fn inline_sep() -> Seq<char> {
    seq![':', ' ']
}

/// The block that opens the list of causes in the multi-line layout: a blank
/// line, `Caused by:`, and a newline.
pub open spec fn caused_by_header() -> Seq<char> {
    seq!['\n', '\n', 'C', 'a', 'u', 's', 'e', 'd', ' ', 'b', 'y', ':', '\n']
}

/// One numbered line of the multi-line layout: four spaces of indent, the
/// 1-based number, a dot and a space, the text, and a newline.
pub open spec fn numbered_line(i: nat, t: Seq<char>) -> Seq<char> {
    seq![' ', ' ', ' ', ' '] + dec_rep(i) + seq!['.', ' '] + t + seq!['\n']
}

/// How many of the texts are non-empty; only those are rendered.
pub open spec fn count_nonempty(texts: Seq<Seq<char>>) -> nat
    decreases texts.len(),
{
    if texts.len() == 0 {
        0
    } else {
        count_nonempty(texts.drop_last()) + (if texts.last().len() > 0 {
            1nat
        } else {
            0nat
        })
    }
}

/// The inline layout: the non-empty texts joined with `": "`.
pub open spec fn render_inline(texts: Seq<Seq<char>>) -> Seq<char>
    decreases texts.len(),
{
    if texts.len() == 0 {
        Seq::empty()
    } else {
        let pre = render_inline(texts.drop_last());
        let t = texts.last();
        if t.len() == 0 {
            pre
        } else if count_nonempty(texts.drop_last()) == 0 {
            t
        } else {
            pre + inline_sep() + t
        }
    }
}

/// The multi-line layout: the first non-empty text alone; if more follow, the
/// `Caused by:` block, then one numbered line per further non-empty text.
pub open spec fn render_multiline(texts: Seq<Seq<char>>) -> Seq<char>
    decreases texts.len(),
{
    if texts.len() == 0 {
        Seq::empty()
    } else {
        let pre = render_multiline(texts.drop_last());
        let t = texts.last();
        let i = count_nonempty(texts.drop_last());
        if t.len() == 0 {
            pre
        } else if i == 0 {
            t
        } else if i == 1 {
            pre + caused_by_header() + numbered_line(1, t)
        } else {
            pre + numbered_line(i, t)
        }
    }
}

/// The one formatter both public layouts delegate to, selected by a flag.
pub open spec fn render(texts: Seq<Seq<char>>, multiline: bool) -> Seq<char> {
    if multiline {
        render_multiline(texts)
    } else {
        render_inline(texts)
    }
}

/// At most every text is counted.
pub proof fn lemma_count_le_len(texts: Seq<Seq<char>>)
    ensures
        count_nonempty(texts) <= texts.len(),
    decreases texts.len(),
{
    if texts.len() > 0 {
        lemma_count_le_len(texts.drop_last());
    }
}

/// Removing an empty text changes no count.
pub proof fn lemma_count_remove_empty(texts: Seq<Seq<char>>, i: int)
    requires
        0 <= i < texts.len(),
        texts[i].len() == 0,
    ensures
        count_nonempty(texts.remove(i)) == count_nonempty(texts),
    decreases texts.len(),
{
    if i == texts.len() - 1 {
        assert(texts.remove(i) =~= texts.drop_last());
    } else {
        lemma_count_remove_empty(texts.drop_last(), i);
        assert(texts.remove(i).drop_last() =~= texts.drop_last().remove(i));
        assert(texts.remove(i).last() == texts.last());
    }
}

/// When every text is empty, both layouts render nothing at all.
pub proof fn lemma_render_empty_when_none(texts: Seq<Seq<char>>, multiline: bool)
    requires
        count_nonempty(texts) == 0,
    ensures
        render(texts, multiline) == Seq::<char>::empty(),
    decreases texts.len(),
{
    if texts.len() > 0 {
        lemma_render_empty_when_none(texts.drop_last(), multiline);
    }
}

/// A text that cleaning left empty contributes nothing to either layout: no
/// separator, no number, no line.
pub proof fn lemma_empty_entry_ignored(texts: Seq<Seq<char>>, i: int, multiline: bool)
    requires
        0 <= i < texts.len(),
        texts[i].len() == 0,
    ensures
        render(texts.remove(i), multiline) == render(texts, multiline),
    decreases texts.len(),
{
    if i == texts.len() - 1 {
        assert(texts.remove(i) =~= texts.drop_last());
    } else {
        lemma_empty_entry_ignored(texts.drop_last(), i, multiline);
        lemma_count_remove_empty(texts.drop_last(), i);
        assert(texts.remove(i).drop_last() =~= texts.drop_last().remove(i));
        assert(texts.remove(i).last() == texts.last());
    }
}

} // verus!
