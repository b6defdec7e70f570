use vstd::prelude::*;

use crate::error::{ExtractError, ExtractErrorView};
use crate::model::CodeBlock;

verus! {

/// Which code blocks go into the output.
pub enum Selection {
    /// Every code block.
    All,
    /// Only the code block at this 0-based index among the code blocks.
    Nth(usize),
    /// The code blocks whose tag is `tag`. With `exactly_one`, exactly one block
    /// must carry it; otherwise any number of blocks (none too) may.
    Tag { tag: String, exactly_one: bool },
}

/// The mathematical value of a [`Selection`].
pub enum SelectionView {
    All,
    Nth(int),
    Tag(Seq<char>, bool),
}

impl View for Selection {
    type V = SelectionView;

    open spec fn view(&self) -> SelectionView {
        match self {
            Selection::All => SelectionView::All,
            Selection::Nth(k) => SelectionView::Nth(*k as int),
            Selection::Tag { tag, exactly_one } => SelectionView::Tag(tag@, *exactly_one),
        }
    }
}

/// Whether `block` carries the tag `tag`.
pub open spec fn has_tag(block: CodeBlock, tag: Seq<char>) -> bool {
    match block.tag {
        Some(t) => t@ == tag,
        None => false,
    }
}

/// Whether the selection takes `block`, the code block at `index`.
pub open spec fn accepts(sel: SelectionView, index: int, block: CodeBlock) -> bool {
    match sel {
        SelectionView::All => true,
        SelectionView::Nth(k) => index == k,
        SelectionView::Tag(tag, _) => has_tag(block, tag),
    }
}

/// Whether the selection asks for exactly one block with its tag.
pub open spec fn wants_exactly_one(sel: SelectionView) -> bool {
    match sel {
        SelectionView::Tag(_, one) => one,
        _ => false,
    }
}

/// The tag that the selection asks for (empty where it asks for none).
pub open spec fn wanted_tag(sel: SelectionView) -> Seq<char> {
    match sel {
        SelectionView::Tag(tag, _) => tag,
        _ => Seq::empty(),
    }
}

/// The blocks among the first `n` that the selection takes, in order.
pub open spec fn chosen(sel: SelectionView, blocks: Seq<CodeBlock>, n: int) -> Seq<CodeBlock>
    decreases n,
{
    if n <= 0 {
        Seq::empty()
    } else {
        let earlier = chosen(sel, blocks, n - 1);
        if accepts(sel, n - 1, blocks[n - 1]) {
            earlier.push(blocks[n - 1])
        } else {
            earlier
        }
    }
}

/// The blocks that the selection takes, in order.
pub open spec fn selected(sel: SelectionView, blocks: Seq<CodeBlock>) -> Seq<CodeBlock> {
    chosen(sel, blocks, blocks.len() as int)
}

/// What the blocks chosen among fewer blocks are, among more of them: a prefix.
pub proof fn lemma_chosen_prefix(sel: SelectionView, blocks: Seq<CodeBlock>, j: int, k: int)
    requires
        0 <= j <= k,
    ensures
        chosen(sel, blocks, j).len() <= chosen(sel, blocks, k).len(),
        chosen(sel, blocks, k).take(chosen(sel, blocks, j).len() as int) == chosen(sel, blocks, j),
    decreases k - j,
{
    if j < k {
        lemma_chosen_prefix(sel, blocks, j, k - 1);
        let a = chosen(sel, blocks, j);
        let b = chosen(sel, blocks, k - 1);
        assert(b.push(blocks[k - 1]).take(a.len() as int) =~= b.take(a.len() as int));
    } else {
        assert(chosen(sel, blocks, k).take(chosen(sel, blocks, k).len() as int) =~= chosen(
            sel,
            blocks,
            k,
        ));
    }
}

/// Selecting all blocks takes every code block, in order.
pub proof fn law_all_selects_every_block(blocks: Seq<CodeBlock>)
    ensures
        selected(SelectionView::All, blocks) == blocks,
{
    assert forall|n: int| 0 <= n <= blocks.len() implies chosen(SelectionView::All, blocks, n)
        == blocks.take(n) by {
        lemma_all_chosen(blocks, n);
    }
    assert(blocks.take(blocks.len() as int) =~= blocks);
}

proof fn lemma_all_chosen(blocks: Seq<CodeBlock>, n: int)
    requires
        0 <= n <= blocks.len(),
    ensures
        chosen(SelectionView::All, blocks, n) == blocks.take(n),
    decreases n,
{
    if n > 0 {
        lemma_all_chosen(blocks, n - 1);
        assert(blocks.take(n - 1).push(blocks[n - 1]) =~= blocks.take(n));
    } else {
        assert(blocks.take(0) =~= Seq::<CodeBlock>::empty());
    }
}

/// Selecting the block at index `k` takes that block alone, and no block
/// where `k` is not below the number of code blocks.
pub proof fn law_nth_selects_one_block(blocks: Seq<CodeBlock>, k: int)
    ensures
        selected(SelectionView::Nth(k), blocks) == (if 0 <= k < blocks.len() {
            seq![blocks[k]]
        } else {
            Seq::<CodeBlock>::empty()
        }),
{
    lemma_nth_chosen(blocks, k, blocks.len() as int);
}

proof fn lemma_nth_chosen(blocks: Seq<CodeBlock>, k: int, n: int)
    requires
        0 <= n <= blocks.len(),
    ensures
        chosen(SelectionView::Nth(k), blocks, n) == (if 0 <= k < n {
            seq![blocks[k]]
        } else {
            Seq::<CodeBlock>::empty()
        }),
    decreases n,
{
    if n > 0 {
        lemma_nth_chosen(blocks, k, n - 1);
        if k == n - 1 {
            assert(Seq::<CodeBlock>::empty().push(blocks[k]) =~= seq![blocks[k]]);
        }
    }
}

/// Selecting by a tag takes exactly the code blocks that carry it, in order.
pub proof fn law_tag_selects_tagged_blocks(blocks: Seq<CodeBlock>, tag: Seq<char>, exactly_one: bool)
    ensures
        selected(SelectionView::Tag(tag, exactly_one), blocks) == blocks.filter(
            |b: CodeBlock| has_tag(b, tag),
        ),
{
    lemma_tag_chosen(blocks, tag, exactly_one, blocks.len() as int);
    assert(blocks.take(blocks.len() as int) =~= blocks);
}

proof fn lemma_tag_chosen(blocks: Seq<CodeBlock>, tag: Seq<char>, exactly_one: bool, n: int)
    requires
        0 <= n <= blocks.len(),
    ensures
        chosen(SelectionView::Tag(tag, exactly_one), blocks, n) == blocks.take(n).filter(
            |b: CodeBlock| has_tag(b, tag),
        ),
    decreases n,
{
    reveal(Seq::filter);
    if n > 0 {
        lemma_tag_chosen(blocks, tag, exactly_one, n - 1);
        assert(blocks.take(n).drop_last() =~= blocks.take(n - 1));
    } else {
        assert(blocks.take(0) =~= Seq::<CodeBlock>::empty());
    }
}

/// The state of a selection while the code blocks are walked in order.
pub struct Selector {
    /// What to select.
    pub selection: Selection,
    /// Whether a block with the wanted tag was met already.
    pub already_found: bool,
}

impl Selector {
    /// A selector that has met no block yet.
    pub fn new(selection: Selection) -> (r: Selector)
        ensures
            r.selection == selection,
            !r.already_found,
    {
        Selector { selection, already_found: false }
    }

    /// Decides whether the code block at `index` goes into the output.
    /// Where exactly one block may carry the wanted tag, a second such block
    /// is an error.
    pub fn accept(&mut self, index: usize, block: &CodeBlock) -> (r: Result<bool, ExtractError>)
        ensures
            final(self).selection == old(self).selection,
            final(self).already_found == (old(self).already_found || (
            old(self).selection@ is Tag && accepts(old(self).selection@, index as int, *block))),
            match r {
                Ok(taken) => {
                    &&& taken == accepts(old(self).selection@, index as int, *block)
                    &&& !(wants_exactly_one(old(self).selection@) && taken
                        && old(self).already_found)
                },
                Err(e) => {
                    &&& wants_exactly_one(old(self).selection@)
                    &&& accepts(old(self).selection@, index as int, *block)
                    &&& old(self).already_found
                    &&& e@ == ExtractErrorView::DuplicateTag(wanted_tag(old(self).selection@))
                },
            },
    {
        match &self.selection {
            Selection::All => Ok(true),
            Selection::Nth(k) => Ok(index == *k),
            Selection::Tag { tag, exactly_one } => {
                let found = match &block.tag {
                    Some(t) => *t == *tag,
                    None => false,
                };
                if found && *exactly_one && self.already_found {
                    return Err(ExtractError::DuplicateTag { tag: tag.clone() });
                }
                let was_found = self.already_found;
                self.already_found = was_found || found;
                Ok(found)
            },
        }
    }
}

} // verus!
