use vstd::prelude::*;
use vstd::string::StringExecFns;

use crate::error::{result_view, ExtractError, ExtractErrorView, TokenPart};
use crate::model::{
    code_blocks, code_blocks_of, extended_block, extended_text, extended_texts, include_line,
    include_line_source, CodeBlock, Config, Readme,
};
use crate::select::{
    chosen, has_tag, law_all_selects_every_block, law_nth_selects_one_block,
    law_tag_selects_tagged_blocks, lemma_chosen_prefix, selected, wanted_tag, wants_exactly_one,
    Selection, SelectionView, Selector,
};
use crate::tokens::{all_lex, check_view, fallback_lexes, first_rejected, TokenCheck};

verus! {

/// What an extraction produces once the texts of `checks` are known to split
/// into Rust tokens: the checks are made in order, the first that fails is
/// the error, and where none fails the result is `outcome`.
pub struct Plan {
    pub checks: Vec<TokenCheck>,
    pub outcome: Result<String, ExtractError>,
}

/// The mathematical value of a [`Plan`].
pub struct PlanView {
    pub checks: Seq<(TokenPart, Seq<char>)>,
    pub outcome: Result<Seq<char>, ExtractErrorView>,
}

impl View for Plan {
    type V = PlanView;

    open spec fn view(&self) -> PlanView {
        PlanView {
            checks: self.checks@.map_values(|c: TokenCheck| check_view(c)),
            outcome: result_view(self.outcome),
        }
    }
}

/// The checks for blocks: the code of each block, then its extended text.
pub open spec fn block_checks(config: Config, blocks: Seq<CodeBlock>) -> Seq<(TokenPart, Seq<char>)>
    decreases blocks.len(),
{
    if blocks.len() == 0 {
        Seq::empty()
    } else {
        block_checks(config, blocks.drop_last()) + seq![
            (TokenPart::CodeBlock, blocks.last().code@),
            (TokenPart::ExtendedBlock, extended_text(config, blocks.last())),
        ]
    }
}

/// The generated text for `blocks` of `readme`: the constant that loads the
/// markdown file, the start prefix, every block extended, the final suffix.
pub open spec fn generated(config: Config, readme: Readme, blocks: Seq<CodeBlock>) -> Seq<char> {
    include_line(readme.markdown_file_path@) + config.start_prefix@ + extended_texts(config, blocks)
        + config.final_suffix@
}

/// The plan for extracting the code blocks of `readme` that `sel` selects,
/// after `prefix`.
pub open spec fn planned(prefix: Seq<char>, config: Config, readme: Readme, sel: SelectionView) -> PlanView {
    let s = selected(sel, code_blocks_of(readme));
    if wants_exactly_one(sel) && s.len() >= 2 {
        PlanView {
            checks: block_checks(config, s.take(1)),
            outcome: Err(ExtractErrorView::DuplicateTag(wanted_tag(sel))),
        }
    } else {
        let g = generated(config, readme, s);
        PlanView {
            checks: block_checks(config, s).push((TokenPart::WholeOutput, g)),
            outcome: Ok(prefix + g),
        }
    }
}

/// The result of a plan when the check at `rejected` is the first whose text
/// does not split into tokens (`None`: no check failed).
pub open spec fn concluded(plan: PlanView, rejected: Option<usize>) -> Result<Seq<char>, ExtractErrorView> {
    match rejected {
        Some(i) => Err(ExtractErrorView::InvalidTokens(plan.checks[i as int].0, plan.checks[i as int].1)),
        None => plan.outcome,
    }
}

/// Whether `r` is a result that the plan can have: its outcome, where
/// proc_macro2's own lexer accepts every checked text; or the error for one
/// of its checks, where that lexer accepts every text checked before it.
pub open spec fn is_outcome_of(plan: PlanView, r: Result<Seq<char>, ExtractErrorView>) -> bool {
    ||| r == plan.outcome && all_lex(plan.checks)
    ||| exists|i: int|
        0 <= i < plan.checks.len() && all_lex(plan.checks.take(i)) && r == Err::<
            Seq<char>,
            ExtractErrorView,
        >(ExtractErrorView::InvalidTokens(plan.checks[i].0, plan.checks[i].1))
}

/// The results that extracting the blocks that `sel` selects can have: where
/// exactly one block must carry the wanted tag and none does, that error;
/// otherwise a result of the plan.
pub open spec fn may_produce(
    prefix: Seq<char>,
    config: Config,
    readme: Readme,
    sel: SelectionView,
    r: Result<Seq<char>, ExtractErrorView>,
) -> bool {
    if wants_exactly_one(sel) && selected(sel, code_blocks_of(readme)).len() == 0 {
        r == Err::<Seq<char>, ExtractErrorView>(ExtractErrorView::TagNotFound(wanted_tag(sel)))
    } else {
        is_outcome_of(planned(prefix, config, readme, sel), r)
    }
}

proof fn lemma_block_checks_push(config: Config, blocks: Seq<CodeBlock>, b: CodeBlock)
    ensures
        block_checks(config, blocks.push(b)) == block_checks(config, blocks) + seq![
            (TokenPart::CodeBlock, b.code@),
            (TokenPart::ExtendedBlock, extended_text(config, b)),
        ],
        extended_texts(config, blocks.push(b)) == extended_texts(config, blocks) + extended_text(
            config,
            b,
        ),
{
    assert(blocks.push(b).drop_last() =~= blocks);
}

/// The result of a plan, given the index of the first check that failed.
pub fn conclude(plan: Plan, rejected: Option<usize>) -> (r: Result<String, ExtractError>)
    requires
        rejected matches Some(i) ==> i < plan.checks.len(),
    ensures
        result_view(r) == concluded(plan@, rejected),
{
    match rejected {
        Some(i) => {
            let c = &plan.checks[i];
            Err(ExtractError::InvalidTokens { part: c.part, source: c.text.clone() })
        },
        None => plan.outcome,
    }
}

/// Makes the checks of a plan and gives its result.
pub fn check_tokens(plan: Plan) -> (r: Result<String, ExtractError>)
    ensures
        is_outcome_of(plan@, result_view(r)),
        plan@.checks.len() == 0 ==> result_view(r) == plan@.outcome,
{
    let rejected = first_rejected(&plan.checks);
    let ghost p = plan@;
    let ghost cs = plan.checks@;
    assert(forall|j: int| 0 <= j < cs.len() ==> #[trigger] p.checks[j].1 == cs[j].text@);
    let r = conclude(plan, rejected);
    proof {
        if let Some(i) = rejected {
            assert(0 <= i < p.checks.len());
            assert forall|j: int| 0 <= j < p.checks.take(i as int).len() implies fallback_lexes(
                #[trigger] p.checks.take(i as int)[j].1,
            ) by {
                assert(p.checks.take(i as int)[j] == p.checks[j]);
                assert(fallback_lexes(cs[j].text@));
            }
            assert(all_lex(p.checks.take(i as int)));
            assert(result_view(r) == Err::<Seq<char>, ExtractErrorView>(
                ExtractErrorView::InvalidTokens(p.checks[i as int].0, p.checks[i as int].1),
            ));
        } else {
            assert forall|j: int| 0 <= j < p.checks.len() implies fallback_lexes(
                #[trigger] p.checks[j].1,
            ) by {
                assert(fallback_lexes(cs[j].text@));
            }
        }
    }
    r
}

/// The constant that makes the compiler load the configuration file at
/// `path` (so that the crate is rebuilt when the file changes). It is an
/// error where the constant does not split into Rust tokens.
pub fn load_file_to_const(path: &str) -> (r: Result<String, ExtractError>)
    ensures
        is_outcome_of(
            PlanView {
                checks: seq![(TokenPart::ConfigFileConstant, include_line(path@))],
                outcome: Ok(include_line(path@)),
            },
            result_view(r),
        ),
        r matches Ok(s) ==> crate::model::loads_file(s@, path@),
{
    let source = include_line_source(path);
    let mut checks: Vec<TokenCheck> = Vec::new();
    checks.push(TokenCheck { part: TokenPart::ConfigFileConstant, text: source.clone() });
    let plan = Plan { checks, outcome: Ok(source) };
    assert(plan@.checks =~= seq![(TokenPart::ConfigFileConstant, include_line(path@))]);
    check_tokens(plan)
}

/// Walks the code blocks of `readme`, lets `selector` pick the blocks, and
/// plans the output: `prefix`, the constant that loads the markdown file,
/// the start prefix, each picked block wrapped in its headers, the final
/// suffix.
pub fn impl_filtered(prefix: &str, config: &Config, readme: &Readme, selector: &mut Selector) -> (p: Plan)
    requires
        !old(selector).already_found,
    ensures
        p@ == planned(prefix@, *config, *readme, old(selector).selection@),
        final(selector).selection == old(selector).selection,
        old(selector).selection@ is Tag ==> final(selector).already_found == (selected(
            old(selector).selection@,
            code_blocks_of(*readme),
        ).len() > 0),
{
    let ghost sel = selector.selection@;
    let ghost sel0 = selector.selection;
    let blocks = code_blocks(readme);
    let ghost cbs = blocks@;
    let n = blocks.len();
    let mut checks: Vec<TokenCheck> = Vec::new();
    let mut out = include_line_source(readme.markdown_file_path.as_str());
    out.append(config.start_prefix.as_str());
    let ghost f = |c: TokenCheck| check_view(c);
    let mut i: usize = 0;
    while i < n
        invariant
            n == cbs.len(),
            blocks@ == cbs,
            cbs == code_blocks_of(*readme),
            0 <= i <= n,
            selector.selection == sel0,
            sel0 == old(selector).selection,
            sel == sel0@,
            f == (|c: TokenCheck| check_view(c)),
            sel is Tag ==> selector.already_found == (chosen(sel, cbs, i as int).len() > 0),
            !(sel is Tag) ==> !selector.already_found,
            wants_exactly_one(sel) ==> chosen(sel, cbs, i as int).len() <= 1,
            checks@.map_values(f) == block_checks(*config, chosen(sel, cbs, i as int)),
            out@ == include_line(readme.markdown_file_path@) + config.start_prefix@
                + extended_texts(*config, chosen(sel, cbs, i as int)),
        decreases n - i,
    {
        let ghost c = chosen(sel, cbs, i as int);
        let block = &blocks[i];
        match selector.accept(i, block) {
            Err(e) => {
                proof {
                    lemma_chosen_prefix(sel, cbs, i as int + 1, n as int);
                    lemma_chosen_prefix(sel, cbs, i as int, n as int);
                    let s = selected(sel, cbs);
                    assert(chosen(sel, cbs, i as int + 1) == c.push(*block));
                    assert(s.take(2) == chosen(sel, cbs, i as int + 1));
                    assert(s.take(1) == c);
                }
                return Plan { checks, outcome: Err(e) };
            },
            Ok(false) => {},
            Ok(true) => {
                let ghost before = checks@;
                checks.push(TokenCheck { part: TokenPart::CodeBlock, text: block.code.clone() });
                let text = extended_block(config, block);
                out.append(text.as_str());
                checks.push(TokenCheck { part: TokenPart::ExtendedBlock, text });
                proof {
                    lemma_block_checks_push(*config, c, *block);
                    assert(checks@ == before.push(checks@[before.len() as int]).push(
                        checks@[before.len() as int + 1],
                    ));
                    assert(checks@.map_values(f) =~= before.map_values(f) + seq![
                        (TokenPart::CodeBlock, block.code@),
                        (TokenPart::ExtendedBlock, extended_text(*config, *block)),
                    ]);
                }
            },
        }
        i = i + 1;
    }
    let ghost s = selected(sel, cbs);
    out.append(config.final_suffix.as_str());
    let ghost before = checks@;
    checks.push(TokenCheck { part: TokenPart::WholeOutput, text: out.clone() });
    assert(checks@.map_values(f) =~= before.map_values(f).push(
        (TokenPart::WholeOutput, generated(*config, *readme, s)),
    ));
    let mut full = prefix.to_owned();
    full.append(out.as_str());
    Plan { checks, outcome: Ok(full) }
}

/// Extracts the code blocks that `selector` picks from `readme`, after
/// `prefix`, and checks that every piece splits into Rust tokens.
pub fn selected_by_config_content_and_span(
    prefix: &str,
    config: &Config,
    readme: &Readme,
    selector: &mut Selector,
) -> (r: Result<String, ExtractError>)
    requires
        !old(selector).already_found,
    ensures
        is_outcome_of(
            planned(prefix@, *config, *readme, old(selector).selection@),
            result_view(r),
        ),
        final(selector).selection == old(selector).selection,
        old(selector).selection@ is Tag ==> final(selector).already_found == (selected(
            old(selector).selection@,
            code_blocks_of(*readme),
        ).len() > 0),
{
    let plan = impl_filtered(prefix, config, readme, selector);
    check_tokens(plan)
}

/// Extracts every code block of `readme`, after `prefix`.
pub fn all_by_config_content_and_span(prefix: &str, config: &Config, readme: &Readme) -> (r: Result<
    String,
    ExtractError,
>)
    ensures
        may_produce(prefix@, *config, *readme, SelectionView::All, result_view(r)),
{
    let mut selector = Selector::new(Selection::All);
    selected_by_config_content_and_span(prefix, config, readme, &mut selector)
}

/// Extracts the code block at `code_block_index` (0-based, among the code
/// blocks) of `readme`, after `prefix`; no block where there are not that
/// many.
pub fn nth_by_config_content_and_span(
    prefix: &str,
    config: &Config,
    readme: &Readme,
    code_block_index: usize,
) -> (r: Result<String, ExtractError>)
    ensures
        may_produce(
            prefix@,
            *config,
            *readme,
            SelectionView::Nth(code_block_index as int),
            result_view(r),
        ),
{
    let mut selector = Selector::new(Selection::Nth(code_block_index));
    selected_by_config_content_and_span(prefix, config, readme, &mut selector)
}

/// Extracts the code blocks of `readme` whose tag is `tag`, after `prefix`.
/// With `exactly_one`, it is an error where no block or more than one block
/// carries the tag.
pub fn tag_by_config_content_and_span(
    prefix: &str,
    config: &Config,
    readme: &Readme,
    tag: &str,
    exactly_one: bool,
) -> (r: Result<String, ExtractError>)
    ensures
        may_produce(
            prefix@,
            *config,
            *readme,
            SelectionView::Tag(tag@, exactly_one),
            result_view(r),
        ),
{
    let mut selector = Selector::new(Selection::Tag { tag: tag.to_owned(), exactly_one });
    let result = selected_by_config_content_and_span(prefix, config, readme, &mut selector);
    if exactly_one && !selector.already_found {
        return Err(ExtractError::TagNotFound { tag: tag.to_owned() });
    }
    result
}

/// Where no checked text is rejected, extracting all blocks gives the prefix,
/// the constant that loads the markdown file, the start prefix, every code
/// block of the README wrapped in its headers, in order, and the final suffix.
pub proof fn law_all_without_rejection(prefix: Seq<char>, config: Config, readme: Readme)
    ensures
        concluded(planned(prefix, config, readme, SelectionView::All), None) == Ok::<
            Seq<char>,
            ExtractErrorView,
        >(
            prefix + include_line(readme.markdown_file_path@) + config.start_prefix@
                + extended_texts(config, code_blocks_of(readme)) + config.final_suffix@,
        ),
{
    law_all_selects_every_block(code_blocks_of(readme));
    let e = extended_texts(config, code_blocks_of(readme));
    assert(prefix + (include_line(readme.markdown_file_path@) + config.start_prefix@ + e
        + config.final_suffix@) =~= prefix + include_line(readme.markdown_file_path@)
        + config.start_prefix@ + e + config.final_suffix@);
}

/// Where no checked text is rejected, extracting the block at index `k` gives
/// the prefix, the constant that loads the markdown file, the start prefix,
/// the `k`-th code block wrapped in its headers (nothing where there is no
/// such block), and the final suffix.
pub proof fn law_nth_without_rejection(prefix: Seq<char>, config: Config, readme: Readme, k: int)
    ensures
        concluded(planned(prefix, config, readme, SelectionView::Nth(k)), None) == Ok::<
            Seq<char>,
            ExtractErrorView,
        >(
            prefix + include_line(readme.markdown_file_path@) + config.start_prefix@ + (if 0 <= k
                < code_blocks_of(readme).len() {
                extended_text(config, code_blocks_of(readme)[k])
            } else {
                Seq::<char>::empty()
            }) + config.final_suffix@,
        ),
{
    let cbs = code_blocks_of(readme);
    law_nth_selects_one_block(cbs, k);
    let empty = Seq::<CodeBlock>::empty();
    assert(extended_texts(config, empty) == Seq::<char>::empty());
    let e = if 0 <= k < cbs.len() {
        extended_text(config, cbs[k])
    } else {
        Seq::<char>::empty()
    };
    if 0 <= k < cbs.len() {
        let one = seq![cbs[k]];
        assert(one.drop_last() =~= empty);
        assert(one.last() == cbs[k]);
        assert(extended_texts(config, one) == extended_texts(config, empty) + extended_text(
            config,
            cbs[k],
        ));
        assert(extended_texts(config, one) =~= e);
    }
    assert(extended_texts(config, selected(SelectionView::Nth(k), cbs)) == e);
    assert(prefix + (include_line(readme.markdown_file_path@) + config.start_prefix@ + e
        + config.final_suffix@) =~= prefix + include_line(readme.markdown_file_path@)
        + config.start_prefix@ + e + config.final_suffix@);
}

/// Where no checked text is rejected and any number of blocks may carry the
/// tag, extracting by the tag gives the prefix, the constant that loads the
/// markdown file, the start prefix, the code blocks that carry the tag
/// wrapped in their headers, in order, and the final suffix.
pub proof fn law_any_tag_without_rejection(
    prefix: Seq<char>,
    config: Config,
    readme: Readme,
    tag: Seq<char>,
)
    ensures
        concluded(planned(prefix, config, readme, SelectionView::Tag(tag, false)), None) == Ok::<
            Seq<char>,
            ExtractErrorView,
        >(
            prefix + include_line(readme.markdown_file_path@) + config.start_prefix@
                + extended_texts(
                config,
                code_blocks_of(readme).filter(|b: CodeBlock| has_tag(b, tag)),
            ) + config.final_suffix@,
        ),
{
    law_tag_selects_tagged_blocks(code_blocks_of(readme), tag, false);
    let e = extended_texts(config, code_blocks_of(readme).filter(|b: CodeBlock| has_tag(b, tag)));
    assert(prefix + (include_line(readme.markdown_file_path@) + config.start_prefix@ + e
        + config.final_suffix@) =~= prefix + include_line(readme.markdown_file_path@)
        + config.start_prefix@ + e + config.final_suffix@);
}

/// Where an extraction succeeds, its output is the prefix, the constant that
/// loads the markdown file, the start prefix, each selected block in order
/// wrapped in its headers, and the final suffix.
pub proof fn law_output_layout(
    prefix: Seq<char>,
    config: Config,
    readme: Readme,
    sel: SelectionView,
    out: Seq<char>,
)
    requires
        may_produce(prefix, config, readme, sel, Ok(out)),
    ensures
        out == prefix + include_line(readme.markdown_file_path@) + config.start_prefix@
            + extended_texts(config, selected(sel, code_blocks_of(readme)))
            + config.final_suffix@,
{
}

/// Where an extraction succeeds, proc_macro2's own lexer accepts the code of
/// every selected block, every selected block wrapped in its headers, and
/// the whole generated text.
pub proof fn law_success_means_every_piece_lexes(
    prefix: Seq<char>,
    config: Config,
    readme: Readme,
    sel: SelectionView,
    out: Seq<char>,
)
    requires
        may_produce(prefix, config, readme, sel, Ok(out)),
    ensures
        forall|i: int|
            0 <= i < selected(sel, code_blocks_of(readme)).len() ==> fallback_lexes(
                #[trigger] selected(sel, code_blocks_of(readme))[i].code@,
            ) && fallback_lexes(extended_text(config, selected(sel, code_blocks_of(readme))[i])),
        fallback_lexes(generated(config, readme, selected(sel, code_blocks_of(readme)))),
{
    let s = selected(sel, code_blocks_of(readme));
    let p = planned(prefix, config, readme, sel);
    let bc = block_checks(config, s);
    law_every_block_is_checked(config, s);
    assert(p.checks == bc.push((TokenPart::WholeOutput, generated(config, readme, s))));
    assert(all_lex(p.checks));
    assert(p.checks[bc.len() as int].1 == generated(config, readme, s));
    assert forall|i: int| 0 <= i < s.len() implies fallback_lexes(#[trigger] s[i].code@)
        && fallback_lexes(extended_text(config, s[i])) by {
        assert(p.checks[2 * i] == bc[2 * i]);
        assert(p.checks[2 * i + 1] == bc[2 * i + 1]);
        assert(fallback_lexes(p.checks[2 * i].1));
        assert(fallback_lexes(p.checks[2 * i + 1].1));
    }
}

/// Selecting by a tag that any number of blocks may carry never fails for the
/// number of blocks that carry it.
pub proof fn law_any_tag_allows_any_count(
    prefix: Seq<char>,
    config: Config,
    readme: Readme,
    tag: Seq<char>,
    r: Result<Seq<char>, ExtractErrorView>,
)
    requires
        may_produce(prefix, config, readme, SelectionView::Tag(tag, false), r),
    ensures
        !(r matches Err(ExtractErrorView::DuplicateTag(_))),
        !(r matches Err(ExtractErrorView::TagNotFound(_))),
{
}

/// Selecting by a tag that exactly one block must carry fails where no block
/// carries it (with that error), fails where several do, and succeeds only
/// with a single tagged block.
pub proof fn law_exactly_one_tag(
    prefix: Seq<char>,
    config: Config,
    readme: Readme,
    tag: Seq<char>,
    r: Result<Seq<char>, ExtractErrorView>,
)
    requires
        may_produce(prefix, config, readme, SelectionView::Tag(tag, true), r),
    ensures
        selected(SelectionView::Tag(tag, true), code_blocks_of(readme)).len() == 0 ==> r == Err::<
            Seq<char>,
            ExtractErrorView,
        >(ExtractErrorView::TagNotFound(tag)),
        selected(SelectionView::Tag(tag, true), code_blocks_of(readme)).len() >= 2 ==> r is Err,
        r is Ok ==> selected(SelectionView::Tag(tag, true), code_blocks_of(readme)).len() == 1,
{
}

/// An index past the last code block selects no block: the output holds the
/// prefix, the constant that loads the markdown file, the start prefix and
/// the final suffix alone.
pub proof fn law_nth_past_the_end_is_empty(
    prefix: Seq<char>,
    config: Config,
    readme: Readme,
    k: int,
    out: Seq<char>,
)
    requires
        k >= code_blocks_of(readme).len(),
        may_produce(prefix, config, readme, SelectionView::Nth(k), Ok(out)),
    ensures
        out == prefix + include_line(readme.markdown_file_path@) + config.start_prefix@
            + config.final_suffix@,
{
    law_nth_selects_one_block(code_blocks_of(readme), k);
    law_output_layout(prefix, config, readme, SelectionView::Nth(k), out);
    assert(extended_texts(config, Seq::<CodeBlock>::empty()) == Seq::<char>::empty());
    assert(prefix + include_line(readme.markdown_file_path@) + config.start_prefix@
        + Seq::<char>::empty() =~= prefix + include_line(readme.markdown_file_path@)
        + config.start_prefix@);
}

/// Every block in a list of blocks is checked twice, in order: its code as
/// written, then its extended text.
pub proof fn law_every_block_is_checked(config: Config, blocks: Seq<CodeBlock>)
    ensures
        block_checks(config, blocks).len() == 2 * blocks.len(),
        forall|i: int|
            #![trigger blocks[i]]
            0 <= i < blocks.len() ==> block_checks(config, blocks)[2 * i] == (
                TokenPart::CodeBlock,
                blocks[i].code@,
            ) && block_checks(config, blocks)[2 * i + 1] == (
                TokenPart::ExtendedBlock,
                extended_text(config, blocks[i]),
            ),
{
    lemma_block_checks_len(config, blocks);
    assert forall|i: int| #![trigger blocks[i]] 0 <= i < blocks.len() implies block_checks(
        config,
        blocks,
    )[2 * i] == (TokenPart::CodeBlock, blocks[i].code@) && block_checks(config, blocks)[2 * i
        + 1] == (TokenPart::ExtendedBlock, extended_text(config, blocks[i])) by {
        lemma_block_checks_at(config, blocks, i);
    }
}

/// One step of `block_checks`: the checks of the last block come last.
proof fn lemma_block_checks_step(config: Config, blocks: Seq<CodeBlock>)
    requires
        blocks.len() > 0,
    ensures
        block_checks(config, blocks) == block_checks(config, blocks.drop_last()) + seq![
            (TokenPart::CodeBlock, blocks.last().code@),
            (TokenPart::ExtendedBlock, extended_text(config, blocks.last())),
        ],
{
}

proof fn lemma_block_checks_len(config: Config, blocks: Seq<CodeBlock>)
    ensures
        block_checks(config, blocks).len() == 2 * blocks.len(),
    decreases blocks.len(),
{
    if blocks.len() > 0 {
        lemma_block_checks_step(config, blocks);
        lemma_block_checks_len(config, blocks.drop_last());
    }
}

proof fn lemma_block_checks_at(config: Config, blocks: Seq<CodeBlock>, i: int)
    requires
        0 <= i < blocks.len(),
    ensures
        block_checks(config, blocks)[2 * i] == (TokenPart::CodeBlock, blocks[i].code@),
        block_checks(config, blocks)[2 * i + 1] == (
            TokenPart::ExtendedBlock,
            extended_text(config, blocks[i]),
        ),
    decreases blocks.len(),
{
    let t = blocks.drop_last();
    let bt = block_checks(config, t);
    lemma_block_checks_step(config, blocks);
    lemma_block_checks_len(config, t);
    if i < t.len() {
        lemma_block_checks_at(config, t, i);
        assert(t[i] == blocks[i]);
    }
}

/// Without tag pass-through, a block's extended text does not depend on its
/// tag; with it, the tag stands between the top prefix and the tag suffix.
pub proof fn law_tags_pass_through_only_when_configured(config: Config, a: CodeBlock, b: CodeBlock)
    ensures
        !config.pass_through_tags && a.code@ == b.code@ ==> extended_text(config, a)
            == extended_text(config, b),
        config.pass_through_tags ==> (a.tag matches Some(t) ==> extended_text(config, a)
            == config.code_headers.top_prefix@ + t@ + config.code_headers.tag_suffix@ + a.code@
            + config.code_headers.end_suffix@),
{
}

} // verus!
