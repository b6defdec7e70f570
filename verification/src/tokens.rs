use vstd::prelude::*;

use crate::error::TokenPart;

verus! {

/// A piece of generated text that must split into Rust tokens.
pub struct TokenCheck {
    /// Which piece this is.
    pub part: TokenPart,
    /// The text itself.
    pub text: String,
}

/// The mathematical value of a [`TokenCheck`].
pub open spec fn check_view(c: TokenCheck) -> (TokenPart, Seq<char>) {
    (c.part, c.text@)
}

/// Whether proc_macro2's own lexer (its fallback `TokenStream::from_str_checked`)
/// accepts `text`.
pub uninterp spec fn fallback_lexes(text: Seq<char>) -> bool;

/// Whether every text of `checks` is accepted by proc_macro2's own lexer.
pub open spec fn all_lex(checks: Seq<(crate::error::TokenPart, Seq<char>)>) -> bool {
    forall|j: int| 0 <= j < checks.len() ==> fallback_lexes(#[trigger] checks[j].1)
}

/// Asks `proc_macro2::TokenStream::from_str` whether `text` splits into Rust
/// tokens (`true` where it returns `Ok`).
///
/// Outside a procedural macro proc_macro2's own lexer decides; inside one,
/// proc_macro2 first runs that same lexer and returns `Err` where it rejects
/// the text, and only then asks the compiler's lexer. So a rejection by
/// proc_macro2's own lexer (a function of the text alone) means `false`, in
/// every setting. Where that lexer accepts, what the compiler says is not
/// stated.
#[verifier::external_body]
fn splits_into_tokens(text: &str) -> (r: bool)
    ensures
        !fallback_lexes(text@) ==> !r,
{
    text.parse::<proc_macro2::TokenStream>().is_ok()
}

/// Lexes the texts of `checks` in order and gives the index of the first one
/// that does not split into Rust tokens; `None` where all of them do (so
/// always `None` where there is nothing to check).
pub fn first_rejected(checks: &Vec<TokenCheck>) -> (r: Option<usize>)
    ensures
        r matches Some(i) ==> i < checks.len(),
        r matches Some(i) ==> forall|j: int|
            0 <= j < i ==> fallback_lexes(#[trigger] checks@[j].text@),
        r is None ==> forall|j: int| 0 <= j < checks.len() ==> fallback_lexes(#[trigger] checks@[j].text@),
        checks.len() == 0 ==> r is None,
{
    let n = checks.len();
    for i in 0..n
        invariant
            n == checks.len(),
            forall|j: int| 0 <= j < i ==> fallback_lexes(#[trigger] checks@[j].text@),
    {
        if !splits_into_tokens(checks[i].text.as_str()) {
            return Some(i);
        }
    }
    None
}

} // verus!
