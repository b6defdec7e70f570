use vstd::prelude::*;
use vstd::string::StringExecFns;

verus! {

/// Which piece of generated text failed to split into Rust tokens.
#[derive(Clone, Copy, Debug, PartialEq, Eq, Structural)]
pub enum TokenPart {
    /// The code of a block as it stands in the README.
    CodeBlock,
    /// A block wrapped in its configured prefix, tag and suffix.
    ExtendedBlock,
    /// The whole generated output.
    WholeOutput,
    /// The constant that loads the configuration file.
    ConfigFileConstant,
}

/// Errors of code block extraction.
#[derive(Debug)]
pub enum ExtractError {
    /// The index given for a block is not a decimal `usize`.
    InvalidIndex { literal: String },
    /// A piece of generated text does not form Rust tokens.
    InvalidTokens { part: TokenPart, source: String },
    /// More than one block carries the tag that was asked for exactly once.
    DuplicateTag { tag: String },
    /// No block carries the tag that was asked for exactly once.
    TagNotFound { tag: String },
}

/// The mathematical value of an [`ExtractError`]: its texts as character sequences.
pub enum ExtractErrorView {
    InvalidIndex(Seq<char>),
    InvalidTokens(TokenPart, Seq<char>),
    DuplicateTag(Seq<char>),
    TagNotFound(Seq<char>),
}

impl View for ExtractError {
    type V = ExtractErrorView;

    open spec fn view(&self) -> ExtractErrorView {
        match self {
            ExtractError::InvalidIndex { literal } => ExtractErrorView::InvalidIndex(literal@),
            ExtractError::InvalidTokens { part, source } => ExtractErrorView::InvalidTokens(
                *part,
                source@,
            ),
            ExtractError::DuplicateTag { tag } => ExtractErrorView::DuplicateTag(tag@),
            ExtractError::TagNotFound { tag } => ExtractErrorView::TagNotFound(tag@),
        }
    }
}

/// The view of a result whose value is a `String`.
pub open spec fn result_view(r: Result<String, ExtractError>) -> Result<Seq<char>, ExtractErrorView> {
    match r {
        Ok(s) => Ok(s@),
        Err(e) => Err(e@),
    }
}

/// How the message of an error names a token part.
pub open spec fn part_description(part: TokenPart) -> Seq<char> {
    match part {
        TokenPart::CodeBlock => "Code block"@,
        TokenPart::ExtendedBlock => "Extended code block: Prefix, tag, after_tag, the original code and suffix."@,
        TokenPart::WholeOutput => "Whole output: start_prefix, all code blocks extended, and final_suffix."@,
        TokenPart::ConfigFileConstant => "Configuration file constant"@,
    }
}

/// The message that reports an error.
pub open spec fn message_text(e: ExtractErrorView) -> Seq<char> {
    match e {
        ExtractErrorView::InvalidIndex(literal) =>
            "Expecting a non-negative (usize) index literal, but received: "@ + literal,
        ExtractErrorView::InvalidTokens(TokenPart::ConfigFileConstant, source) =>
            "the TOML config file path is not well formed, or it failed to parse: "@ + source,
        ExtractErrorView::InvalidTokens(part, source) =>
            "code_block_extractor failed to parse: "@ + part_description(part)
                + "\nunpaired or incorrect Rust tokens in: "@ + source,
        ExtractErrorView::DuplicateTag(tag) =>
            "already found one code block with the same tag: "@ + tag,
        ExtractErrorView::TagNotFound(tag) =>
            "did not find a code block with the given tag: "@ + tag,
    }
}

fn part_description_str(part: TokenPart) -> (r: &'static str)
    ensures
        r@ == part_description(part),
{
    match part {
        TokenPart::CodeBlock => "Code block",
        TokenPart::ExtendedBlock => "Extended code block: Prefix, tag, after_tag, the original code and suffix.",
        TokenPart::WholeOutput => "Whole output: start_prefix, all code blocks extended, and final_suffix.",
        TokenPart::ConfigFileConstant => "Configuration file constant",
    }
}

impl ExtractError {
    /// The human-readable message of this error.
    pub fn message(&self) -> (r: String)
        ensures
            r@ == message_text(self@),
    {
        match self {
            ExtractError::InvalidIndex { literal } => {
                let mut m = String::new();
                m.append("Expecting a non-negative (usize) index literal, but received: ");
                m.append(literal.as_str());
                m
            },
            ExtractError::InvalidTokens { part: TokenPart::ConfigFileConstant, source } => {
                let mut m = String::new();
                m.append("the TOML config file path is not well formed, or it failed to parse: ");
                m.append(source.as_str());
                m
            },
            ExtractError::InvalidTokens { part, source } => {
                let mut m = String::new();
                m.append("code_block_extractor failed to parse: ");
                m.append(part_description_str(*part));
                m.append("\nunpaired or incorrect Rust tokens in: ");
                m.append(source.as_str());
                m
            },
            ExtractError::DuplicateTag { tag } => {
                let mut m = String::new();
                m.append("already found one code block with the same tag: ");
                m.append(tag.as_str());
                m
            },
            ExtractError::TagNotFound { tag } => {
                let mut m = String::new();
                m.append("did not find a code block with the given tag: ");
                m.append(tag.as_str());
                m
            },
        }
    }
}

} // verus!
