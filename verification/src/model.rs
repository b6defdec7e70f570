use vstd::prelude::*;
use vstd::string::{StrSliceExecFns, StringExecFns};

verus! {

/// The texts that wrap each selected code block.
pub struct CodeHeaders {
    /// Put before each block (and before its tag).
    pub top_prefix: String,
    /// Put after the tag of each block, right before its code.
    pub tag_suffix: String,
    /// Put after the code of each block.
    pub end_suffix: String,
}

/// The layout of the generated output, as the configuration gives it.
pub struct Config {
    /// Put once before all blocks.
    pub start_prefix: String,
    /// Put once after all blocks.
    pub final_suffix: String,
    /// Whether the tag of a block goes into the output.
    pub pass_through_tags: bool,
    /// The texts around each block.
    pub code_headers: CodeHeaders,
}

/// A fenced code block of the README.
pub struct CodeBlock {
    /// The code between the fences.
    pub code: String,
    /// The value given by `tag:` after the opening fence, if any.
    pub tag: Option<String>,
}

/// A block of the README after its preamble: a code block or anything else.
pub enum ReadmeBlock {
    Code(CodeBlock),
    Other,
}

/// A README as extracted: where it lies and its blocks after the preamble.
pub struct Readme {
    /// The path of the markdown file, as the generated code loads it.
    pub markdown_file_path: String,
    /// The blocks that follow the preamble, in order.
    pub blocks: Vec<ReadmeBlock>,
}

/// The code block that a README block is, if it is one.
pub open spec fn code_of(b: ReadmeBlock) -> Option<CodeBlock> {
    match b {
        ReadmeBlock::Code(c) => Some(c),
        ReadmeBlock::Other => None,
    }
}

/// The code blocks of a README, in order.
pub open spec fn code_blocks_of(readme: Readme) -> Seq<CodeBlock> {
    readme.blocks@.filter_map(|b: ReadmeBlock| code_of(b))
}

/// What the output holds of a block's tag.
pub open spec fn tag_text(config: Config, block: CodeBlock) -> Seq<char> {
    if config.pass_through_tags {
        match block.tag {
            Some(t) => t@,
            None => Seq::empty(),
        }
    } else {
        Seq::empty()
    }
}

/// A block wrapped in its prefix, tag, tag suffix and end suffix.
pub open spec fn extended_text(config: Config, block: CodeBlock) -> Seq<char> {
    config.code_headers.top_prefix@ + tag_text(config, block) + config.code_headers.tag_suffix@
        + block.code@ + config.code_headers.end_suffix@
}

/// The extended texts of blocks, one after the other.
pub open spec fn extended_texts(config: Config, blocks: Seq<CodeBlock>) -> Seq<char>
    decreases blocks.len(),
{
    if blocks.len() == 0 {
        Seq::empty()
    } else {
        extended_texts(config, blocks.drop_last()) + extended_text(config, blocks.last())
    }
}

/// How a character is written inside a Rust string literal: a backslash and
/// a double quote are escaped with a backslash, a carriage return (which may
/// not stand bare in a string literal) is written `\r`, any other character
/// stands as it is.
pub open spec fn escape_char(c: char) -> Seq<char> {
    if c == '\\' {
        seq!['\\', '\\']
    } else if c == '"' {
        seq!['\\', '"']
    } else if c == '\r' {
        seq!['\\', 'r']
    } else {
        seq![c]
    }
}

/// `text` written as the body of a Rust string literal.
pub open spec fn escaped(text: Seq<char>) -> Seq<char>
    decreases text.len(),
{
    if text.len() == 0 {
        Seq::empty()
    } else {
        escape_char(text[0]) + escaped(text.skip(1))
    }
}

/// The value of a Rust string literal whose body (between the quotes) is
/// `body`, for bodies whose only escapes are `\\`, `\"` and `\r`: `None`
/// where the body holds an unescaped `"` (the literal would end there), a
/// bare carriage return (which Rust refuses in a string literal) or another
/// escape.
pub open spec fn literal_value(body: Seq<char>) -> Option<Seq<char>>
    decreases body.len(),
{
    if body.len() == 0 {
        Some(Seq::empty())
    } else if body[0] == '\\' {
        if body.len() >= 2 && (body[1] == '\\' || body[1] == '"' || body[1] == 'r') {
            let c = if body[1] == 'r' {
                '\r'
            } else {
                body[1]
            };
            match literal_value(body.skip(2)) {
                Some(rest) => Some(seq![c] + rest),
                None => None,
            }
        } else {
            None
        }
    } else if body[0] == '"' || body[0] == '\r' {
        None
    } else {
        match literal_value(body.skip(1)) {
            Some(rest) => Some(seq![body[0]] + rest),
            None => None,
        }
    }
}

/// The text before the path in the constant that loads a file.
pub open spec fn include_head() -> Seq<char> {
    "const _: &str = ::std::include_str!(\""@
}

/// The text after the path in the constant that loads a file.
pub open spec fn include_tail() -> Seq<char> {
    "\");\n"@
}

/// The constant that makes the compiler load `path` (and rebuild when it
/// changes), the path written as a string literal.
pub open spec fn include_line(path: Seq<char>) -> Seq<char> {
    include_head() + escaped(path) + include_tail()
}

/// Whether `line` is the constant that loads the file `path`: the string
/// literal that it hands to `include_str!` has exactly `path` as its value.
pub open spec fn loads_file(line: Seq<char>, path: Seq<char>) -> bool {
    exists|body: Seq<char>|
        line == include_head() + body + include_tail() && literal_value(body) == Some(path)
}

/// Escaping one more character appends its escape.
proof fn lemma_escaped_push(text: Seq<char>, c: char)
    ensures
        escaped(text.push(c)) == escaped(text) + escape_char(c),
    decreases text.len(),
{
    if text.len() == 0 {
        assert(text.push(c).skip(1) =~= Seq::<char>::empty());
        assert(escaped(Seq::<char>::empty()) == Seq::<char>::empty());
        assert(escape_char(c) + Seq::<char>::empty() =~= Seq::<char>::empty() + escape_char(c));
    } else {
        lemma_escaped_push(text.skip(1), c);
        assert(text.push(c).skip(1) =~= text.skip(1).push(c));
        assert(text.push(c)[0] == text[0]);
        assert(escape_char(text[0]) + (escaped(text.skip(1)) + escape_char(c)) =~= (escape_char(
            text[0],
        ) + escaped(text.skip(1))) + escape_char(c));
    }
}

/// A text written as a string literal's body reads back as the text.
pub proof fn law_escaped_reads_back(text: Seq<char>)
    ensures
        literal_value(escaped(text)) == Some(text),
    decreases text.len(),
{
    if text.len() > 0 {
        law_escaped_reads_back(text.skip(1));
        let c = text[0];
        let e = escaped(text);
        let rest = escaped(text.skip(1));
        assert(e == escape_char(c) + rest);
        if c == '\\' || c == '"' || c == '\r' {
            assert(e[0] == '\\');
            assert(e[1] == c || (c == '\r' && e[1] == 'r'));
            assert(e.skip(2) =~= rest);
        } else {
            assert(e[0] == c);
            assert(e.skip(1) =~= rest);
        }
        assert(seq![c] + text.skip(1) =~= text);
    }
}

/// The constant for a path loads exactly that path.
pub proof fn law_include_line_loads_the_path(path: Seq<char>)
    ensures
        loads_file(include_line(path), path),
{
    law_escaped_reads_back(path);
    assert(include_line(path) == include_head() + escaped(path) + include_tail());
}

impl CodeBlock {
    /// A copy of this block.
    pub fn duplicate(&self) -> (r: CodeBlock)
        ensures
            r == *self,
    {
        let tag = match &self.tag {
            Some(t) => Some(t.clone()),
            None => None,
        };
        CodeBlock { code: self.code.clone(), tag }
    }
}

/// The code blocks among the README's blocks, in order.
pub fn code_blocks(readme: &Readme) -> (r: Vec<CodeBlock>)
    ensures
        r@ == code_blocks_of(*readme),
{
    let ghost f = |b: ReadmeBlock| code_of(b);
    let mut r: Vec<CodeBlock> = Vec::new();
    let n = readme.blocks.len();
    for i in 0..n
        invariant
            n == readme.blocks@.len(),
            f == (|b: ReadmeBlock| code_of(b)),
            r@ == readme.blocks@.take(i as int).filter_map(f),
    {
        proof {
            readme.blocks@.lemma_filter_map_take_succ(f, i as int);
        }
        match &readme.blocks[i] {
            ReadmeBlock::Code(c) => {
                r.push(c.duplicate());
            },
            ReadmeBlock::Other => {},
        }
    }
    assert(readme.blocks@.take(n as int) =~= readme.blocks@);
    r
}

/// The tag text of a block as it goes into the output.
fn tag_str<'a>(config: &Config, block: &'a CodeBlock) -> (r: &'a str)
    ensures
        r@ == tag_text(*config, *block),
{
    proof {
        reveal_strlit("");
    }
    if config.pass_through_tags {
        match &block.tag {
            Some(t) => t.as_str(),
            None => "",
        }
    } else {
        ""
    }
}

/// The constant that makes the compiler load `path`, the path written as a
/// string literal.
pub fn include_line_source(path: &str) -> (r: String)
    ensures
        r@ == include_line(path@),
        loads_file(r@, path@),
{
    let mut r = String::new();
    r.append("const _: &str = ::std::include_str!(\"");
    let ghost head = r@;
    let n = path.unicode_len();
    for i in 0..n
        invariant
            n == path@.len(),
            head == include_head(),
            r@ == head + escaped(path@.take(i as int)),
    {
        let c = path.get_char(i);
        proof {
            assert(path@.take(i + 1) =~= path@.take(i as int).push(c));
            lemma_escaped_push(path@.take(i as int), c);
        }
        if c == '\\' {
            r.append("\\\\");
            proof {
                reveal_strlit("\\\\");
            }
            assert("\\\\"@ =~= escape_char(c));
        } else if c == '"' {
            r.append("\\\"");
            proof {
                reveal_strlit("\\\"");
            }
            assert("\\\""@ =~= escape_char(c));
        } else if c == '\r' {
            r.append("\\r");
            proof {
                reveal_strlit("\\r");
            }
            assert("\\r"@ =~= escape_char(c));
        } else {
            let one = path.substring_char(i, i + 1);
            r.append(one);
            assert(one@ =~= escape_char(c));
        }
    }
    assert(path@.take(n as int) =~= path@);
    r.append("\");\n");
    proof {
        law_include_line_loads_the_path(path@);
    }
    r
}

/// A block wrapped in its prefix, tag, tag suffix and end suffix.
pub fn extended_block(config: &Config, block: &CodeBlock) -> (r: String)
    ensures
        r@ == extended_text(*config, *block),
{
    let mut r = String::new();
    r.append(config.code_headers.top_prefix.as_str());
    r.append(tag_str(config, block));
    r.append(config.code_headers.tag_suffix.as_str());
    r.append(block.code.as_str());
    r.append(config.code_headers.end_suffix.as_str());
    r
}

} // verus!
