use code_block_extractor::{
    all_by_config_content_and_span, code_block_index, conclude, impl_filtered,
    load_file_to_const, nth_by_config_content_and_span, tag_by_config_content_and_span,
    CodeBlock, CodeHeaders, Config, ExtractError, Plan, Readme, ReadmeBlock, Selection, Selector,
    TokenCheck, TokenPart,
};
use code_block_extractor::model::code_blocks;

fn config(pass_through_tags: bool) -> Config {
    Config {
        start_prefix: "mod examples {\n".to_string(),
        final_suffix: "}\n".to_string(),
        pass_through_tags,
        code_headers: CodeHeaders {
            top_prefix: "// tag: ".to_string(),
            tag_suffix: "\n".to_string(),
            end_suffix: "\n".to_string(),
        },
    }
}

fn block(code: &str, tag: Option<&str>) -> ReadmeBlock {
    ReadmeBlock::Code(CodeBlock { code: code.to_string(), tag: tag.map(|t| t.to_string()) })
}

fn readme(blocks: Vec<ReadmeBlock>) -> Readme {
    Readme { markdown_file_path: "README.md".to_string(), blocks }
}

fn sample() -> Readme {
    readme(vec![
        ReadmeBlock::Other,
        block("fn first() {}", Some("one")),
        ReadmeBlock::Other,
        block("fn second() {}", None),
        block("fn third() {}", Some("three")),
    ])
}

const LOAD: &str = "const _: &str = ::std::include_str!(\"README.md\");\n";

#[test]
fn index_reads_plain_decimal() {
    assert_eq!(code_block_index("0").unwrap(), 0);
    assert_eq!(code_block_index("42").unwrap(), 42);
    assert_eq!(code_block_index("007").unwrap(), 7);
    assert_eq!(code_block_index("+7").unwrap(), 7);
}

#[test]
fn index_rejects_other_text() {
    for text in ["", "+", "-1", "3usize", "0x10", "1_000", "++1", " 1", "\"2\""] {
        match code_block_index(text) {
            Err(ExtractError::InvalidIndex { literal }) => assert_eq!(literal, text),
            other => panic!("{:?} gave {:?}", text, other),
        }
    }
}

#[test]
fn index_checks_the_usize_range() {
    let max = usize::MAX.to_string();
    assert_eq!(code_block_index(&max).unwrap(), usize::MAX);
    let over = format!("{}0", max);
    assert!(matches!(code_block_index(&over), Err(ExtractError::InvalidIndex { .. })));
}

#[test]
fn code_blocks_skip_other_blocks() {
    let r = sample();
    let blocks = code_blocks(&r);
    let codes: Vec<&str> = blocks.iter().map(|b| b.code.as_str()).collect();
    assert_eq!(codes, vec!["fn first() {}", "fn second() {}", "fn third() {}"]);
    assert_eq!(blocks[0].tag.as_deref(), Some("one"));
    assert_eq!(blocks[1].tag, None);
}

#[test]
fn all_blocks_in_order_with_tags() {
    let out = all_by_config_content_and_span("", &config(true), &sample()).unwrap();
    let expected = format!(
        "{}mod examples {{\n// tag: one\nfn first() {{}}\n// tag: \nfn second() {{}}\n// tag: three\nfn third() {{}}\n}}\n",
        LOAD
    );
    assert_eq!(out, expected);
}

#[test]
fn tags_stay_out_without_pass_through() {
    let out = all_by_config_content_and_span("", &config(false), &sample()).unwrap();
    let expected = format!(
        "{}mod examples {{\n// tag: \nfn first() {{}}\n// tag: \nfn second() {{}}\n// tag: \nfn third() {{}}\n}}\n",
        LOAD
    );
    assert_eq!(out, expected);
}

#[test]
fn prefix_comes_first() {
    let prefix = "const _: &str = ::std::include_str!(\"cfg.toml\");\n";
    let out = nth_by_config_content_and_span(prefix, &config(true), &sample(), 2).unwrap();
    let expected = format!(
        "{}{}mod examples {{\n// tag: three\nfn third() {{}}\n}}\n",
        prefix, LOAD
    );
    assert_eq!(out, expected);
}

#[test]
fn nth_selects_one_block() {
    let out = nth_by_config_content_and_span("", &config(true), &sample(), 1).unwrap();
    assert_eq!(out, format!("{}mod examples {{\n// tag: \nfn second() {{}}\n}}\n", LOAD));
}

#[test]
fn nth_past_the_end_selects_nothing() {
    let out = nth_by_config_content_and_span("", &config(true), &sample(), 3).unwrap();
    assert_eq!(out, format!("{}mod examples {{\n}}\n", LOAD));
}

#[test]
fn tag_exactly_one_found() {
    let out = tag_by_config_content_and_span("", &config(true), &sample(), "three", true).unwrap();
    assert_eq!(out, format!("{}mod examples {{\n// tag: three\nfn third() {{}}\n}}\n", LOAD));
}

#[test]
fn tag_exactly_one_missing() {
    match tag_by_config_content_and_span("", &config(true), &sample(), "four", true) {
        Err(ExtractError::TagNotFound { tag }) => assert_eq!(tag, "four"),
        other => panic!("{:?}", other),
    }
}

#[test]
fn tag_exactly_one_twice() {
    let r = readme(vec![
        block("fn a() {}", Some("x")),
        block("fn b() {}", None),
        block("fn c() {}", Some("x")),
    ]);
    match tag_by_config_content_and_span("", &config(true), &r, "x", true) {
        Err(ExtractError::DuplicateTag { tag }) => assert_eq!(tag, "x"),
        other => panic!("{:?}", other),
    }
}

#[test]
fn tag_any_takes_every_match() {
    let r = readme(vec![
        block("fn a() {}", Some("x")),
        block("fn b() {}", None),
        block("fn c() {}", Some("x")),
    ]);
    let out = tag_by_config_content_and_span("", &config(false), &r, "x", false).unwrap();
    assert_eq!(
        out,
        format!("{}mod examples {{\n// tag: \nfn a() {{}}\n// tag: \nfn c() {{}}\n}}\n", LOAD)
    );
}

#[test]
fn tag_any_allows_none() {
    let out = tag_by_config_content_and_span("", &config(true), &sample(), "none", false).unwrap();
    assert_eq!(out, format!("{}mod examples {{\n}}\n", LOAD));
}

#[test]
fn unbalanced_code_is_rejected() {
    let r = readme(vec![block("fn a() {}", None), block("fn broken() {", None)]);
    match all_by_config_content_and_span("", &config(true), &r) {
        Err(ExtractError::InvalidTokens { part, source }) => {
            assert_eq!(part, TokenPart::CodeBlock);
            assert_eq!(source, "fn broken() {");
        }
        other => panic!("{:?}", other),
    }
}

#[test]
fn unbalanced_extension_is_rejected() {
    let mut c = config(true);
    c.code_headers.end_suffix = "\n)".to_string();
    let r = readme(vec![block("fn a() {}", None)]);
    match all_by_config_content_and_span("", &c, &r) {
        Err(ExtractError::InvalidTokens { part, source }) => {
            assert_eq!(part, TokenPart::ExtendedBlock);
            assert_eq!(source, "// tag: \nfn a() {}\n)");
        }
        other => panic!("{:?}", other),
    }
}

#[test]
fn unbalanced_output_is_rejected() {
    let mut c = config(true);
    c.final_suffix = String::new();
    let r = readme(vec![block("fn a() {}", None)]);
    match all_by_config_content_and_span("", &c, &r) {
        Err(ExtractError::InvalidTokens { part, source }) => {
            assert_eq!(part, TokenPart::WholeOutput);
            assert_eq!(source, format!("{}mod examples {{\n// tag: \nfn a() {{}}\n", LOAD));
        }
        other => panic!("{:?}", other),
    }
}

#[test]
fn invalid_tokens_before_duplicate_tag() {
    let r = readme(vec![block("fn a() {", Some("x")), block("fn b() {}", Some("x"))]);
    match tag_by_config_content_and_span("", &config(true), &r, "x", true) {
        Err(ExtractError::InvalidTokens { part, .. }) => assert_eq!(part, TokenPart::CodeBlock),
        other => panic!("{:?}", other),
    }
}

#[test]
fn config_constant_is_built_and_checked() {
    assert_eq!(
        load_file_to_const("cfg/readme.toml").unwrap(),
        "const _: &str = ::std::include_str!(\"cfg/readme.toml\");\n"
    );
    assert_eq!(
        load_file_to_const("a\"b").unwrap(),
        "const _: &str = ::std::include_str!(\"a\\\"b\");\n"
    );
}

#[test]
fn config_path_is_escaped() {
    assert_eq!(
        load_file_to_const("cfg\\new.toml").unwrap(),
        "const _: &str = ::std::include_str!(\"cfg\\\\new.toml\");\n"
    );
    let out: proc_macro2::TokenStream = load_file_to_const("dir\\a \"b\".toml").unwrap().parse().unwrap();
    let lit = out.into_iter().find_map(|t| match t {
        proc_macro2::TokenTree::Group(g) => g.stream().into_iter().find_map(|t| match t {
            proc_macro2::TokenTree::Literal(l) => Some(l.to_string()),
            _ => None,
        }),
        _ => None,
    });
    assert_eq!(lit.unwrap(), "\"dir\\\\a \\\"b\\\".toml\"");
}

#[test]
fn config_path_carriage_return_is_escaped() {
    let line = load_file_to_const("a\rb").unwrap();
    assert_eq!(line, "const _: &str = ::std::include_str!(\"a\\rb\");\n");
    let stream: proc_macro2::TokenStream = line.parse().unwrap();
    assert!(stream.to_string().contains("\"a\\rb\""));
}

#[test]
fn markdown_path_is_escaped() {
    let mut r = readme(vec![]);
    r.markdown_file_path = "docs\\README.md".to_string();
    let out = all_by_config_content_and_span("", &config(true), &r).unwrap();
    assert_eq!(
        out,
        "const _: &str = ::std::include_str!(\"docs\\\\README.md\");\nmod examples {\n}\n"
    );
}

#[test]
fn plan_lists_the_checks() {
    let mut selector = Selector::new(Selection::Tag { tag: "one".to_string(), exactly_one: true });
    let plan = impl_filtered("P;", &config(true), &sample(), &mut selector);
    assert!(selector.already_found);
    let parts: Vec<TokenPart> = plan.checks.iter().map(|c| c.part).collect();
    assert_eq!(parts, vec![TokenPart::CodeBlock, TokenPart::ExtendedBlock, TokenPart::WholeOutput]);
    assert_eq!(plan.checks[0].text, "fn first() {}");
    assert_eq!(plan.checks[1].text, "// tag: one\nfn first() {}\n");
    let whole = format!("{}mod examples {{\n// tag: one\nfn first() {{}}\n}}\n", LOAD);
    assert_eq!(plan.checks[2].text, whole);
    assert_eq!(plan.outcome.unwrap(), format!("P;{}", whole));
}

#[test]
fn plan_stops_at_a_duplicate_tag() {
    let r = readme(vec![
        block("fn a() {}", Some("x")),
        block("fn b() {}", Some("x")),
        block("fn c() {}", Some("x")),
    ]);
    let mut selector = Selector::new(Selection::Tag { tag: "x".to_string(), exactly_one: true });
    let plan = impl_filtered("", &config(true), &r, &mut selector);
    assert_eq!(plan.checks.len(), 2);
    assert!(matches!(plan.outcome, Err(ExtractError::DuplicateTag { .. })));
}

#[test]
fn conclude_reports_the_rejected_check() {
    let plan = || Plan {
        checks: vec![
            TokenCheck { part: TokenPart::CodeBlock, text: "a".to_string() },
            TokenCheck { part: TokenPart::WholeOutput, text: "b".to_string() },
        ],
        outcome: Ok("done".to_string()),
    };
    assert_eq!(conclude(plan(), None).unwrap(), "done");
    match conclude(plan(), Some(1)) {
        Err(ExtractError::InvalidTokens { part, source }) => {
            assert_eq!(part, TokenPart::WholeOutput);
            assert_eq!(source, "b");
        }
        other => panic!("{:?}", other),
    }
}

#[test]
fn selector_flags_a_second_tagged_block() {
    let b = CodeBlock { code: "x".to_string(), tag: Some("t".to_string()) };
    let u = CodeBlock { code: "y".to_string(), tag: None };
    let mut s = Selector::new(Selection::Tag { tag: "t".to_string(), exactly_one: true });
    assert!(!s.accept(0, &u).unwrap());
    assert!(s.accept(1, &b).unwrap());
    assert!(!s.accept(2, &u).unwrap());
    assert!(matches!(s.accept(3, &b), Err(ExtractError::DuplicateTag { .. })));
    let mut n = Selector::new(Selection::Nth(2));
    assert!(!n.accept(1, &b).unwrap());
    assert!(n.accept(2, &b).unwrap());
}

#[test]
fn error_messages() {
    let e = ExtractError::InvalidIndex { literal: "x".to_string() };
    assert_eq!(e.message(), "Expecting a non-negative (usize) index literal, but received: x");
    let e = ExtractError::TagNotFound { tag: "t".to_string() };
    assert_eq!(e.message(), "did not find a code block with the given tag: t");
    let e = ExtractError::DuplicateTag { tag: "t".to_string() };
    assert_eq!(e.message(), "already found one code block with the same tag: t");
    let e = ExtractError::InvalidTokens { part: TokenPart::CodeBlock, source: "{".to_string() };
    assert_eq!(e.message(), "code_block_extractor failed to parse: Code block\nunpaired or incorrect Rust tokens in: {");
    let e = ExtractError::InvalidTokens { part: TokenPart::ConfigFileConstant, source: "c".to_string() };
    assert_eq!(
        e.message(),
        "the TOML config file path is not well formed, or it failed to parse: c"
    );
}
