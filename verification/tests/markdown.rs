use doubao_translator::is_markdown_file;
use doubao_translator::MarkdownElement;
use doubao_translator::MarkdownExtractor;

#[test]
fn test_markdown_extractor() {
    let content = r#"---
title: "Test"
description: "A test document"
---

# Hello World

This is a `code` block.

```rust
fn main() {
    println!("Hello");
}
```

Check out [this link](https://example.com) for more info."#;

    let mut extractor = MarkdownExtractor::new(content);
    extractor.extract();

    // Should have extracted YAML, text segments, code blocks, and links
    assert!(!extractor.elements.is_empty());
    assert!(!extractor.text_segments.is_empty());
}

#[test]
fn test_is_markdown_file() {
    assert!(is_markdown_file("test.md"));
    assert!(is_markdown_file("test.MD"));
    assert!(is_markdown_file("test.markdown"));
    assert!(!is_markdown_file("test.txt"));
}

#[test]
fn extractor_classifies_each_piece() {
    let content = "---\na: b\n---\nplain `x` and [go](url) end";
    let mut extractor = MarkdownExtractor::new(content);
    extractor.extract();

    assert!(matches!(extractor.elements[0], MarkdownElement::YamlFrontmatter(0, 13)));
    assert!(extractor
        .elements
        .iter()
        .any(|e| matches!(e, MarkdownElement::InlineCode(_, _))));
    assert!(extractor.elements.iter().any(|e| matches!(e, MarkdownElement::Link(_, _))));
    assert!(extractor.elements.iter().any(|e| matches!(e, MarkdownElement::Text(_, _))));

    // spans are ordered and disjoint
    let spans: Vec<(usize, usize)> = extractor
        .elements
        .iter()
        .map(|e| match *e {
            MarkdownElement::Text(s, t) => (s, t),
            MarkdownElement::CodeBlock(s, t) => (s, t),
            MarkdownElement::InlineCode(s, t) => (s, t),
            MarkdownElement::Link(s, t) => (s, t),
            MarkdownElement::YamlFrontmatter(s, t) => (s, t),
        })
        .collect();
    for w in spans.windows(2) {
        assert!(w[0].1 <= w[1].0);
    }

    // the link text is a translatable segment, trimmed
    assert!(extractor.text_segments.contains(&"go".to_string()));
    assert!(extractor.text_segments.contains(&"plain".to_string()));
}

#[test]
fn fenced_code_is_one_span() {
    let content = "before\n```rust\nlet x = 1;\n```\nafter";
    let mut extractor = MarkdownExtractor::new(content);
    extractor.extract();
    let code: Vec<(usize, usize)> = extractor
        .elements
        .iter()
        .filter_map(|e| match *e {
            MarkdownElement::CodeBlock(s, t) => Some((s, t)),
            _ => None,
        })
        .collect();
    assert_eq!(code, vec![(7, 29)]);
    let chars: Vec<char> = content.chars().collect();
    assert_eq!(chars[7..10].iter().collect::<String>(), "```");
    assert_eq!(chars[26..29].iter().collect::<String>(), "```");
}

#[test]
fn reassembly_keeps_structure_and_swaps_text() {
    let content = "Hello [world](url) `code` tail";
    let mut extractor = MarkdownExtractor::new(content);
    extractor.extract();
    assert_eq!(
        extractor.text_segments,
        vec!["Hello".to_string(), "world".to_string(), "tail".to_string()]
    );
    let translated = vec!["你好".to_string(), "世界".to_string(), "尾巴".to_string()];
    let rebuilt = doubao_translator::reassemble(
        &extractor.content,
        &extractor.elements,
        &translated,
        &vec![],
    );
    assert_eq!(rebuilt, "你好[世界](url)`code`尾巴");
}

#[test]
fn reassembly_without_segments_keeps_code_and_links() {
    let content = "`a` [b](c)";
    let mut extractor = MarkdownExtractor::new(content);
    extractor.extract();
    let rebuilt = doubao_translator::reassemble(
        &extractor.content,
        &extractor.elements,
        &vec![],
        &vec![],
    );
    assert_eq!(rebuilt, "`a`[b](c)");
}

#[test]
fn link_text_is_read_from_the_span() {
    let content = "[hello](https://example.com)";
    let mut extractor = MarkdownExtractor::new(content);
    extractor.extract();
    assert_eq!(extractor.get_link_text(0, content.len()), "hello");
    assert_eq!(extractor.text_segments, vec!["hello".to_string()]);

    let empty = MarkdownExtractor::new("no brackets here");
    assert_eq!(empty.get_link_text(0, 5), "");
}
