use doubao_translator::count_fixable;
use doubao_translator::split_html_segments;
use doubao_translator::HtmlPiece;
use doubao_translator::extract_text_content;
use doubao_translator::has_untranslated_content;
use doubao_translator::LeakInfo;

#[test]
fn markup_and_whitespace_are_stripped() {
    assert_eq!(extract_text_content("<p>Hello World</p>"), "HelloWorld");
    assert_eq!(extract_text_content("<a href=\"x\">y</a> z"), "yz");
    assert_eq!(extract_text_content("<br/>"), "");
    assert_eq!(extract_text_content("中文 text"), "中文text");
}

#[test]
fn english_heavy_chapters_are_flagged() {
    // tags are stripped but whitespace is kept, so the words are counted
    assert!(has_untranslated_content(
        "<p>This paragraph still reads as English even inside markup</p>"
    ));
    assert!(has_untranslated_content("This is a test 测试段落. It contains both English and 中文."));
    assert!(!has_untranslated_content("这是一个测试段落。它只包含中文文本。"));
    assert!(!has_untranslated_content(""));
    // punctuation-bearing words do not count as English: exactly seven of
    // these ten words are bare letters, and seven in ten is not over the bar
    assert!(!has_untranslated_content("This is a test paragraph. It contains only English text."));
    // five words or fewer are never flagged
    assert!(!has_untranslated_content("Too few English words here"));
}

#[test]
fn html_splits_into_tags_and_text() {
    let pieces = split_html_segments("<p>Hello World</p>");
    let shown: Vec<(bool, String)> = pieces
        .iter()
        .map(|p| match p {
            HtmlPiece::Tag(s) => (true, s.clone()),
            HtmlPiece::Text(s) => (false, s.clone()),
        })
        .collect();
    assert_eq!(
        shown,
        vec![
            (true, "<p>".to_string()),
            (false, "Hello World".to_string()),
            (true, "</p>".to_string()),
        ]
    );

    // pieces always concatenate back to the document
    let doc = "a<b attr=\"x\">c</b> tail";
    let joined: String = split_html_segments(doc)
        .into_iter()
        .map(|p| match p {
            HtmlPiece::Tag(s) => s,
            HtmlPiece::Text(s) => s,
        })
        .collect();
    assert_eq!(joined, doc);

    assert!(split_html_segments("").is_empty());
}

#[test]
fn fixable_leaks_are_counted() {
    let leak = |translation: Option<&str>| LeakInfo {
        book_name: "book".to_string(),
        file_path: "file.epub".to_string(),
        original: "text".to_string(),
        translation: translation.map(|t| t.to_string()),
    };
    let leaks = vec![leak(Some("a")), leak(None), leak(Some("b")), leak(None)];
    assert_eq!(count_fixable(&leaks), 2);
    assert_eq!(count_fixable(&vec![]), 0);
}
