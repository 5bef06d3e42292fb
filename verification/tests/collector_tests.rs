use i18n_scan::ast::{Lit, TextLit};
use i18n_scan::collector::Collector;
use i18n_scan::span::Span;

#[test]
fn parse_literal_with_non_empty_string() {
    let mut collector = Collector::new();
    let lit = TextLit { value: "Hello World".to_string(), span: Span::new(0, 0) };
    collector.parse_literal(&Lit::Str(lit.clone()));
    assert_eq!(collector.string_literals.len(), 1);
    assert_eq!(collector.string_literals[0], lit);
}

#[test]
fn parse_literal_with_empty_string() {
    let mut collector = Collector::new();
    let lit = TextLit { value: "".to_string(), span: Span::new(0, 0) };
    collector.parse_literal(&Lit::Str(lit.clone()));
    assert!(collector.string_literals.is_empty());
}

#[test]
fn parse_literal_with_whitespace_string() {
    let mut collector = Collector::new();
    let lit = TextLit { value: " ".to_string(), span: Span::new(0, 0) };
    collector.parse_literal(&Lit::Str(lit.clone()));
    assert!(collector.string_literals.is_empty());
}

#[test]
fn parse_literal_with_non_empty_jsx_text() {
    let mut collector = Collector::new();
    let jsx_text = TextLit { value: "Some JSX Text".to_string(), span: Span::new(0, 0) };
    collector.parse_literal(&Lit::JsxText(jsx_text.clone()));
    assert_eq!(collector.jsx_texts.len(), 1);
    assert_eq!(collector.jsx_texts[0], jsx_text);
}

#[test]
fn parse_literal_with_empty_jsx_text() {
    let mut collector = Collector::new();
    collector.parse_literal(&Lit::JsxText(TextLit {
        value: "".to_string(),
        span: Span::new(0, 0),
    }));
    assert!(collector.jsx_texts.is_empty());
}

#[test]
fn parse_literal_with_whitespace_jsx_text() {
    let mut collector = Collector::new();
    collector.parse_literal(&Lit::JsxText(TextLit {
        value: "   ".to_string(),
        span: Span::new(0, 0),
    }));
    assert!(collector.jsx_texts.is_empty());
}

#[test]
fn parse_literal_ignores_other_literal_kinds() {
    let mut collector = Collector::new();
    collector.parse_literal(&Lit::Other);
    assert!(collector.jsx_texts.is_empty());
    assert!(collector.string_literals.is_empty());
    assert!(collector.variables.is_empty());
    assert!(collector.object_properties.is_empty());
}

#[test]
fn trim_content_trims_and_drops_whitespace_only_items() {
    // An item may reach the collector untrimmed; normalization trims it and
    // drops anything that trims to nothing.
    let mut collector = Collector::new();
    collector.jsx_texts.push(TextLit { value: "  hi  ".to_string(), span: Span::new(1, 7) });
    collector.jsx_texts.push(TextLit { value: " \n\t".to_string(), span: Span::new(8, 11) });
    collector.string_literals.push(TextLit { value: "\nx".to_string(), span: Span::new(12, 14) });
    collector.string_literals.push(TextLit {
        value: "\u{a0}y\u{2009}".to_string(),
        span: Span::new(15, 20),
    });
    collector.trim_content();
    assert_eq!(collector.jsx_texts.len(), 1);
    assert_eq!(collector.jsx_texts[0].value, "hi");
    assert_eq!(collector.jsx_texts[0].span, Span::new(1, 7));
    assert_eq!(collector.string_literals.len(), 2);
    assert_eq!(collector.string_literals[0].value, "x");
    assert_eq!(collector.string_literals[1].value, "y");
}

#[test]
fn trim_content_is_idempotent() {
    let mut once = Collector::new();
    once.jsx_texts.push(TextLit { value: "  a b ".to_string(), span: Span::new(0, 6) });
    once.jsx_texts.push(TextLit { value: "   ".to_string(), span: Span::new(7, 10) });
    once.string_literals.push(TextLit { value: " s ".to_string(), span: Span::new(11, 14) });
    let mut twice = Collector::new();
    twice.jsx_texts = once.jsx_texts.clone();
    twice.string_literals = once.string_literals.clone();
    once.trim_content();
    twice.trim_content();
    twice.trim_content();
    assert_eq!(once.jsx_texts, twice.jsx_texts);
    assert_eq!(once.string_literals, twice.string_literals);
}

#[test]
fn emptiness_filter_drops_all_whitespace_shapes() {
    // "", "   " and "\n\t" are all trimmed-empty, and so are strings of
    // Unicode-only whitespace such as a lone no-break space: none survives,
    // whether it is rejected at collection or dropped by normalization.
    for s in ["", "   ", "\n\t", "\u{a0}", " \u{b}\u{a0} ", "\u{2028}\u{3000}\u{2009}"] {
        let mut collector = Collector::new();
        collector.parse_literal(&Lit::Str(TextLit {
            value: s.to_string(),
            span: Span::new(0, 0),
        }));
        assert!(collector.string_literals.is_empty());

        let mut direct = Collector::new();
        direct.jsx_texts.push(TextLit { value: s.to_string(), span: Span::new(0, 0) });
        direct.string_literals.push(TextLit { value: s.to_string(), span: Span::new(0, 0) });
        direct.trim_content();
        assert!(direct.jsx_texts.is_empty());
        assert!(direct.string_literals.is_empty());
    }
}
