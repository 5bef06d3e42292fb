use i18n_scan::ast::{
    AttrValue, AttrValueKind, Expr, JsxAttr, JsxChild, JsxElement, JsxExpr, Lit, TextLit, VarRef,
};
use i18n_scan::jsx_analyzer::JSXAnalyzer;
use i18n_scan::span::Span;

#[test]
fn analyze_literal_with_non_empty_string() {
    let mut analyzer = JSXAnalyzer::new();
    let lit = TextLit { value: "Hello World".to_string(), span: Span::new(0, 0) };
    analyzer.analyze_literal(&Lit::Str(lit.clone()));
    assert_eq!(analyzer.string_literals.len(), 1);
    assert_eq!(analyzer.string_literals[0], lit);
}

#[test]
fn analyze_literal_with_empty_string() {
    let mut analyzer = JSXAnalyzer::new();
    let lit = TextLit { value: "".to_string(), span: Span::new(0, 0) };
    analyzer.analyze_literal(&Lit::Str(lit.clone()));
    assert!(analyzer.string_literals.is_empty());
}

#[test]
fn analyze_literal_with_whitespace_string() {
    let mut analyzer = JSXAnalyzer::new();
    let lit = TextLit { value: " ".to_string(), span: Span::new(0, 0) };
    analyzer.analyze_literal(&Lit::Str(lit.clone()));
    assert!(analyzer.string_literals.is_empty());
}

#[test]
fn analyze_literal_with_non_empty_jsx_text() {
    let mut analyzer = JSXAnalyzer::new();
    let jsx_text = TextLit { value: "Some JSX Text".to_string(), span: Span::new(0, 0) };
    analyzer.analyze_literal(&Lit::JsxText(jsx_text.clone()));
    assert_eq!(analyzer.jsx_texts.len(), 1);
    assert_eq!(analyzer.jsx_texts[0], jsx_text);
}

#[test]
fn analyze_literal_with_empty_jsx_text() {
    let mut analyzer = JSXAnalyzer::new();
    analyzer.analyze_literal(&Lit::JsxText(TextLit {
        value: "".to_string(),
        span: Span::new(0, 0),
    }));
    assert!(analyzer.jsx_texts.is_empty());
}

#[test]
fn analyze_literal_with_whitespace_jsx_text() {
    let mut analyzer = JSXAnalyzer::new();
    analyzer.analyze_literal(&Lit::JsxText(TextLit {
        value: "   ".to_string(),
        span: Span::new(0, 0),
    }));
    assert!(analyzer.jsx_texts.is_empty());
}

#[test]
fn analyze_jsx_element_records_valued_attributes_only() {
    // <Button label="Submit" disabled other={x}>Go</Button>
    let attrs = vec![
        JsxAttr {
            name: "label".to_string(),
            value: Some(AttrValue::Lit(Lit::Str(TextLit {
                value: "Submit".to_string(),
                span: Span::new(14, 22),
            }))),
            span: Span::new(8, 22),
        },
        JsxAttr { name: "disabled".to_string(), value: None, span: Span::new(23, 31) },
        JsxAttr {
            name: "other".to_string(),
            value: Some(AttrValue::Container(JsxExpr::Expr(Expr::Var(VarRef {
                name: "x".to_string(),
                span: Span::new(39, 40),
            })))),
            span: Span::new(32, 41),
        },
    ];
    let element = JsxElement {
        attrs,
        children: vec![JsxChild::Text(TextLit {
            value: "Go".to_string(),
            span: Span::new(42, 44),
        })],
    };
    let mut analyzer = JSXAnalyzer::new();
    analyzer.analyze_jsx_element(&element);
    assert_eq!(analyzer.props.len(), 2);
    assert_eq!(analyzer.props[0].name, "label");
    assert_eq!(analyzer.props[0].value, AttrValueKind::StringLit("Submit".to_string()));
    assert_eq!(analyzer.props[1].name, "other");
    assert_eq!(analyzer.props[1].value, AttrValueKind::Identifier("x".to_string()));
    assert_eq!(analyzer.jsx_texts.len(), 1);
    assert_eq!(analyzer.jsx_texts[0].value, "Go");
}

#[test]
fn analyze_jsx_expression_container_ignores_bare_identifiers() {
    // This variant records only literal expressions from containers.
    let mut analyzer = JSXAnalyzer::new();
    analyzer.analyze_jsx_expression_container(&JsxExpr::Expr(Expr::Var(VarRef {
        name: "title".to_string(),
        span: Span::new(5, 10),
    })));
    assert!(analyzer.jsx_texts.is_empty());
    assert!(analyzer.string_literals.is_empty());
    assert!(analyzer.props.is_empty());
}
