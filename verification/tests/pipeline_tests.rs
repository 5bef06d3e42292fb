use i18n_scan::analyzer::{analyze_module, evaluate_collector, Analyzer};
use i18n_scan::ast::{
    AttrValue, Expr, JsxAttr, JsxChild, JsxElement, JsxExpr, JsxFragment, JsxRoot, Lit, MemberRef,
    Module, TextLit, VarRef,
};
use i18n_scan::collector::Collector;
use i18n_scan::evaluate::Evaluate;
use i18n_scan::report::{Bucket, Report, ReportItem};
use i18n_scan::source_index::{Loc, SourceIndex};
use i18n_scan::span::Span;
use i18n_scan::walker::walk;

fn text_child(value: &str, lo: usize, hi: usize) -> JsxChild {
    JsxChild::Text(TextLit { value: value.to_string(), span: Span::new(lo, hi) })
}

fn element_module(element: JsxElement) -> Module {
    Module { body: vec![JsxRoot::Element(element)] }
}

#[test]
fn scenario_plain_text_yields_one_violation() {
    // <div>Hello World</div>
    let mut index = SourceIndex::new();
    assert!(index.add_file("a.tsx".to_string(), 0, b"<div>Hello World</div>"));
    let module = element_module(JsxElement {
        attrs: vec![],
        children: vec![text_child("Hello World", 5, 16)],
    });
    let mut report = Report::default();
    analyze_module(&module, &index, &mut report);
    assert_eq!(report.violations.len(), 1);
    assert_eq!(report.violations[0].string, "Hello World");
    assert_eq!(report.violations[0].filename, "a.tsx");
    assert_eq!(report.violations[0].line, 1);
    assert_eq!(report.violations[0].prop_name, None);
    assert!(report.suspicions.is_empty());
}

#[test]
fn scenario_whitespace_only_text_yields_nothing() {
    // <div>   </div>
    let mut index = SourceIndex::new();
    assert!(index.add_file("a.tsx".to_string(), 0, b"<div>   </div>"));
    let module = element_module(JsxElement {
        attrs: vec![],
        children: vec![text_child("   ", 5, 8)],
    });
    let mut report = Report::default();
    analyze_module(&module, &index, &mut report);
    assert!(report.violations.is_empty());
    assert!(report.suspicions.is_empty());
}

#[test]
fn scenario_bare_identifier_yields_one_violation() {
    // <div>{title}</div>
    let mut index = SourceIndex::new();
    assert!(index.add_file("a.tsx".to_string(), 0, b"<div>{title}</div>"));
    let module = element_module(JsxElement {
        attrs: vec![],
        children: vec![JsxChild::Container(JsxExpr::Expr(Expr::Var(VarRef {
            name: "title".to_string(),
            span: Span::new(6, 11),
        })))],
    });
    let mut report = Report::default();
    analyze_module(&module, &index, &mut report);
    assert_eq!(report.violations.len(), 1);
    assert_eq!(report.violations[0].string, "title");
    assert_eq!(report.violations[0].filename, "a.tsx");
    assert_eq!(report.violations[0].line, 1);
    assert!(report.suspicions.is_empty());
}

#[test]
fn scenario_literal_attribute_yields_nothing() {
    // <Button label="Submit" />
    let mut index = SourceIndex::new();
    assert!(index.add_file("a.tsx".to_string(), 0, b"<Button label=\"Submit\" />"));
    let module = element_module(JsxElement {
        attrs: vec![JsxAttr {
            name: "label".to_string(),
            value: Some(AttrValue::Lit(Lit::Str(TextLit {
                value: "Submit".to_string(),
                span: Span::new(14, 22),
            }))),
            span: Span::new(8, 22),
        }],
        children: vec![],
    });
    let mut report = Report::default();
    analyze_module(&module, &index, &mut report);
    assert!(report.violations.is_empty());
    assert!(report.suspicions.is_empty());
}

#[test]
fn scenario_identifier_attribute_yields_one_suspicion() {
    // <Button label={userLabel} />
    let mut index = SourceIndex::new();
    assert!(index.add_file("a.tsx".to_string(), 0, b"<Button label={userLabel} />"));
    let module = element_module(JsxElement {
        attrs: vec![JsxAttr {
            name: "label".to_string(),
            value: Some(AttrValue::Container(JsxExpr::Expr(Expr::Var(VarRef {
                name: "userLabel".to_string(),
                span: Span::new(15, 24),
            })))),
            span: Span::new(8, 25),
        }],
        children: vec![],
    });
    let mut report = Report::default();
    analyze_module(&module, &index, &mut report);
    assert!(report.violations.is_empty());
    assert_eq!(report.suspicions.len(), 1);
    assert_eq!(report.suspicions[0].prop_name, Some("label".to_string()));
    assert_eq!(report.suspicions[0].string, "userLabel");
    assert_eq!(report.suspicions[0].filename, "a.tsx");
    assert_eq!(report.suspicions[0].line, 1);
}

#[test]
fn scenario_two_files_yield_two_distinct_findings() {
    // Two files, each <p>Hi</p>; the second starts further into the global
    // offset space, as when both are loaded into one resolver.
    let mut index = SourceIndex::new();
    assert!(index.add_file("a.tsx".to_string(), 0, b"<p>Hi</p>"));
    assert!(index.add_file("b.tsx".to_string(), 10, b"<p>Hi</p>"));
    let module_a = element_module(JsxElement {
        attrs: vec![],
        children: vec![text_child("Hi", 3, 5)],
    });
    let module_b = element_module(JsxElement {
        attrs: vec![],
        children: vec![text_child("Hi", 13, 15)],
    });
    let mut report = Report::default();
    analyze_module(&module_a, &index, &mut report);
    analyze_module(&module_b, &index, &mut report);
    assert_eq!(report.violations.len(), 2);
    assert_eq!(report.violations[0].filename, "a.tsx");
    assert_eq!(report.violations[0].line, 1);
    assert_eq!(report.violations[1].filename, "b.tsx");
    assert_eq!(report.violations[1].line, 1);
    assert_eq!(report.violations[0].string, "Hi");
    assert_eq!(report.violations[1].string, "Hi");
}

#[test]
fn resolver_maps_lines_after_newlines() {
    let mut index = SourceIndex::new();
    assert!(index.add_file("x.tsx".to_string(), 0, b"ab\ncd\nef"));
    assert_eq!(
        index.resolve(0),
        Some(Loc { filename: "x.tsx".to_string(), line: 1 })
    );
    assert_eq!(
        index.resolve(3),
        Some(Loc { filename: "x.tsx".to_string(), line: 2 })
    );
    assert_eq!(
        index.resolve(7),
        Some(Loc { filename: "x.tsx".to_string(), line: 3 })
    );
}

#[test]
fn resolver_fails_on_untracked_offset() {
    let mut index = SourceIndex::new();
    assert!(index.add_file("x.tsx".to_string(), 0, b"abc"));
    assert_eq!(index.resolve(3), None);
    assert_eq!(index.resolve(100), None);
}

#[test]
fn add_file_rejects_overlapping_start() {
    let mut index = SourceIndex::new();
    assert!(index.add_file("x.tsx".to_string(), 0, b"abcd"));
    assert!(!index.add_file("y.tsx".to_string(), 2, b"ef"));
    assert!(index.add_file("y.tsx".to_string(), 4, b"ef"));
}

#[test]
fn unresolvable_spans_are_skipped_silently() {
    // The index tracks nothing, so every evaluation resolves to nothing and
    // the report stays empty: no finding, no error.
    let index = SourceIndex::new();
    let module = element_module(JsxElement {
        attrs: vec![],
        children: vec![
            text_child("Hello", 5, 10),
            JsxChild::Container(JsxExpr::Expr(Expr::Var(VarRef {
                name: "title".to_string(),
                span: Span::new(12, 17),
            }))),
        ],
    });
    let mut report = Report::default();
    analyze_module(&module, &index, &mut report);
    assert!(report.violations.is_empty());
    assert!(report.suspicions.is_empty());
}

#[test]
fn evaluate_renders_member_paths_dotted() {
    let mut index = SourceIndex::new();
    assert!(index.add_file("m.tsx".to_string(), 0, b"<div>{user.name.last}</div>"));
    let member = MemberRef {
        path: vec!["user".to_string(), "name".to_string(), "last".to_string()],
        span: Span::new(6, 20),
    };
    let item = member.evaluate(&index).unwrap();
    assert_eq!(item.string, "user.name.last");
    assert_eq!(item.filename, "m.tsx");
    assert_eq!(item.line, 1);
}

#[test]
fn collection_preserves_document_order() {
    // <div>A<span>B{x}</span>C</div> with a fragment sibling afterwards:
    // items of one file come out in pre-order document order.
    let inner = JsxElement {
        attrs: vec![],
        children: vec![
            text_child("B", 10, 11),
            JsxChild::Container(JsxExpr::Expr(Expr::Var(VarRef {
                name: "x".to_string(),
                span: Span::new(12, 13),
            }))),
        ],
    };
    let outer = JsxElement {
        attrs: vec![],
        children: vec![
            text_child("A", 5, 6),
            JsxChild::Element(Box::new(inner)),
            text_child("C", 25, 26),
        ],
    };
    let fragment = JsxFragment {
        children: vec![text_child("D", 30, 31)],
    };
    let module = Module { body: vec![JsxRoot::Element(outer), JsxRoot::Fragment(fragment)] };
    let mut collector = Collector::new();
    collector.visit_module(&module);
    let texts: Vec<&str> = collector.jsx_texts.iter().map(|t| t.value.as_str()).collect();
    assert_eq!(texts, vec!["A", "B", "C", "D"]);
    assert_eq!(collector.variables.len(), 1);
    assert_eq!(collector.variables[0].name, "x");
}

#[test]
fn evaluate_collector_appends_to_existing_report() {
    let mut index = SourceIndex::new();
    assert!(index.add_file("a.tsx".to_string(), 0, b"<p>One</p>"));
    let mut collector = Collector::new();
    collector.jsx_texts.push(TextLit { value: "One".to_string(), span: Span::new(3, 6) });
    let mut report = Report::default();
    report.violations.push(ReportItem {
        filename: "earlier.tsx".to_string(),
        line: 7,
        string: "Old".to_string(),
        prop_name: None,
    });
    evaluate_collector(&collector, &index, &mut report);
    assert_eq!(report.violations.len(), 2);
    assert_eq!(report.violations[0].string, "Old");
    assert_eq!(report.violations[1].string, "One");
}

#[test]
fn report_record_appends_only_actual_items() {
    let mut report = Report::default();
    report.record(None, Bucket::Violations);
    report.record(None, Bucket::Suspicions);
    assert!(report.violations.is_empty());
    assert!(report.suspicions.is_empty());
    let item = ReportItem {
        filename: "a.tsx".to_string(),
        line: 1,
        string: "t".to_string(),
        prop_name: None,
    };
    report.record(Some(item.clone()), Bucket::Suspicions);
    assert!(report.violations.is_empty());
    assert_eq!(report.suspicions.len(), 1);
    assert_eq!(report.suspicions[0], item);
}

#[test]
fn analyzer_pairs_module_with_fresh_collector() {
    let module = element_module(JsxElement { attrs: vec![], children: vec![] });
    let analyzer = Analyzer::new(module);
    assert!(analyzer.collector.jsx_texts.is_empty());
    assert!(analyzer.collector.string_literals.is_empty());
    assert!(analyzer.collector.variables.is_empty());
    assert!(analyzer.collector.object_properties.is_empty());
    assert_eq!(analyzer.module.body.len(), 1);
}

#[test]
fn walk_keeps_only_tsx_paths() {
    let entries = vec![
        "src/app.tsx".to_string(),
        "src/app.ts".to_string(),
        "notes.txt".to_string(),
        "pages/index.tsx".to_string(),
        "tsx".to_string(),
        ".tsx".to_string(),
        "src/.tsx".to_string(),
        "a.b.tsx".to_string(),
    ];
    let kept = walk(&entries);
    assert_eq!(
        kept,
        vec![
            "src/app.tsx".to_string(),
            "pages/index.tsx".to_string(),
            "a.b.tsx".to_string(),
        ]
    );
}
