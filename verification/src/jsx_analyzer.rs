use crate::ast::{
    AttrItem, AttrItemV, AttrValue, AttrValueKind, Expr, JsxAttr, JsxChild, JsxElement, JsxExpr,
    JsxFragment, JsxRoot, Lit, Module, TextLit, TextLitV,
};
use crate::collector::{
    attr_items, attr_value_kind, child_items, children_items, container_items, element_items,
    fragment_items, lemma_attr_items_push, lemma_children_items_push, lemma_roots_items_push,
    lit_items, module_items, root_items, roots_items, Collected,
};
use crate::normalize::{normalize_text_vec, normalize_texts};
use crate::text::is_trimmed_empty;
use vstd::prelude::*;

verus! {

// ---------------------------------------------------------------------------
// The attribute-focused variant of the collector: it gathers text fragments,
// string literals and valued attributes, and leaves identifier and member
// references in expression slots uncollected.
// ---------------------------------------------------------------------------
/// The three buckets this variant fills.
#[verifier::ext_equal]
pub ghost struct Analyzed {
    pub texts: Seq<TextLitV>,
    pub strs: Seq<TextLitV>,
    pub props: Seq<AttrItemV>,
}

impl Analyzed {
    /// Nothing collected yet.
    pub open spec fn empty() -> Analyzed {
        Analyzed { texts: Seq::empty(), strs: Seq::empty(), props: Seq::empty() }
    }

    /// The items of `self` followed by the items of `other`, bucket by
    /// bucket.
    pub open spec fn add(self, other: Analyzed) -> Analyzed {
        Analyzed {
            texts: self.texts + other.texts,
            strs: self.strs + other.strs,
            props: self.props + other.props,
        }
    }
}

/// The buckets this variant keeps, out of a full collection value.
pub open spec fn analyzed_of(c: Collected) -> Analyzed {
    Analyzed { texts: c.texts, strs: c.strs, props: c.props }
}

proof fn lemma_analyzed_of_add(a: Collected, b: Collected)
    ensures
        analyzed_of(a.add(b)) == analyzed_of(a).add(analyzed_of(b)),
{
    assert(analyzed_of(a.add(b)) =~= analyzed_of(a).add(analyzed_of(b)));
}

proof fn lemma_analyzed_add_empty(a: Analyzed)
    ensures
        a.add(Analyzed::empty()) == a,
        Analyzed::empty().add(a) == a,
{
    assert(a.add(Analyzed::empty()) =~= a);
    assert(Analyzed::empty().add(a) =~= a);
}

proof fn lemma_analyzed_add_assoc(a: Analyzed, b: Analyzed, c: Analyzed)
    ensures
        a.add(b).add(c) == a.add(b.add(c)),
{
    assert(a.add(b).add(c) =~= a.add(b.add(c)));
}

/// A tree visitor that walks one file's JSX subtrees and appends, in
/// document order, the text fragments, string literals and valued attributes
/// it finds. Unlike `Collector`, it does not record identifier or member
/// references appearing in expression slots.
pub struct JSXAnalyzer {
    pub jsx_texts: Vec<TextLit>,
    pub string_literals: Vec<TextLit>,
    pub props: Vec<AttrItem>,
}

impl JSXAnalyzer {
    /// Everything collected so far, as one mathematical value.
    pub open spec fn analyzed(self) -> Analyzed {
        Analyzed {
            texts: self.jsx_texts.deep_view(),
            strs: self.string_literals.deep_view(),
            props: self.props.deep_view(),
        }
    }

    /// A fresh analyzer with nothing collected.
    pub fn new() -> (a: JSXAnalyzer)
        ensures
            a.analyzed() == Analyzed::empty(),
    {
        let a = JSXAnalyzer {
            jsx_texts: Vec::new(),
            string_literals: Vec::new(),
            props: Vec::new(),
        };
        proof {
            assert(a.analyzed() =~= Analyzed::empty());
        }
        a
    }

    /// Applies the literal rule: a non-whitespace string literal is recorded
    /// as a string literal, non-whitespace JSX text as a text fragment, any
    /// other literal kind is ignored.
    pub fn analyze_literal(&mut self, lit: &Lit)
        ensures
            final (self).analyzed() == old(self).analyzed().add(analyzed_of(lit_items(*lit))),
    {
        match lit {
            Lit::Str(t) => {
                if !is_trimmed_empty(t.value.as_str()) {
                    let item = TextLit { value: t.value.clone(), span: t.span };
                    self.string_literals.push(item);
                }
            },
            Lit::JsxText(t) => {
                if !is_trimmed_empty(t.value.as_str()) {
                    let item = TextLit { value: t.value.clone(), span: t.span };
                    self.jsx_texts.push(item);
                }
            },
            Lit::Other => {},
        }
        proof {
            assert(final (self).analyzed() =~= old(self).analyzed().add(
                analyzed_of(lit_items(*lit)),
            ));
        }
    }

    /// Dispatches on the expression held by a JSX expression container: only
    /// literal expressions are recorded; identifiers, member accesses, other
    /// expression shapes and empty placeholders are ignored by this variant.
    pub fn analyze_jsx_expression_container(&mut self, container: &JsxExpr)
        ensures
            final (self).analyzed() == old(self).analyzed().add(
                analyzed_of(container_items(*container)),
            ),
    {
        match container {
            JsxExpr::Expr(e) => match e {
                Expr::Lit(l) => {
                    self.analyze_literal(l);
                },
                _ => {
                    proof {
                        assert(final (self).analyzed() =~= old(self).analyzed().add(
                            analyzed_of(container_items(*container)),
                        ));
                    }
                },
            },
            JsxExpr::Empty => {
                proof {
                    assert(final (self).analyzed() =~= old(self).analyzed().add(
                        analyzed_of(container_items(*container)),
                    ));
                }
            },
        }
    }

    /// Records one attribute item for each attribute of an opening tag that
    /// carries a value; valueless (boolean-style) attributes are ignored.
    pub fn analyze_jsx_opening_element(&mut self, attrs: &Vec<JsxAttr>)
        ensures
            final (self).analyzed() == old(self).analyzed().add(
                Analyzed { props: attr_items(attrs@), ..Analyzed::empty() },
            ),
    {
        let ghost c0 = self.analyzed();
        let mut i: usize = 0;
        proof {
            assert(attrs@.subrange(0, 0) =~= Seq::<JsxAttr>::empty());
            assert(self.analyzed() =~= c0.add(
                Analyzed { props: attr_items(attrs@.subrange(0, 0)), ..Analyzed::empty() },
            ));
        }
        while i < attrs.len()
            invariant
                0 <= i <= attrs.len(),
                self.analyzed() == c0.add(
                    Analyzed {
                        props: attr_items(attrs@.subrange(0, i as int)),
                        ..Analyzed::empty()
                    },
                ),
            decreases attrs.len() - i,
        {
            let a = &attrs[i];
            let ghost pre = self.analyzed();
            let ghost x = attrs@[i as int];
            proof {
                assert(seq![x].subrange(1, 1) =~= Seq::<JsxAttr>::empty());
                assert(seq![x][0] == x);
                assert(attr_items(Seq::<JsxAttr>::empty()) == Seq::<AttrItemV>::empty());
            }
            match &a.value {
                Some(v) => {
                    let kind = match v {
                        AttrValue::Lit(Lit::Str(t)) => AttrValueKind::StringLit(t.value.clone()),
                        AttrValue::Container(JsxExpr::Expr(Expr::Var(ident))) => {
                            AttrValueKind::Identifier(ident.name.clone())
                        },
                        _ => AttrValueKind::Other,
                    };
                    proof {
                        assert(x.value == Some(*v));
                        assert(kind@ == attr_value_kind(*v));
                    }
                    let item = AttrItem { name: a.name.clone(), value: kind, span: a.span };
                    self.props.push(item);
                    proof {
                        assert(item@ == AttrItemV {
                            name: x.name@,
                            value: attr_value_kind(*v),
                            span: x.span,
                        });
                        assert(attr_items(seq![x]) =~= seq![item@]);
                        assert(self.props.deep_view() =~= pre.props.push(item@));
                        assert(self.analyzed() =~= pre.add(
                            Analyzed { props: attr_items(seq![x]), ..Analyzed::empty() },
                        ));
                    }
                },
                None => {
                    proof {
                        assert(attr_items(seq![x]) =~= Seq::<AttrItemV>::empty());
                        assert(self.analyzed() =~= pre.add(
                            Analyzed { props: attr_items(seq![x]), ..Analyzed::empty() },
                        ));
                    }
                },
            }
            proof {
                let s = attrs@.subrange(0, i as int);
                assert(attrs@.subrange(0, i + 1) =~= s.push(x));
                lemma_attr_items_push(s, x);
                assert(self.analyzed() =~= c0.add(
                    Analyzed {
                        props: attr_items(attrs@.subrange(0, i + 1)),
                        ..Analyzed::empty()
                    },
                ));
            }
            i = i + 1;
        }
        proof {
            assert(attrs@.subrange(0, attrs.len() as int) =~= attrs@);
        }
    }

    /// Visits one child slot: text and literal containers are classified and
    /// recorded, nested elements and fragments are entered recursively,
    /// spread children are ignored.
    pub fn analyze_jsx_child(&mut self, child: &JsxChild)
        ensures
            final (self).analyzed() == old(self).analyzed().add(analyzed_of(child_items(*child))),
        decreases *child,
    {
        match child {
            JsxChild::Text(t) => {
                if !is_trimmed_empty(t.value.as_str()) {
                    let item = TextLit { value: t.value.clone(), span: t.span };
                    self.jsx_texts.push(item);
                }
                proof {
                    assert(final (self).analyzed() =~= old(self).analyzed().add(
                        analyzed_of(child_items(*child)),
                    ));
                }
            },
            JsxChild::Container(ec) => {
                self.analyze_jsx_expression_container(ec);
            },
            JsxChild::Element(e) => {
                proof {
                    assert(decreases_to!(*child => **e));
                }
                self.analyze_jsx_element(e);
            },
            JsxChild::Fragment(f) => {
                proof {
                    assert(decreases_to!(*child => **f));
                }
                self.analyze_jsx_fragment(f);
            },
            JsxChild::Spread => {
                proof {
                    lemma_analyzed_add_empty(old(self).analyzed());
                }
            },
        }
    }

    /// Visits an element: first its opening tag's attributes, then each
    /// child in source order.
    pub fn analyze_jsx_element(&mut self, jsx_element: &JsxElement)
        ensures
            final (self).analyzed() == old(self).analyzed().add(
                analyzed_of(element_items(*jsx_element)),
            ),
        decreases *jsx_element,
    {
        let ghost c0 = self.analyzed();
        self.analyze_jsx_opening_element(&jsx_element.attrs);
        let ghost ca = Analyzed { props: attr_items(jsx_element.attrs@), ..Analyzed::empty() };
        let mut i: usize = 0;
        proof {
            assert(jsx_element.children@.subrange(0, 0) =~= Seq::<JsxChild>::empty());
            assert(children_items(jsx_element.children@.subrange(0, 0)) =~= Collected::empty());
            assert(analyzed_of(Collected::empty()) =~= Analyzed::empty());
            lemma_analyzed_add_empty(c0.add(ca));
        }
        while i < jsx_element.children.len()
            invariant
                0 <= i <= jsx_element.children.len(),
                self.analyzed() == c0.add(ca).add(
                    analyzed_of(children_items(jsx_element.children@.subrange(0, i as int))),
                ),
            decreases jsx_element.children.len() - i,
        {
            proof {
                assert(decreases_to!(*jsx_element => jsx_element.children@[i as int]));
            }
            self.analyze_jsx_child(&jsx_element.children[i]);
            proof {
                let s = jsx_element.children@.subrange(0, i as int);
                let x = jsx_element.children@[i as int];
                assert(jsx_element.children@.subrange(0, i + 1) =~= s.push(x));
                lemma_children_items_push(s, x);
                lemma_analyzed_of_add(children_items(s), child_items(x));
                lemma_analyzed_add_assoc(
                    c0.add(ca),
                    analyzed_of(children_items(s)),
                    analyzed_of(child_items(x)),
                );
            }
            i = i + 1;
        }
        proof {
            assert(jsx_element.children@.subrange(0, jsx_element.children.len() as int)
                =~= jsx_element.children@);
            let cc = children_items(jsx_element.children@);
            lemma_analyzed_add_assoc(c0, ca, analyzed_of(cc));
            assert(ca.add(analyzed_of(cc)) =~= analyzed_of(element_items(*jsx_element)));
        }
    }

    /// Visits a fragment: each child in source order (fragments carry no
    /// attributes to inspect).
    pub fn analyze_jsx_fragment(&mut self, jsx_fragment: &JsxFragment)
        ensures
            final (self).analyzed() == old(self).analyzed().add(
                analyzed_of(fragment_items(*jsx_fragment)),
            ),
        decreases *jsx_fragment,
    {
        let ghost c0 = self.analyzed();
        let mut i: usize = 0;
        proof {
            assert(jsx_fragment.children@.subrange(0, 0) =~= Seq::<JsxChild>::empty());
            assert(children_items(jsx_fragment.children@.subrange(0, 0)) =~= Collected::empty());
            assert(analyzed_of(Collected::empty()) =~= Analyzed::empty());
            lemma_analyzed_add_empty(c0);
        }
        while i < jsx_fragment.children.len()
            invariant
                0 <= i <= jsx_fragment.children.len(),
                self.analyzed() == c0.add(
                    analyzed_of(children_items(jsx_fragment.children@.subrange(0, i as int))),
                ),
            decreases jsx_fragment.children.len() - i,
        {
            proof {
                assert(decreases_to!(*jsx_fragment => jsx_fragment.children@[i as int]));
            }
            self.analyze_jsx_child(&jsx_fragment.children[i]);
            proof {
                let s = jsx_fragment.children@.subrange(0, i as int);
                let x = jsx_fragment.children@[i as int];
                assert(jsx_fragment.children@.subrange(0, i + 1) =~= s.push(x));
                lemma_children_items_push(s, x);
                lemma_analyzed_of_add(children_items(s), child_items(x));
                lemma_analyzed_add_assoc(
                    c0,
                    analyzed_of(children_items(s)),
                    analyzed_of(child_items(x)),
                );
            }
            i = i + 1;
        }
        proof {
            assert(jsx_fragment.children@.subrange(0, jsx_fragment.children.len() as int)
                =~= jsx_fragment.children@);
        }
    }

    /// Visits every top-level JSX subtree of a module, in document order.
    pub fn visit_module(&mut self, module: &Module)
        ensures
            final (self).analyzed() == old(self).analyzed().add(
                analyzed_of(module_items(*module)),
            ),
    {
        let ghost c0 = self.analyzed();
        let mut i: usize = 0;
        proof {
            assert(module.body@.subrange(0, 0) =~= Seq::<JsxRoot>::empty());
            assert(roots_items(module.body@.subrange(0, 0)) =~= Collected::empty());
            assert(analyzed_of(Collected::empty()) =~= Analyzed::empty());
            lemma_analyzed_add_empty(c0);
        }
        while i < module.body.len()
            invariant
                0 <= i <= module.body.len(),
                self.analyzed() == c0.add(
                    analyzed_of(roots_items(module.body@.subrange(0, i as int))),
                ),
            decreases module.body.len() - i,
        {
            match &module.body[i] {
                JsxRoot::Element(e) => {
                    self.analyze_jsx_element(e);
                },
                JsxRoot::Fragment(f) => {
                    self.analyze_jsx_fragment(f);
                },
            }
            proof {
                let s = module.body@.subrange(0, i as int);
                let x = module.body@[i as int];
                assert(module.body@.subrange(0, i + 1) =~= s.push(x));
                lemma_roots_items_push(s, x);
                lemma_analyzed_of_add(roots_items(s), root_items(x));
                lemma_analyzed_add_assoc(c0, analyzed_of(roots_items(s)), analyzed_of(root_items(x)));
            }
            i = i + 1;
        }
        proof {
            assert(module.body@.subrange(0, module.body.len() as int) =~= module.body@);
        }
    }

    /// Normalizes the collected text buckets in place: trims every JSX text
    /// and string literal value and drops items that trim to nothing. The
    /// attribute bucket is untouched. Running it again changes nothing.
    pub fn trim_content(&mut self)
        ensures
            final (self).jsx_texts.deep_view() == normalize_texts(old(self).jsx_texts.deep_view()),
            final (self).string_literals.deep_view() == normalize_texts(
                old(self).string_literals.deep_view(),
            ),
            final (self).props == old(self).props,
    {
        let texts = normalize_text_vec(&self.jsx_texts);
        self.jsx_texts = texts;
        let strs = normalize_text_vec(&self.string_literals);
        self.string_literals = strs;
    }
}

} // verus!
