use crate::ast::{
    AttrItem, AttrItemV, AttrValue, AttrValueKind, AttrValueKindV, Expr, JsxAttr, JsxChild,
    JsxElement, JsxExpr, JsxFragment, JsxRoot, Lit, MemberRef, MemberRefV, Module, TextLit,
    TextLitV, VarRef, VarRefV,
};
use crate::normalize::{normalize_text_vec, normalize_texts};
use crate::text::{is_trimmed_empty, trimmed_empty};
use vstd::prelude::*;

verus! {

// ---------------------------------------------------------------------------
// What a traversal collects, as one mathematical value: five sequences, each
// in pre-order document order (an element's attributes before its children,
// siblings in source order, parents before descendants).
// ---------------------------------------------------------------------------
/// The items one subtree contributes, bucket by bucket.
#[verifier::ext_equal]
pub ghost struct Collected {
    pub texts: Seq<TextLitV>,
    pub strs: Seq<TextLitV>,
    pub vars: Seq<VarRefV>,
    pub members: Seq<MemberRefV>,
    pub props: Seq<AttrItemV>,
}

impl Collected {
    /// Nothing collected yet.
    pub open spec fn empty() -> Collected {
        Collected {
            texts: Seq::empty(),
            strs: Seq::empty(),
            vars: Seq::empty(),
            members: Seq::empty(),
            props: Seq::empty(),
        }
    }

    /// The items of `self` followed by the items of `other`, bucket by
    /// bucket.
    pub open spec fn add(self, other: Collected) -> Collected {
        Collected {
            texts: self.texts + other.texts,
            strs: self.strs + other.strs,
            vars: self.vars + other.vars,
            members: self.members + other.members,
            props: self.props + other.props,
        }
    }
}

/// What a literal expression contributes: a non-whitespace string literal to
/// the string bucket, non-whitespace JSX-text to the text bucket, any other
/// literal kind nothing.
pub open spec fn lit_items(l: Lit) -> Collected {
    match l {
        Lit::Str(t) => if !trimmed_empty(t.value@) {
            Collected { strs: seq![t@], ..Collected::empty() }
        } else {
            Collected::empty()
        },
        Lit::JsxText(t) => if !trimmed_empty(t.value@) {
            Collected { texts: seq![t@], ..Collected::empty() }
        } else {
            Collected::empty()
        },
        Lit::Other => Collected::empty(),
    }
}

/// What an expression container contributes: literals follow the literal
/// rule, a bare identifier is a variable reference, a property access is a
/// member reference, anything else is ignored.
pub open spec fn container_items(c: JsxExpr) -> Collected {
    match c {
        JsxExpr::Empty => Collected::empty(),
        JsxExpr::Expr(e) => match e {
            Expr::Lit(l) => lit_items(l),
            Expr::Var(v) => Collected { vars: seq![v@], ..Collected::empty() },
            Expr::Member(m) => Collected { members: seq![m@], ..Collected::empty() },
            Expr::Other => Collected::empty(),
        },
    }
}

/// The classified shape of an attribute value: a plain string literal, a
/// bare identifier, or any richer shape.
pub open spec fn attr_value_kind(v: AttrValue) -> AttrValueKindV {
    match v {
        AttrValue::Lit(Lit::Str(t)) => AttrValueKindV::StringLit(t.value@),
        AttrValue::Container(JsxExpr::Expr(Expr::Var(x))) => AttrValueKindV::Identifier(x.name@),
        _ => AttrValueKindV::Other,
    }
}

/// What an attribute list contributes: one item per attribute that carries a
/// value, in source order; valueless (boolean-style) attributes are ignored.
pub open spec fn attr_items(attrs: Seq<JsxAttr>) -> Seq<AttrItemV>
    decreases attrs.len(),
{
    if attrs.len() == 0 {
        Seq::empty()
    } else {
        (match attrs[0].value {
            Some(v) => seq![
                AttrItemV {
                    name: attrs[0].name@,
                    value: attr_value_kind(v),
                    span: attrs[0].span,
                },
            ],
            None => Seq::empty(),
        }) + attr_items(attrs.subrange(1, attrs.len() as int))
    }
}

/// What one child slot contributes.
pub open spec fn child_items(c: JsxChild) -> Collected
    decreases c,
{
    match c {
        JsxChild::Text(t) => if !trimmed_empty(t.value@) {
            Collected { texts: seq![t@], ..Collected::empty() }
        } else {
            Collected::empty()
        },
        JsxChild::Container(ec) => container_items(ec),
        JsxChild::Element(e) => element_items(*e),
        JsxChild::Fragment(f) => fragment_items(*f),
        JsxChild::Spread => Collected::empty(),
    }
}

/// What a child list contributes, in source order.
pub open spec fn children_items(cs: Seq<JsxChild>) -> Collected
    decreases cs,
{
    if cs.len() == 0 {
        Collected::empty()
    } else {
        child_items(cs[0]).add(children_items(cs.subrange(1, cs.len() as int)))
    }
}

/// What an element contributes: its opening tag's attribute items first,
/// then its children's items.
pub open spec fn element_items(e: JsxElement) -> Collected
    decreases e,
{
    Collected { props: attr_items(e.attrs@), ..Collected::empty() }.add(
        children_items(e.children@),
    )
}

/// What a fragment contributes: its children's items (fragments carry no
/// attributes).
pub open spec fn fragment_items(f: JsxFragment) -> Collected
    decreases f,
{
    children_items(f.children@)
}

/// What one top-level JSX subtree contributes.
pub open spec fn root_items(r: JsxRoot) -> Collected {
    match r {
        JsxRoot::Element(e) => element_items(e),
        JsxRoot::Fragment(f) => fragment_items(f),
    }
}

/// What a whole module contributes: its subtrees' items in document order.
pub open spec fn module_items(m: Module) -> Collected
    decreases m.body@.len(),
{
    roots_items(m.body@)
}

/// What a list of top-level subtrees contributes, in source order.
pub open spec fn roots_items(rs: Seq<JsxRoot>) -> Collected
    decreases rs,
{
    if rs.len() == 0 {
        Collected::empty()
    } else {
        root_items(rs[0]).add(roots_items(rs.subrange(1, rs.len() as int)))
    }
}

// ---------------------------------------------------------------------------
// Concatenation lemmas used to run the recursive specifications left to
// right, the way the executable traversal does.
// ---------------------------------------------------------------------------
pub(crate) proof fn lemma_add_empty(c: Collected)
    ensures
        c.add(Collected::empty()) == c,
        Collected::empty().add(c) == c,
{
    assert(c.add(Collected::empty()) =~= c);
    assert(Collected::empty().add(c) =~= c);
}

pub(crate) proof fn lemma_add_assoc(a: Collected, b: Collected, c: Collected)
    ensures
        a.add(b).add(c) == a.add(b.add(c)),
{
    assert(a.add(b).add(c) =~= a.add(b.add(c)));
}

pub(crate) proof fn lemma_children_items_push(cs: Seq<JsxChild>, x: JsxChild)
    ensures
        children_items(cs.push(x)) == children_items(cs).add(child_items(x)),
    decreases cs,
{
    if cs.len() == 0 {
        assert(cs.push(x)[0] == x);
        assert(cs.push(x).subrange(1, cs.push(x).len() as int) =~= Seq::<JsxChild>::empty());
        assert(children_items(Seq::<JsxChild>::empty()) == Collected::empty());
        lemma_add_empty(child_items(x));
        assert(children_items(cs.push(x)) =~= children_items(cs).add(child_items(x)));
    } else {
        assert(cs.push(x)[0] == cs[0]);
        assert(cs.push(x).subrange(1, cs.push(x).len() as int) =~= cs.subrange(
            1,
            cs.len() as int,
        ).push(x));
        lemma_children_items_push(cs.subrange(1, cs.len() as int), x);
        lemma_add_assoc(
            child_items(cs[0]),
            children_items(cs.subrange(1, cs.len() as int)),
            child_items(x),
        );
    }
}

pub(crate) proof fn lemma_roots_items_push(rs: Seq<JsxRoot>, x: JsxRoot)
    ensures
        roots_items(rs.push(x)) == roots_items(rs).add(root_items(x)),
    decreases rs,
{
    if rs.len() == 0 {
        assert(rs.push(x)[0] == x);
        assert(rs.push(x).subrange(1, rs.push(x).len() as int) =~= Seq::<JsxRoot>::empty());
        assert(roots_items(Seq::<JsxRoot>::empty()) == Collected::empty());
        lemma_add_empty(root_items(x));
        assert(roots_items(rs.push(x)) =~= roots_items(rs).add(root_items(x)));
    } else {
        assert(rs.push(x)[0] == rs[0]);
        assert(rs.push(x).subrange(1, rs.push(x).len() as int) =~= rs.subrange(
            1,
            rs.len() as int,
        ).push(x));
        lemma_roots_items_push(rs.subrange(1, rs.len() as int), x);
        lemma_add_assoc(
            root_items(rs[0]),
            roots_items(rs.subrange(1, rs.len() as int)),
            root_items(x),
        );
    }
}

pub(crate) proof fn lemma_attr_items_push(attrs: Seq<JsxAttr>, x: JsxAttr)
    ensures
        attr_items(attrs.push(x)) == attr_items(attrs) + attr_items(seq![x]),
    decreases attrs.len(),
{
    if attrs.len() == 0 {
        assert(attrs.push(x) =~= seq![x]);
        assert(attr_items(attrs) =~= Seq::<AttrItemV>::empty());
        assert(attr_items(attrs) + attr_items(seq![x]) =~= attr_items(seq![x]));
    } else {
        assert(attrs.push(x)[0] == attrs[0]);
        assert(attrs.push(x).subrange(1, attrs.push(x).len() as int) =~= attrs.subrange(
            1,
            attrs.len() as int,
        ).push(x));
        lemma_attr_items_push(attrs.subrange(1, attrs.len() as int), x);
        assert(attr_items(attrs.push(x)) =~= attr_items(attrs) + attr_items(seq![x]));
    }
}

// ---------------------------------------------------------------------------
// The collector itself.
// ---------------------------------------------------------------------------
/// A tree visitor that walks one file's JSX subtrees and appends, in
/// document order, the text fragments, string literals, identifier and
/// member references, and valued attributes it finds.
///
/// A collector is created per file, fed one tree, then normalized with
/// `trim_content` and consumed by evaluation; it is not reused across files.
pub struct Collector {
    pub jsx_texts: Vec<TextLit>,
    pub string_literals: Vec<TextLit>,
    pub variables: Vec<VarRef>,
    pub object_properties: Vec<MemberRef>,
    pub props: Vec<AttrItem>,
}

impl Collector {
    /// Everything collected so far, as one mathematical value.
    pub open spec fn collected(self) -> Collected {
        Collected {
            texts: self.jsx_texts.deep_view(),
            strs: self.string_literals.deep_view(),
            vars: self.variables.deep_view(),
            members: self.object_properties.deep_view(),
            props: self.props.deep_view(),
        }
    }

    /// A fresh collector with nothing collected.
    pub fn new() -> (c: Collector)
        ensures
            c.collected() == Collected::empty(),
    {
        let c = Collector {
            jsx_texts: Vec::new(),
            string_literals: Vec::new(),
            variables: Vec::new(),
            object_properties: Vec::new(),
            props: Vec::new(),
        };
        proof {
            assert(c.collected() =~= Collected::empty());
        }
        c
    }

    /// Applies the literal rule: a non-whitespace string literal is recorded
    /// as a string literal, non-whitespace JSX text as a text fragment, any
    /// other literal kind is ignored.
    pub fn parse_literal(&mut self, lit: &Lit)
        ensures
            final (self).collected() == old(self).collected().add(lit_items(*lit)),
    {
        match lit {
            Lit::Str(t) => {
                if !is_trimmed_empty(t.value.as_str()) {
                    let item = TextLit { value: t.value.clone(), span: t.span };
                    self.string_literals.push(item);
                }
            },
            Lit::JsxText(t) => {
                if !is_trimmed_empty(t.value.as_str()) {
                    let item = TextLit { value: t.value.clone(), span: t.span };
                    self.jsx_texts.push(item);
                }
            },
            Lit::Other => {},
        }
        proof {
            assert(final (self).collected() =~= old(self).collected().add(lit_items(*lit)));
        }
    }

    /// Dispatches on the expression held by a JSX expression container;
    /// empty placeholders and unrecognized expression shapes are ignored.
    pub fn parse_jsx_expression_container(&mut self, container: &JsxExpr)
        ensures
            final (self).collected() == old(self).collected().add(container_items(*container)),
    {
        match container {
            JsxExpr::Expr(e) => match e {
                Expr::Lit(l) => {
                    self.parse_literal(l);
                },
                Expr::Var(v) => {
                    let item = VarRef { name: v.name.clone(), span: v.span };
                    self.variables.push(item);
                },
                Expr::Member(m) => {
                    let item = MemberRef { path: m.path.clone(), span: m.span };
                    self.object_properties.push(item);
                },
                Expr::Other => {},
            },
            JsxExpr::Empty => {},
        }
        proof {
            assert(final (self).collected() =~= old(self).collected().add(
                container_items(*container),
            ));
        }
    }

    /// Records one attribute item for each attribute that carries a value;
    /// valueless (boolean-style) attributes are ignored.
    fn parse_attrs(&mut self, attrs: &Vec<JsxAttr>)
        ensures
            final (self).collected() == old(self).collected().add(
                Collected { props: attr_items(attrs@), ..Collected::empty() },
            ),
    {
        let ghost c0 = self.collected();
        let mut i: usize = 0;
        proof {
            assert(attrs@.subrange(0, 0) =~= Seq::<JsxAttr>::empty());
            assert(self.collected() =~= c0.add(
                Collected { props: attr_items(attrs@.subrange(0, 0)), ..Collected::empty() },
            ));
        }
        while i < attrs.len()
            invariant
                0 <= i <= attrs.len(),
                self.collected() == c0.add(
                    Collected {
                        props: attr_items(attrs@.subrange(0, i as int)),
                        ..Collected::empty()
                    },
                ),
            decreases attrs.len() - i,
        {
            let a = &attrs[i];
            let ghost pre = self.collected();
            let ghost x = attrs@[i as int];
            proof {
                assert(seq![x].subrange(1, 1) =~= Seq::<JsxAttr>::empty());
                assert(seq![x][0] == x);
                assert(attr_items(Seq::<JsxAttr>::empty()) == Seq::<AttrItemV>::empty());
            }
            match &a.value {
                Some(v) => {
                    let kind = match v {
                        AttrValue::Lit(Lit::Str(t)) => AttrValueKind::StringLit(t.value.clone()),
                        AttrValue::Container(JsxExpr::Expr(Expr::Var(ident))) => {
                            AttrValueKind::Identifier(ident.name.clone())
                        },
                        _ => AttrValueKind::Other,
                    };
                    proof {
                        assert(x.value == Some(*v));
                        assert(kind@ == attr_value_kind(*v));
                    }
                    let item = AttrItem { name: a.name.clone(), value: kind, span: a.span };
                    self.props.push(item);
                    proof {
                        assert(item@ == AttrItemV {
                            name: x.name@,
                            value: attr_value_kind(*v),
                            span: x.span,
                        });
                        assert(attr_items(seq![x]) =~= seq![item@]);
                        assert(self.props.deep_view() =~= pre.props.push(item@));
                        assert(self.collected() =~= pre.add(
                            Collected { props: attr_items(seq![x]), ..Collected::empty() },
                        ));
                    }
                },
                None => {
                    proof {
                        assert(attr_items(seq![x]) =~= Seq::<AttrItemV>::empty());
                        assert(self.collected() =~= pre.add(
                            Collected { props: attr_items(seq![x]), ..Collected::empty() },
                        ));
                    }
                },
            }
            proof {
                let s = attrs@.subrange(0, i as int);
                assert(attrs@.subrange(0, i + 1) =~= s.push(x));
                lemma_attr_items_push(s, x);
                assert(self.collected() =~= c0.add(
                    Collected {
                        props: attr_items(attrs@.subrange(0, i + 1)),
                        ..Collected::empty()
                    },
                ));
            }
            i = i + 1;
        }
        proof {
            assert(attrs@.subrange(0, attrs.len() as int) =~= attrs@);
        }
    }

    /// Visits one child slot: text and expression containers are classified
    /// and recorded, nested elements and fragments are entered recursively,
    /// spread children are ignored.
    pub fn parse_jsx_child(&mut self, child: &JsxChild)
        ensures
            final (self).collected() == old(self).collected().add(child_items(*child)),
        decreases *child,
    {
        match child {
            JsxChild::Text(t) => {
                if !is_trimmed_empty(t.value.as_str()) {
                    let item = TextLit { value: t.value.clone(), span: t.span };
                    self.jsx_texts.push(item);
                }
                proof {
                    assert(final (self).collected() =~= old(self).collected().add(
                        child_items(*child),
                    ));
                }
            },
            JsxChild::Container(ec) => {
                self.parse_jsx_expression_container(ec);
            },
            JsxChild::Element(e) => {
                proof {
                    assert(decreases_to!(*child => **e));
                }
                self.parse_jsx_element(e);
            },
            JsxChild::Fragment(f) => {
                proof {
                    assert(decreases_to!(*child => **f));
                }
                self.parse_jsx_fragment(f);
            },
            JsxChild::Spread => {
                proof {
                    lemma_add_empty(old(self).collected());
                }
            },
        }
    }

    /// Visits an element: first its opening tag's attributes, then each
    /// child in source order.
    pub fn parse_jsx_element(&mut self, jsx_element: &JsxElement)
        ensures
            final (self).collected() == old(self).collected().add(element_items(*jsx_element)),
        decreases *jsx_element,
    {
        let ghost c0 = self.collected();
        self.parse_attrs(&jsx_element.attrs);
        let ghost ca = Collected {
            props: attr_items(jsx_element.attrs@),
            ..Collected::empty()
        };
        let mut i: usize = 0;
        proof {
            assert(jsx_element.children@.subrange(0, 0) =~= Seq::<JsxChild>::empty());
            lemma_add_empty(ca);
            assert(children_items(jsx_element.children@.subrange(0, 0)) =~= Collected::empty());
            lemma_add_empty(c0.add(ca));
        }
        while i < jsx_element.children.len()
            invariant
                0 <= i <= jsx_element.children.len(),
                self.collected() == c0.add(ca).add(
                    children_items(jsx_element.children@.subrange(0, i as int)),
                ),
            decreases jsx_element.children.len() - i,
        {
            proof {
                assert(decreases_to!(*jsx_element => jsx_element.children@[i as int]));
            }
            let ghost pre = self.collected();
            self.parse_jsx_child(&jsx_element.children[i]);
            proof {
                let s = jsx_element.children@.subrange(0, i as int);
                let x = jsx_element.children@[i as int];
                assert(jsx_element.children@.subrange(0, i + 1) =~= s.push(x));
                lemma_children_items_push(s, x);
                lemma_add_assoc(c0.add(ca), children_items(s), child_items(x));
            }
            i = i + 1;
        }
        proof {
            assert(jsx_element.children@.subrange(0, jsx_element.children.len() as int)
                =~= jsx_element.children@);
            lemma_add_assoc(c0, ca, children_items(jsx_element.children@));
            assert(ca.add(children_items(jsx_element.children@)) =~= element_items(*jsx_element));
        }
    }

    /// Visits a fragment: each child in source order (fragments carry no
    /// attributes to inspect).
    pub fn parse_jsx_fragment(&mut self, jsx_fragment: &JsxFragment)
        ensures
            final (self).collected() == old(self).collected().add(fragment_items(*jsx_fragment)),
        decreases *jsx_fragment,
    {
        let ghost c0 = self.collected();
        let mut i: usize = 0;
        proof {
            assert(jsx_fragment.children@.subrange(0, 0) =~= Seq::<JsxChild>::empty());
            assert(children_items(jsx_fragment.children@.subrange(0, 0)) =~= Collected::empty());
            lemma_add_empty(c0);
        }
        while i < jsx_fragment.children.len()
            invariant
                0 <= i <= jsx_fragment.children.len(),
                self.collected() == c0.add(
                    children_items(jsx_fragment.children@.subrange(0, i as int)),
                ),
            decreases jsx_fragment.children.len() - i,
        {
            proof {
                assert(decreases_to!(*jsx_fragment => jsx_fragment.children@[i as int]));
            }
            self.parse_jsx_child(&jsx_fragment.children[i]);
            proof {
                let s = jsx_fragment.children@.subrange(0, i as int);
                let x = jsx_fragment.children@[i as int];
                assert(jsx_fragment.children@.subrange(0, i + 1) =~= s.push(x));
                lemma_children_items_push(s, x);
                lemma_add_assoc(c0, children_items(s), child_items(x));
            }
            i = i + 1;
        }
        proof {
            assert(jsx_fragment.children@.subrange(0, jsx_fragment.children.len() as int)
                =~= jsx_fragment.children@);
        }
    }

    /// Visits every top-level JSX subtree of a module, in document order.
    pub fn visit_module(&mut self, module: &Module)
        ensures
            final (self).collected() == old(self).collected().add(module_items(*module)),
    {
        let ghost c0 = self.collected();
        let mut i: usize = 0;
        proof {
            assert(module.body@.subrange(0, 0) =~= Seq::<JsxRoot>::empty());
            assert(roots_items(module.body@.subrange(0, 0)) =~= Collected::empty());
            lemma_add_empty(c0);
        }
        while i < module.body.len()
            invariant
                0 <= i <= module.body.len(),
                self.collected() == c0.add(roots_items(module.body@.subrange(0, i as int))),
            decreases module.body.len() - i,
        {
            match &module.body[i] {
                JsxRoot::Element(e) => {
                    self.parse_jsx_element(e);
                },
                JsxRoot::Fragment(f) => {
                    self.parse_jsx_fragment(f);
                },
            }
            proof {
                let s = module.body@.subrange(0, i as int);
                let x = module.body@[i as int];
                assert(module.body@.subrange(0, i + 1) =~= s.push(x));
                lemma_roots_items_push(s, x);
                lemma_add_assoc(c0, roots_items(s), root_items(x));
            }
            i = i + 1;
        }
        proof {
            assert(module.body@.subrange(0, module.body.len() as int) =~= module.body@);
        }
    }

    /// Normalizes the collected text buckets in place: trims every JSX text
    /// and string literal value and drops items that trim to nothing. The
    /// reference buckets are untouched. Running it again changes nothing.
    pub fn trim_content(&mut self)
        ensures
            final (self).jsx_texts.deep_view() == normalize_texts(old(self).jsx_texts.deep_view()),
            final (self).string_literals.deep_view() == normalize_texts(
                old(self).string_literals.deep_view(),
            ),
            final (self).variables == old(self).variables,
            final (self).object_properties == old(self).object_properties,
            final (self).props == old(self).props,
    {
        let texts = normalize_text_vec(&self.jsx_texts);
        self.jsx_texts = texts;
        let strs = normalize_text_vec(&self.string_literals);
        self.string_literals = strs;
    }
}

} // verus!
