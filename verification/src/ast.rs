use crate::span::Span;
use vstd::prelude::*;

verus! {

// ---------------------------------------------------------------------------
// The syntax-tree model the collector walks.
//
// The external parser's tree is converted, outside this library, into these
// closed tagged variants: each grammar category keeps exactly the shape the
// collector dispatches on, plus an explicit `Other` arm for every shape the
// collector ignores, so the traversal is total by construction.
// ---------------------------------------------------------------------------
/// A piece of literal text (JSX text or a string literal) with its span.
#[derive(Clone, PartialEq, Eq, Debug)]
pub struct TextLit {
    pub value: String,
    pub span: Span,
}

/// A bare identifier appearing in an expression slot.
#[derive(Clone, PartialEq, Eq, Debug)]
pub struct VarRef {
    pub name: String,
    pub span: Span,
}

/// A property access rendered as a chain of identifiers (`object.property`).
#[derive(Clone, PartialEq, Eq, Debug)]
pub struct MemberRef {
    pub path: Vec<String>,
    pub span: Span,
}

/// A literal expression; kinds the collector ignores (numbers, booleans,
/// null, ...) are collapsed into `Other`.
#[derive(Clone, PartialEq, Eq, Debug)]
pub enum Lit {
    Str(TextLit),
    JsxText(TextLit),
    Other,
}

/// An expression inside a JSX expression container or attribute value.
#[derive(Clone, PartialEq, Eq, Debug)]
pub enum Expr {
    Lit(Lit),
    Var(VarRef),
    Member(MemberRef),
    Other,
}

/// The content of a JSX expression container: an expression, or the empty
/// placeholder (`{}` with only comments inside).
#[derive(Clone, PartialEq, Eq, Debug)]
pub enum JsxExpr {
    Empty,
    Expr(Expr),
}

/// The value of a JSX attribute. Element- or fragment-valued attributes are
/// collapsed into `Other`.
#[derive(Clone, PartialEq, Eq, Debug)]
pub enum AttrValue {
    Lit(Lit),
    Container(JsxExpr),
    Other,
}

/// A JSX attribute of an opening tag. `value` is `None` for boolean-style
/// flags written without a value.
#[derive(Clone, PartialEq, Eq, Debug)]
pub struct JsxAttr {
    pub name: String,
    pub value: Option<AttrValue>,
    pub span: Span,
}

/// One child slot of an element or fragment.
pub enum JsxChild {
    Text(TextLit),
    Container(JsxExpr),
    Element(Box<JsxElement>),
    Fragment(Box<JsxFragment>),
    Spread,
}

/// A JSX element: the attributes of its opening tag and its children.
pub struct JsxElement {
    pub attrs: Vec<JsxAttr>,
    pub children: Vec<JsxChild>,
}

/// A JSX fragment: children without a wrapping tag (fragments carry no
/// attributes).
pub struct JsxFragment {
    pub children: Vec<JsxChild>,
}

/// A top-level JSX subtree found in a module's body.
pub enum JsxRoot {
    Element(JsxElement),
    Fragment(JsxFragment),
}

/// One parsed file: its JSX subtrees in document order.
pub struct Module {
    pub body: Vec<JsxRoot>,
}

// ---------------------------------------------------------------------------
// Mathematical views of the collected item types. Only the types that the
// collector produces need views: contracts build sequences of these, which
// requires constructing values in specifications.
// ---------------------------------------------------------------------------
/// View of `TextLit`.
pub ghost struct TextLitV {
    pub value: Seq<char>,
    pub span: Span,
}

/// View of `VarRef`.
pub ghost struct VarRefV {
    pub name: Seq<char>,
    pub span: Span,
}

/// View of `MemberRef`.
pub ghost struct MemberRefV {
    pub path: Seq<Seq<char>>,
    pub span: Span,
}

/// The classified value of a collected attribute: a plain string literal, a
/// bare identifier (with its name), or any richer shape.
pub ghost enum AttrValueKindV {
    StringLit(Seq<char>),
    Identifier(Seq<char>),
    Other,
}

/// View of a collected attribute item.
pub ghost struct AttrItemV {
    pub name: Seq<char>,
    pub value: AttrValueKindV,
    pub span: Span,
}

impl View for TextLit {
    type V = TextLitV;

    open spec fn view(&self) -> TextLitV {
        TextLitV { value: self.value@, span: self.span }
    }
}

impl DeepView for TextLit {
    type V = TextLitV;

    open spec fn deep_view(&self) -> TextLitV {
        self@
    }
}

impl View for VarRef {
    type V = VarRefV;

    open spec fn view(&self) -> VarRefV {
        VarRefV { name: self.name@, span: self.span }
    }
}

impl DeepView for VarRef {
    type V = VarRefV;

    open spec fn deep_view(&self) -> VarRefV {
        self@
    }
}

impl View for MemberRef {
    type V = MemberRefV;

    open spec fn view(&self) -> MemberRefV {
        MemberRefV { path: self.path.deep_view(), span: self.span }
    }
}

impl DeepView for MemberRef {
    type V = MemberRefV;

    open spec fn deep_view(&self) -> MemberRefV {
        self@
    }
}

/// A collected attribute: the attribute's name, the classified shape of its
/// value, and the span of the attribute.
#[derive(Clone, PartialEq, Eq, Debug)]
pub struct AttrItem {
    pub name: String,
    pub value: AttrValueKind,
    pub span: Span,
}

/// Executable counterpart of `AttrValueKindV`.
#[derive(Clone, PartialEq, Eq, Debug)]
pub enum AttrValueKind {
    StringLit(String),
    Identifier(String),
    Other,
}

impl View for AttrValueKind {
    type V = AttrValueKindV;

    open spec fn view(&self) -> AttrValueKindV {
        match self {
            AttrValueKind::StringLit(s) => AttrValueKindV::StringLit(s@),
            AttrValueKind::Identifier(s) => AttrValueKindV::Identifier(s@),
            AttrValueKind::Other => AttrValueKindV::Other,
        }
    }
}

impl View for AttrItem {
    type V = AttrItemV;

    open spec fn view(&self) -> AttrItemV {
        AttrItemV { name: self.name@, value: self.value@, span: self.span }
    }
}

impl DeepView for AttrItem {
    type V = AttrItemV;

    open spec fn deep_view(&self) -> AttrItemV {
        self@
    }
}

} // verus!
