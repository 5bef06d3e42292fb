use crate::ast::{
    AttrItem, AttrItemV, AttrValueKind, AttrValueKindV, MemberRef, MemberRefV, TextLit, TextLitV,
    VarRef, VarRefV,
};
use crate::report::{ReportItem, ReportItemV};
use crate::source_index::{resolve_spec, FileEntryV, SourceIndex};
use vstd::prelude::*;

verus! {

// ---------------------------------------------------------------------------
// The evaluator: maps one collected item to at most one report entry, using
// the source position index. An item whose span the index cannot map yields
// nothing — position unknown is a skip, never an error.
// ---------------------------------------------------------------------------
/// What evaluating a text item (JSX text or string literal) yields: a
/// finding at the resolved location carrying the item's value, or nothing
/// when the span does not resolve.
pub open spec fn eval_text(t: TextLitV, files: Seq<FileEntryV>) -> Option<ReportItemV> {
    match resolve_spec(files, t.span.lo as int) {
        Some(loc) => Some(
            ReportItemV { filename: loc.filename, line: loc.line, string: t.value, prop_name: None },
        ),
        None => None,
    }
}

/// What evaluating a variable reference yields: a finding carrying the
/// identifier's name, or nothing when the span does not resolve.
pub open spec fn eval_var(v: VarRefV, files: Seq<FileEntryV>) -> Option<ReportItemV> {
    match resolve_spec(files, v.span.lo as int) {
        Some(loc) => Some(
            ReportItemV { filename: loc.filename, line: loc.line, string: v.name, prop_name: None },
        ),
        None => None,
    }
}

/// The dotted rendering of an identifier chain (`object.property`).
pub open spec fn join_path(path: Seq<Seq<char>>) -> Seq<char>
    decreases path.len(),
{
    if path.len() == 0 {
        Seq::empty()
    } else if path.len() == 1 {
        path[0]
    } else {
        path[0] + seq!['.'] + join_path(path.subrange(1, path.len() as int))
    }
}

/// What evaluating a member reference yields: a finding carrying the dotted
/// rendering of the access path, or nothing when the span does not resolve.
pub open spec fn eval_member(m: MemberRefV, files: Seq<FileEntryV>) -> Option<ReportItemV> {
    match resolve_spec(files, m.span.lo as int) {
        Some(loc) => Some(
            ReportItemV {
                filename: loc.filename,
                line: loc.line,
                string: join_path(m.path),
                prop_name: None,
            },
        ),
        None => None,
    }
}

/// What evaluating an attribute item yields. The policy is deliberately
/// asymmetric: an attribute whose value is a plain string literal is
/// withheld (treated as an intentional static string), an attribute bound
/// to a bare identifier yields a finding that names the attribute and
/// carries the identifier, and any richer value shape yields nothing.
pub open spec fn eval_attr(a: AttrItemV, files: Seq<FileEntryV>) -> Option<ReportItemV> {
    match a.value {
        AttrValueKindV::Identifier(sym) => match resolve_spec(files, a.span.lo as int) {
            Some(loc) => Some(
                ReportItemV {
                    filename: loc.filename,
                    line: loc.line,
                    string: sym,
                    prop_name: Some(a.name),
                },
            ),
            None => None,
        },
        _ => None,
    }
}

proof fn lemma_join_path_push(path: Seq<Seq<char>>, x: Seq<char>)
    ensures
        join_path(path.push(x)) == if path.len() == 0 {
            x
        } else {
            join_path(path) + seq!['.'] + x
        },
    decreases path.len(),
{
    if path.len() == 0 {
        assert(path.push(x).len() == 1);
        assert(path.push(x)[0] == x);
    } else {
        let p = path.push(x);
        assert(p[0] == path[0]);
        assert(p.subrange(1, p.len() as int) =~= path.subrange(1, path.len() as int).push(x));
        lemma_join_path_push(path.subrange(1, path.len() as int), x);
        if path.len() == 1 {
            assert(path.subrange(1, 1) =~= Seq::<Seq<char>>::empty());
            assert(join_path(path) == path[0]);
        } else {
            assert(join_path(path) + seq!['.'] + x =~= path[0] + seq!['.'] + (join_path(
                path.subrange(1, path.len() as int),
            ) + seq!['.'] + x));
        }
    }
}

/// Renders an identifier chain as a dotted path.
pub fn render_path(path: &Vec<String>) -> (r: String)
    ensures
        r@ == join_path(path.deep_view()),
{
    let mut r = String::new();
    let mut i: usize = 0;
    proof {
        assert(path.deep_view().subrange(0, 0) =~= Seq::<Seq<char>>::empty());
    }
    while i < path.len()
        invariant
            0 <= i <= path@.len(),
            path.deep_view().len() == path@.len(),
            r@ == join_path(path.deep_view().subrange(0, i as int)),
        decreases path@.len() - i,
    {
        if i > 0 {
            r.append(".");
            proof {
                reveal_strlit(".");
                assert("."@ =~= seq!['.']);
            }
        }
        r.append(path[i].as_str());
        proof {
            let pre = path.deep_view().subrange(0, i as int);
            let x = path.deep_view()[i as int];
            assert(path.deep_view().subrange(0, i + 1) =~= pre.push(x));
            lemma_join_path_push(pre, x);
            if i == 0 {
                assert(r@ =~= x);
            } else {
                assert(r@ =~= join_path(pre) + seq!['.'] + x);
            }
        }
        i = i + 1;
    }
    proof {
        assert(path.deep_view().subrange(0, path@.len() as int) =~= path.deep_view());
    }
    r
}

/// Maps one collected item to at most one report entry, against the shared
/// source position index.
pub trait Evaluate {
    /// What this item's evaluation yields against the given tracked files.
    spec fn eval_spec(&self, files: Seq<FileEntryV>) -> Option<ReportItemV>;

    /// Evaluates the item; yields nothing when its position is unknown.
    fn evaluate(&self, index: &SourceIndex) -> (r: Option<ReportItem>)
        requires
            index.wf(),
        ensures
            r.deep_view() == self.eval_spec(index@),
    ;
}

impl Evaluate for TextLit {
    open spec fn eval_spec(&self, files: Seq<FileEntryV>) -> Option<ReportItemV> {
        eval_text(self@, files)
    }

    fn evaluate(&self, index: &SourceIndex) -> (r: Option<ReportItem>)
        ensures
            r.deep_view() == self.eval_spec(index@),
    {
        match index.resolve(self.span.lo) {
            Some(loc) => {
                let item = ReportItem {
                    filename: loc.filename,
                    line: loc.line,
                    string: self.value.clone(),
                    prop_name: None,
                };
                Some(item)
            },
            None => None,
        }
    }
}

impl Evaluate for VarRef {
    open spec fn eval_spec(&self, files: Seq<FileEntryV>) -> Option<ReportItemV> {
        eval_var(self@, files)
    }

    fn evaluate(&self, index: &SourceIndex) -> (r: Option<ReportItem>)
        ensures
            r.deep_view() == self.eval_spec(index@),
    {
        match index.resolve(self.span.lo) {
            Some(loc) => {
                let item = ReportItem {
                    filename: loc.filename,
                    line: loc.line,
                    string: self.name.clone(),
                    prop_name: None,
                };
                Some(item)
            },
            None => None,
        }
    }
}

impl Evaluate for MemberRef {
    open spec fn eval_spec(&self, files: Seq<FileEntryV>) -> Option<ReportItemV> {
        eval_member(self@, files)
    }

    fn evaluate(&self, index: &SourceIndex) -> (r: Option<ReportItem>)
        ensures
            r.deep_view() == self.eval_spec(index@),
    {
        match index.resolve(self.span.lo) {
            Some(loc) => {
                let item = ReportItem {
                    filename: loc.filename,
                    line: loc.line,
                    string: render_path(&self.path),
                    prop_name: None,
                };
                Some(item)
            },
            None => None,
        }
    }
}

impl Evaluate for AttrItem {
    open spec fn eval_spec(&self, files: Seq<FileEntryV>) -> Option<ReportItemV> {
        eval_attr(self@, files)
    }

    fn evaluate(&self, index: &SourceIndex) -> (r: Option<ReportItem>)
        ensures
            r.deep_view() == self.eval_spec(index@),
    {
        match &self.value {
            AttrValueKind::Identifier(sym) => {
                match index.resolve(self.span.lo) {
                    Some(loc) => {
                        let item = ReportItem {
                            filename: loc.filename,
                            line: loc.line,
                            string: sym.clone(),
                            prop_name: Some(self.name.clone()),
                        };
                        Some(item)
                    },
                    None => None,
                }
            },
            _ => None,
        }
    }
}

} // verus!
