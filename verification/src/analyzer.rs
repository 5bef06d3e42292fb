use crate::ast::{AttrItem, AttrItemV, MemberRef, MemberRefV, Module, TextLit, TextLitV, VarRef, VarRefV};
use crate::collector::{lemma_add_empty, module_items, Collected, Collector};
use crate::evaluate::{eval_attr, eval_member, eval_text, eval_var, Evaluate};
use crate::jsx_analyzer::JSXAnalyzer;
use crate::normalize::normalize_texts;
use crate::report::{Bucket, Report, ReportItemV};
use crate::source_index::{resolve_spec, FileEntryV, SourceIndex};
use vstd::prelude::*;

verus! {

// ---------------------------------------------------------------------------
// The per-file pipeline: a fresh collector visits the file's tree, its
// output is normalized, and every item is evaluated against the shared
// source position index and folded into the report. Files are independent;
// the index and the report are the only shared state.
// ---------------------------------------------------------------------------
/// One file's tree paired with the collector that will walk it.
pub struct Analyzer {
    pub module: Module,
    pub collector: Collector,
}

impl Analyzer {
    /// Pairs a parsed module with a fresh, empty collector.
    pub fn new(module: Module) -> (a: Analyzer)
        ensures
            a.module == module,
            a.collector.collected() == Collected::empty(),
    {
        Analyzer { module, collector: Collector::new() }
    }
}

/// The findings of one evaluated option: one entry when it yielded one,
/// none otherwise.
pub open spec fn opt_items(o: Option<ReportItemV>) -> Seq<ReportItemV> {
    match o {
        Some(x) => seq![x],
        None => Seq::empty(),
    }
}

/// The findings of a sequence of text items, in order.
pub open spec fn eval_texts(s: Seq<TextLitV>, files: Seq<FileEntryV>) -> Seq<ReportItemV>
    decreases s.len(),
{
    if s.len() == 0 {
        Seq::empty()
    } else {
        opt_items(eval_text(s[0], files)) + eval_texts(s.subrange(1, s.len() as int), files)
    }
}

/// The findings of a sequence of variable references, in order.
pub open spec fn eval_vars(s: Seq<VarRefV>, files: Seq<FileEntryV>) -> Seq<ReportItemV>
    decreases s.len(),
{
    if s.len() == 0 {
        Seq::empty()
    } else {
        opt_items(eval_var(s[0], files)) + eval_vars(s.subrange(1, s.len() as int), files)
    }
}

/// The findings of a sequence of member references, in order.
pub open spec fn eval_members(s: Seq<MemberRefV>, files: Seq<FileEntryV>) -> Seq<ReportItemV>
    decreases s.len(),
{
    if s.len() == 0 {
        Seq::empty()
    } else {
        opt_items(eval_member(s[0], files)) + eval_members(s.subrange(1, s.len() as int), files)
    }
}

/// The findings of a sequence of attribute items, in order.
pub open spec fn eval_attrs(s: Seq<AttrItemV>, files: Seq<FileEntryV>) -> Seq<ReportItemV>
    decreases s.len(),
{
    if s.len() == 0 {
        Seq::empty()
    } else {
        opt_items(eval_attr(s[0], files)) + eval_attrs(s.subrange(1, s.len() as int), files)
    }
}

/// The high-confidence findings of a collection: its text fragments, string
/// literals, variable references and member references, in bucket order.
pub open spec fn violations_of(c: Collected, files: Seq<FileEntryV>) -> Seq<ReportItemV> {
    eval_texts(c.texts, files) + eval_texts(c.strs, files) + eval_vars(c.vars, files)
        + eval_members(c.members, files)
}

/// The lower-confidence findings of a collection: its identifier-valued
/// attributes.
pub open spec fn suspicions_of(c: Collected, files: Seq<FileEntryV>) -> Seq<ReportItemV> {
    eval_attrs(c.props, files)
}

/// A collection after normalization: text buckets trimmed and filtered, the
/// reference and attribute buckets untouched.
pub open spec fn normalized(c: Collected) -> Collected {
    Collected {
        texts: normalize_texts(c.texts),
        strs: normalize_texts(c.strs),
        vars: c.vars,
        members: c.members,
        props: c.props,
    }
}

/// Normalization is idempotent over a whole collector state: normalizing a
/// collection a second time changes nothing in any bucket.
pub proof fn lemma_normalized_idempotent(c: Collected)
    ensures
        normalized(normalized(c)) == normalized(c),
{
    crate::normalize::lemma_normalize_idempotent(c.texts);
    crate::normalize::lemma_normalize_idempotent(c.strs);
    assert(normalized(normalized(c)) =~= normalized(c));
}

/// Everything one file contributes to the violations bucket.
pub open spec fn module_violations(m: Module, files: Seq<FileEntryV>) -> Seq<ReportItemV> {
    violations_of(normalized(module_items(m)), files)
}

/// Everything one file contributes to the suspicions bucket.
pub open spec fn module_suspicions(m: Module, files: Seq<FileEntryV>) -> Seq<ReportItemV> {
    suspicions_of(normalized(module_items(m)), files)
}

proof fn lemma_eval_texts_push(s: Seq<TextLitV>, x: TextLitV, files: Seq<FileEntryV>)
    ensures
        eval_texts(s.push(x), files) == eval_texts(s, files) + opt_items(eval_text(x, files)),
    decreases s.len(),
{
    if s.len() == 0 {
        assert(s.push(x)[0] == x);
        assert(s.push(x).subrange(1, 1) =~= Seq::<TextLitV>::empty());
        assert(eval_texts(Seq::<TextLitV>::empty(), files) == Seq::<ReportItemV>::empty());
        assert(eval_texts(s.push(x), files) =~= eval_texts(s, files) + opt_items(
            eval_text(x, files),
        ));
    } else {
        assert(s.push(x)[0] == s[0]);
        assert(s.push(x).subrange(1, s.push(x).len() as int) =~= s.subrange(
            1,
            s.len() as int,
        ).push(x));
        lemma_eval_texts_push(s.subrange(1, s.len() as int), x, files);
        assert(eval_texts(s.push(x), files) =~= eval_texts(s, files) + opt_items(
            eval_text(x, files),
        ));
    }
}

proof fn lemma_eval_vars_push(s: Seq<VarRefV>, x: VarRefV, files: Seq<FileEntryV>)
    ensures
        eval_vars(s.push(x), files) == eval_vars(s, files) + opt_items(eval_var(x, files)),
    decreases s.len(),
{
    if s.len() == 0 {
        assert(s.push(x)[0] == x);
        assert(s.push(x).subrange(1, 1) =~= Seq::<VarRefV>::empty());
        assert(eval_vars(Seq::<VarRefV>::empty(), files) == Seq::<ReportItemV>::empty());
        assert(eval_vars(s.push(x), files) =~= eval_vars(s, files) + opt_items(
            eval_var(x, files),
        ));
    } else {
        assert(s.push(x)[0] == s[0]);
        assert(s.push(x).subrange(1, s.push(x).len() as int) =~= s.subrange(
            1,
            s.len() as int,
        ).push(x));
        lemma_eval_vars_push(s.subrange(1, s.len() as int), x, files);
        assert(eval_vars(s.push(x), files) =~= eval_vars(s, files) + opt_items(
            eval_var(x, files),
        ));
    }
}

proof fn lemma_eval_members_push(s: Seq<MemberRefV>, x: MemberRefV, files: Seq<FileEntryV>)
    ensures
        eval_members(s.push(x), files) == eval_members(s, files) + opt_items(
            eval_member(x, files),
        ),
    decreases s.len(),
{
    if s.len() == 0 {
        assert(s.push(x)[0] == x);
        assert(s.push(x).subrange(1, 1) =~= Seq::<MemberRefV>::empty());
        assert(eval_members(Seq::<MemberRefV>::empty(), files) == Seq::<ReportItemV>::empty());
        assert(eval_members(s.push(x), files) =~= eval_members(s, files) + opt_items(
            eval_member(x, files),
        ));
    } else {
        assert(s.push(x)[0] == s[0]);
        assert(s.push(x).subrange(1, s.push(x).len() as int) =~= s.subrange(
            1,
            s.len() as int,
        ).push(x));
        lemma_eval_members_push(s.subrange(1, s.len() as int), x, files);
        assert(eval_members(s.push(x), files) =~= eval_members(s, files) + opt_items(
            eval_member(x, files),
        ));
    }
}

proof fn lemma_eval_attrs_push(s: Seq<AttrItemV>, x: AttrItemV, files: Seq<FileEntryV>)
    ensures
        eval_attrs(s.push(x), files) == eval_attrs(s, files) + opt_items(eval_attr(x, files)),
    decreases s.len(),
{
    if s.len() == 0 {
        assert(s.push(x)[0] == x);
        assert(s.push(x).subrange(1, 1) =~= Seq::<AttrItemV>::empty());
        assert(eval_attrs(Seq::<AttrItemV>::empty(), files) == Seq::<ReportItemV>::empty());
        assert(eval_attrs(s.push(x), files) =~= eval_attrs(s, files) + opt_items(
            eval_attr(x, files),
        ));
    } else {
        assert(s.push(x)[0] == s[0]);
        assert(s.push(x).subrange(1, s.push(x).len() as int) =~= s.subrange(
            1,
            s.len() as int,
        ).push(x));
        lemma_eval_attrs_push(s.subrange(1, s.len() as int), x, files);
        assert(eval_attrs(s.push(x), files) =~= eval_attrs(s, files) + opt_items(
            eval_attr(x, files),
        ));
    }
}

/// Evaluates every text item of `v` and appends the findings to the chosen
/// bucket, in order.
fn evaluate_texts_into(v: &Vec<TextLit>, index: &SourceIndex, report: &mut Report, bucket: Bucket)
    requires
        index.wf(),
    ensures
        bucket == Bucket::Violations ==> final (report).violations.deep_view() == old(
            report,
        ).violations.deep_view() + eval_texts(v.deep_view(), index@) && final (report).suspicions
            == old(report).suspicions,
        bucket == Bucket::Suspicions ==> final (report).suspicions.deep_view() == old(
            report,
        ).suspicions.deep_view() + eval_texts(v.deep_view(), index@) && final (report).violations
            == old(report).violations,
{
    let mut i: usize = 0;
    proof {
        assert(v.deep_view().subrange(0, 0) =~= Seq::<TextLitV>::empty());
        assert(old(report).violations.deep_view() + Seq::<ReportItemV>::empty() =~= old(
            report,
        ).violations.deep_view());
        assert(old(report).suspicions.deep_view() + Seq::<ReportItemV>::empty() =~= old(
            report,
        ).suspicions.deep_view());
    }
    while i < v.len()
        invariant
            index.wf(),
            0 <= i <= v@.len(),
            v.deep_view().len() == v@.len(),
            bucket == Bucket::Violations ==> report.violations.deep_view() == old(
                report,
            ).violations.deep_view() + eval_texts(
                v.deep_view().subrange(0, i as int),
                index@,
            ) && report.suspicions == old(report).suspicions,
            bucket == Bucket::Suspicions ==> report.suspicions.deep_view() == old(
                report,
            ).suspicions.deep_view() + eval_texts(
                v.deep_view().subrange(0, i as int),
                index@,
            ) && report.violations == old(report).violations,
        decreases v@.len() - i,
    {
        let r = v[i].evaluate(index);
        report.record(r, bucket);
        proof {
            let pre = v.deep_view().subrange(0, i as int);
            let x = v.deep_view()[i as int];
            assert(v.deep_view().subrange(0, i + 1) =~= pre.push(x));
            lemma_eval_texts_push(pre, x, index@);
            match bucket {
                Bucket::Violations => {
                    assert(report.violations.deep_view() =~= old(
                        report,
                    ).violations.deep_view() + eval_texts(
                        v.deep_view().subrange(0, i + 1),
                        index@,
                    ));
                },
                Bucket::Suspicions => {
                    assert(report.suspicions.deep_view() =~= old(
                        report,
                    ).suspicions.deep_view() + eval_texts(
                        v.deep_view().subrange(0, i + 1),
                        index@,
                    ));
                },
            }
        }
        i = i + 1;
    }
    proof {
        assert(v.deep_view().subrange(0, v@.len() as int) =~= v.deep_view());
    }
}

/// Evaluates every variable reference of `v` and appends the findings to
/// the violations bucket, in order.
fn evaluate_vars_into(v: &Vec<VarRef>, index: &SourceIndex, report: &mut Report)
    requires
        index.wf(),
    ensures
        final (report).violations.deep_view() == old(report).violations.deep_view() + eval_vars(
            v.deep_view(),
            index@,
        ),
        final (report).suspicions == old(report).suspicions,
{
    let mut i: usize = 0;
    proof {
        assert(v.deep_view().subrange(0, 0) =~= Seq::<VarRefV>::empty());
        assert(old(report).violations.deep_view() + Seq::<ReportItemV>::empty() =~= old(
            report,
        ).violations.deep_view());
    }
    while i < v.len()
        invariant
            index.wf(),
            0 <= i <= v@.len(),
            v.deep_view().len() == v@.len(),
            report.violations.deep_view() == old(report).violations.deep_view() + eval_vars(
                v.deep_view().subrange(0, i as int),
                index@,
            ),
            report.suspicions == old(report).suspicions,
        decreases v@.len() - i,
    {
        let r = v[i].evaluate(index);
        report.record(r, Bucket::Violations);
        proof {
            let pre = v.deep_view().subrange(0, i as int);
            let x = v.deep_view()[i as int];
            assert(v.deep_view().subrange(0, i + 1) =~= pre.push(x));
            lemma_eval_vars_push(pre, x, index@);
            assert(report.violations.deep_view() =~= old(report).violations.deep_view()
                + eval_vars(v.deep_view().subrange(0, i + 1), index@));
        }
        i = i + 1;
    }
    proof {
        assert(v.deep_view().subrange(0, v@.len() as int) =~= v.deep_view());
    }
}

/// Evaluates every member reference of `v` and appends the findings to the
/// violations bucket, in order.
fn evaluate_members_into(v: &Vec<MemberRef>, index: &SourceIndex, report: &mut Report)
    requires
        index.wf(),
    ensures
        final (report).violations.deep_view() == old(report).violations.deep_view()
            + eval_members(v.deep_view(), index@),
        final (report).suspicions == old(report).suspicions,
{
    let mut i: usize = 0;
    proof {
        assert(v.deep_view().subrange(0, 0) =~= Seq::<MemberRefV>::empty());
        assert(old(report).violations.deep_view() + Seq::<ReportItemV>::empty() =~= old(
            report,
        ).violations.deep_view());
    }
    while i < v.len()
        invariant
            index.wf(),
            0 <= i <= v@.len(),
            v.deep_view().len() == v@.len(),
            report.violations.deep_view() == old(report).violations.deep_view() + eval_members(
                v.deep_view().subrange(0, i as int),
                index@,
            ),
            report.suspicions == old(report).suspicions,
        decreases v@.len() - i,
    {
        let r = v[i].evaluate(index);
        report.record(r, Bucket::Violations);
        proof {
            let pre = v.deep_view().subrange(0, i as int);
            let x = v.deep_view()[i as int];
            assert(v.deep_view().subrange(0, i + 1) =~= pre.push(x));
            lemma_eval_members_push(pre, x, index@);
            assert(report.violations.deep_view() =~= old(report).violations.deep_view()
                + eval_members(v.deep_view().subrange(0, i + 1), index@));
        }
        i = i + 1;
    }
    proof {
        assert(v.deep_view().subrange(0, v@.len() as int) =~= v.deep_view());
    }
}

/// Evaluates every attribute item of `v` and appends the findings to the
/// suspicions bucket, in order.
fn evaluate_attrs_into(v: &Vec<AttrItem>, index: &SourceIndex, report: &mut Report)
    requires
        index.wf(),
    ensures
        final (report).suspicions.deep_view() == old(report).suspicions.deep_view() + eval_attrs(
            v.deep_view(),
            index@,
        ),
        final (report).violations == old(report).violations,
{
    let mut i: usize = 0;
    proof {
        assert(v.deep_view().subrange(0, 0) =~= Seq::<AttrItemV>::empty());
        assert(old(report).suspicions.deep_view() + Seq::<ReportItemV>::empty() =~= old(
            report,
        ).suspicions.deep_view());
    }
    while i < v.len()
        invariant
            index.wf(),
            0 <= i <= v@.len(),
            v.deep_view().len() == v@.len(),
            report.suspicions.deep_view() == old(report).suspicions.deep_view() + eval_attrs(
                v.deep_view().subrange(0, i as int),
                index@,
            ),
            report.violations == old(report).violations,
        decreases v@.len() - i,
    {
        let r = v[i].evaluate(index);
        report.record(r, Bucket::Suspicions);
        proof {
            let pre = v.deep_view().subrange(0, i as int);
            let x = v.deep_view()[i as int];
            assert(v.deep_view().subrange(0, i + 1) =~= pre.push(x));
            lemma_eval_attrs_push(pre, x, index@);
            assert(report.suspicions.deep_view() =~= old(report).suspicions.deep_view()
                + eval_attrs(v.deep_view().subrange(0, i + 1), index@));
        }
        i = i + 1;
    }
    proof {
        assert(v.deep_view().subrange(0, v@.len() as int) =~= v.deep_view());
    }
}

/// Evaluates everything a collector holds: text fragments, string literals,
/// variable references and member references become violations, in bucket
/// order; identifier-valued attributes become suspicions.
pub fn evaluate_collector(c: &Collector, index: &SourceIndex, report: &mut Report)
    requires
        index.wf(),
    ensures
        final (report).violations.deep_view() == old(report).violations.deep_view()
            + violations_of(c.collected(), index@),
        final (report).suspicions.deep_view() == old(report).suspicions.deep_view()
            + suspicions_of(c.collected(), index@),
{
    evaluate_texts_into(&c.jsx_texts, index, report, Bucket::Violations);
    evaluate_texts_into(&c.string_literals, index, report, Bucket::Violations);
    evaluate_vars_into(&c.variables, index, report);
    evaluate_members_into(&c.object_properties, index, report);
    evaluate_attrs_into(&c.props, index, report);
    proof {
        assert(final (report).violations.deep_view() =~= old(report).violations.deep_view()
            + violations_of(c.collected(), index@));
        assert(final (report).suspicions.deep_view() =~= old(report).suspicions.deep_view()
            + suspicions_of(c.collected(), index@));
    }
}

/// Evaluates everything the attribute-focused analyzer holds: text
/// fragments and string literals become violations; identifier-valued
/// attributes become suspicions.
pub fn evaluate_analyzer(a: &JSXAnalyzer, index: &SourceIndex, report: &mut Report)
    requires
        index.wf(),
    ensures
        final (report).violations.deep_view() == old(report).violations.deep_view() + eval_texts(
            a.analyzed().texts,
            index@,
        ) + eval_texts(a.analyzed().strs, index@),
        final (report).suspicions.deep_view() == old(report).suspicions.deep_view() + eval_attrs(
            a.analyzed().props,
            index@,
        ),
{
    evaluate_texts_into(&a.jsx_texts, index, report, Bucket::Violations);
    evaluate_texts_into(&a.string_literals, index, report, Bucket::Violations);
    evaluate_attrs_into(&a.props, index, report);
}

/// Runs the whole per-file pipeline: a fresh collector walks the module's
/// trees, its text buckets are normalized, and every item is evaluated and
/// folded into the report.
pub fn analyze_module(module: &Module, index: &SourceIndex, report: &mut Report)
    requires
        index.wf(),
    ensures
        final (report).violations.deep_view() == old(report).violations.deep_view()
            + module_violations(*module, index@),
        final (report).suspicions.deep_view() == old(report).suspicions.deep_view()
            + module_suspicions(*module, index@),
{
    let mut collector = Collector::new();
    collector.visit_module(module);
    proof {
        lemma_add_empty(module_items(*module));
        assert(collector.collected() == module_items(*module));
    }
    collector.trim_content();
    proof {
        assert(collector.collected() =~= normalized(module_items(*module)));
    }
    evaluate_collector(&collector, index, report);
}

// ---------------------------------------------------------------------------
// Resolver-failure tolerance: a file none of whose spans the index can map
// contributes nothing to the report — and no error.
// ---------------------------------------------------------------------------
proof fn lemma_eval_texts_none(s: Seq<TextLitV>, files: Seq<FileEntryV>)
    requires
        forall|i: int|
            0 <= i < s.len() ==> resolve_spec(files, (#[trigger] s[i]).span.lo as int) is None,
    ensures
        eval_texts(s, files) == Seq::<ReportItemV>::empty(),
    decreases s.len(),
{
    if s.len() > 0 {
        assert(forall|i: int|
            0 <= i < s.len() - 1 ==> s.subrange(1, s.len() as int)[i] == s[i + 1]);
        lemma_eval_texts_none(s.subrange(1, s.len() as int), files);
        assert(eval_texts(s, files) =~= Seq::<ReportItemV>::empty());
    }
}

proof fn lemma_eval_vars_none(s: Seq<VarRefV>, files: Seq<FileEntryV>)
    requires
        forall|i: int|
            0 <= i < s.len() ==> resolve_spec(files, (#[trigger] s[i]).span.lo as int) is None,
    ensures
        eval_vars(s, files) == Seq::<ReportItemV>::empty(),
    decreases s.len(),
{
    if s.len() > 0 {
        assert(forall|i: int|
            0 <= i < s.len() - 1 ==> s.subrange(1, s.len() as int)[i] == s[i + 1]);
        lemma_eval_vars_none(s.subrange(1, s.len() as int), files);
        assert(eval_vars(s, files) =~= Seq::<ReportItemV>::empty());
    }
}

proof fn lemma_eval_members_none(s: Seq<MemberRefV>, files: Seq<FileEntryV>)
    requires
        forall|i: int|
            0 <= i < s.len() ==> resolve_spec(files, (#[trigger] s[i]).span.lo as int) is None,
    ensures
        eval_members(s, files) == Seq::<ReportItemV>::empty(),
    decreases s.len(),
{
    if s.len() > 0 {
        assert(forall|i: int|
            0 <= i < s.len() - 1 ==> s.subrange(1, s.len() as int)[i] == s[i + 1]);
        lemma_eval_members_none(s.subrange(1, s.len() as int), files);
        assert(eval_members(s, files) =~= Seq::<ReportItemV>::empty());
    }
}

proof fn lemma_eval_attrs_none(s: Seq<AttrItemV>, files: Seq<FileEntryV>)
    requires
        forall|i: int|
            0 <= i < s.len() ==> resolve_spec(files, (#[trigger] s[i]).span.lo as int) is None,
    ensures
        eval_attrs(s, files) == Seq::<ReportItemV>::empty(),
    decreases s.len(),
{
    if s.len() > 0 {
        assert(forall|i: int|
            0 <= i < s.len() - 1 ==> s.subrange(1, s.len() as int)[i] == s[i + 1]);
        lemma_eval_attrs_none(s.subrange(1, s.len() as int), files);
        assert(eval_attrs(s, files) =~= Seq::<ReportItemV>::empty());
    }
}

/// Resolver-failure tolerance: when the index maps none of the spans of a
/// collection's items, evaluation yields no findings at all — the file
/// contributes empty sequences, not an error.
pub proof fn lemma_unresolved_file_yields_nothing(c: Collected, files: Seq<FileEntryV>)
    requires
        forall|i: int|
            0 <= i < c.texts.len() ==> resolve_spec(
                files,
                (#[trigger] c.texts[i]).span.lo as int,
            ) is None,
        forall|i: int|
            0 <= i < c.strs.len() ==> resolve_spec(
                files,
                (#[trigger] c.strs[i]).span.lo as int,
            ) is None,
        forall|i: int|
            0 <= i < c.vars.len() ==> resolve_spec(
                files,
                (#[trigger] c.vars[i]).span.lo as int,
            ) is None,
        forall|i: int|
            0 <= i < c.members.len() ==> resolve_spec(
                files,
                (#[trigger] c.members[i]).span.lo as int,
            ) is None,
        forall|i: int|
            0 <= i < c.props.len() ==> resolve_spec(
                files,
                (#[trigger] c.props[i]).span.lo as int,
            ) is None,
    ensures
        violations_of(c, files) == Seq::<ReportItemV>::empty(),
        suspicions_of(c, files) == Seq::<ReportItemV>::empty(),
{
    lemma_eval_texts_none(c.texts, files);
    lemma_eval_texts_none(c.strs, files);
    lemma_eval_vars_none(c.vars, files);
    lemma_eval_members_none(c.members, files);
    lemma_eval_attrs_none(c.props, files);
    assert(violations_of(c, files) =~= Seq::<ReportItemV>::empty());
}

} // verus!
