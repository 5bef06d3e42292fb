use crate::ast::{TextLit, TextLitV};
use crate::text::{is_trimmed_empty, lemma_trim_idempotent, trim_spec, trim_text, trimmed_empty};
use vstd::prelude::*;

verus! {

// ---------------------------------------------------------------------------
// The content normalizer: a post-pass over collected text items that replaces
// each value with its whitespace-trimmed form and drops items whose value
// trims to nothing. Collection filters untrimmed values, so this second pass
// keeps the emptiness policy in one place.
// ---------------------------------------------------------------------------
/// The normalized form of a sequence of collected text items: every value
/// trimmed, items that trim to nothing dropped, the order of the survivors
/// kept.
pub open spec fn normalize_texts(s: Seq<TextLitV>) -> Seq<TextLitV>
    decreases s.len(),
{
    if s.len() == 0 {
        Seq::empty()
    } else {
        let t = trim_spec(s[0].value);
        (if t.len() > 0 {
            seq![TextLitV { value: t, span: s[0].span }]
        } else {
            Seq::empty()
        }) + normalize_texts(s.drop_first())
    }
}

/// Normalization is idempotent: normalizing an already-normalized sequence
/// changes nothing.
pub proof fn lemma_normalize_idempotent(s: Seq<TextLitV>)
    ensures
        normalize_texts(normalize_texts(s)) == normalize_texts(s),
    decreases s.len(),
{
    if s.len() > 0 {
        lemma_normalize_idempotent(s.drop_first());
        let t = trim_spec(s[0].value);
        let rest = normalize_texts(s.drop_first());
        if t.len() > 0 {
            let head = TextLitV { value: t, span: s[0].span };
            let whole = seq![head] + rest;
            assert(whole[0] == head);
            assert(whole.drop_first() =~= rest);
            lemma_trim_idempotent(s[0].value);
            assert(normalize_texts(whole) =~= seq![head] + normalize_texts(rest));
        } else {
            assert(Seq::<TextLitV>::empty() + rest =~= rest);
        }
    }
}

/// No whitespace-only value survives normalization: every item in the result
/// has a value that is non-empty after trimming.
pub proof fn lemma_normalize_drops_empty(s: Seq<TextLitV>)
    ensures
        forall|i: int|
            0 <= i < normalize_texts(s).len() ==> !trimmed_empty(
                #[trigger] normalize_texts(s)[i].value,
            ),
    decreases s.len(),
{
    if s.len() > 0 {
        lemma_normalize_drops_empty(s.drop_first());
        let t = trim_spec(s[0].value);
        let rest = normalize_texts(s.drop_first());
        if t.len() > 0 {
            lemma_trim_idempotent(s[0].value);
            let head = seq![TextLitV { value: t, span: s[0].span }];
            assert forall|i: int| 0 <= i < normalize_texts(s).len() implies !trimmed_empty(
                #[trigger] normalize_texts(s)[i].value,
            ) by {
                if i > 0 {
                    assert(normalize_texts(s)[i] == rest[i - 1]);
                }
            }
        } else {
            assert forall|i: int| 0 <= i < normalize_texts(s).len() implies !trimmed_empty(
                #[trigger] normalize_texts(s)[i].value,
            ) by {
                assert(normalize_texts(s)[i] == rest[i]);
            }
        }
    }
}

/// Appending one item on the right normalizes to the normalization of the
/// parts.
pub proof fn lemma_normalize_push(s: Seq<TextLitV>, x: TextLitV)
    ensures
        normalize_texts(s.push(x)) == normalize_texts(s) + normalize_texts(seq![x]),
    decreases s.len(),
{
    if s.len() == 0 {
        assert(s.push(x) =~= seq![x]);
        assert(normalize_texts(s) =~= Seq::<TextLitV>::empty());
        assert(normalize_texts(s) + normalize_texts(seq![x]) =~= normalize_texts(seq![x]));
    } else {
        assert(s.push(x)[0] == s[0]);
        assert(s.push(x).drop_first() =~= s.drop_first().push(x));
        lemma_normalize_push(s.drop_first(), x);
        assert(normalize_texts(s.push(x)) =~= normalize_texts(s) + normalize_texts(seq![x]));
    }
}

/// Returns the normalized copy of a vector of collected text items.
pub fn normalize_text_vec(v: &Vec<TextLit>) -> (r: Vec<TextLit>)
    ensures
        r.deep_view() == normalize_texts(v.deep_view()),
{
    let mut r: Vec<TextLit> = Vec::new();
    let mut i: usize = 0;
    proof {
        assert(v.deep_view().subrange(0, 0) =~= Seq::<TextLitV>::empty());
        assert(r.deep_view() =~= Seq::<TextLitV>::empty());
    }
    while i < v.len()
        invariant
            0 <= i <= v.len(),
            v.deep_view().len() == v.len(),
            r.deep_view() == normalize_texts(v.deep_view().subrange(0, i as int)),
        decreases v.len() - i,
    {
        let ghost r0 = r.deep_view();
        let ghost x = v.deep_view()[i as int];
        proof {
            lemma_trim_idempotent(x.value);
            assert(seq![x].drop_first() =~= Seq::<TextLitV>::empty());
            assert(seq![x][0] == x);
            assert(normalize_texts(Seq::<TextLitV>::empty()) == Seq::<TextLitV>::empty());
        }
        let trimmed = trim_text(v[i].value.as_str());
        if !is_trimmed_empty(trimmed.as_str()) {
            let item = TextLit { value: trimmed, span: v[i].span };
            r.push(item);
            proof {
                let t = trim_spec(x.value);
                assert(normalize_texts(seq![x]) =~= seq![TextLitV { value: t, span: x.span }]);
                assert(r.deep_view() =~= r0.push(TextLitV { value: t, span: x.span }));
                assert(r.deep_view() =~= r0 + normalize_texts(seq![x]));
            }
        } else {
            proof {
                assert(normalize_texts(seq![x]) =~= Seq::<TextLitV>::empty());
                assert(r.deep_view() =~= r0 + normalize_texts(seq![x]));
            }
        }
        proof {
            let pre = v.deep_view().subrange(0, i as int);
            assert(v.deep_view().subrange(0, i + 1) =~= pre.push(x));
            lemma_normalize_push(pre, x);
            assert(r.deep_view() =~= normalize_texts(v.deep_view().subrange(0, i + 1)));
        }
        i = i + 1;
    }
    proof {
        assert(v.deep_view().subrange(0, v.len() as int) =~= v.deep_view());
    }
    r
}

} // verus!
