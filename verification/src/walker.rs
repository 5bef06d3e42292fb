use vstd::prelude::*;

verus! {

// ---------------------------------------------------------------------------
// Selection of the source files a run works on. Enumerating a directory
// tree is plain filesystem work done outside the library; the rule deciding
// which enumerated paths belong to the run lives here.
// ---------------------------------------------------------------------------
/// Whether a path names a file of the JSX dialect this tool scans: it ends
/// in the `.tsx` suffix, and a stem stands before the suffix. A file whose
/// whole name is `.tsx` (nothing between the last separator and the dot)
/// is a hidden file without an extension, not a source file.
pub open spec fn has_tsx_ext(p: Seq<char>) -> bool {
    p.len() >= 5 && p.subrange(p.len() - 4, p.len() as int) == seq!['.', 't', 's', 'x'] && p[p.len()
        - 5] != '/'
}

/// The paths of `ps` that name source files of interest, in their original
/// order.
pub open spec fn tsx_filter(ps: Seq<Seq<char>>) -> Seq<Seq<char>>
    decreases ps.len(),
{
    if ps.len() == 0 {
        Seq::empty()
    } else {
        (if has_tsx_ext(ps[0]) {
            seq![ps[0]]
        } else {
            Seq::empty()
        }) + tsx_filter(ps.subrange(1, ps.len() as int))
    }
}

proof fn lemma_tsx_filter_push(ps: Seq<Seq<char>>, x: Seq<char>)
    ensures
        tsx_filter(ps.push(x)) == tsx_filter(ps) + (if has_tsx_ext(x) {
            seq![x]
        } else {
            Seq::<Seq<char>>::empty()
        }),
    decreases ps.len(),
{
    if ps.len() == 0 {
        assert(ps.push(x)[0] == x);
        assert(ps.push(x).subrange(1, 1) =~= Seq::<Seq<char>>::empty());
        assert(tsx_filter(Seq::<Seq<char>>::empty()) == Seq::<Seq<char>>::empty());
        assert(tsx_filter(ps.push(x)) =~= tsx_filter(ps) + (if has_tsx_ext(x) {
            seq![x]
        } else {
            Seq::<Seq<char>>::empty()
        }));
    } else {
        assert(ps.push(x)[0] == ps[0]);
        assert(ps.push(x).subrange(1, ps.push(x).len() as int) =~= ps.subrange(
            1,
            ps.len() as int,
        ).push(x));
        lemma_tsx_filter_push(ps.subrange(1, ps.len() as int), x);
        assert(tsx_filter(ps.push(x)) =~= tsx_filter(ps) + (if has_tsx_ext(x) {
            seq![x]
        } else {
            Seq::<Seq<char>>::empty()
        }));
    }
}

/// Whether `p` ends in `.tsx` with a stem before the suffix.
pub fn is_tsx_path(p: &str) -> (r: bool)
    ensures
        r == has_tsx_ext(p@),
{
    let n = p.unicode_len();
    if n < 5 {
        return false;
    }
    let r = p.get_char(n - 5) != '/' && p.get_char(n - 4) == '.' && p.get_char(n - 3) == 't'
        && p.get_char(n - 2) == 's' && p.get_char(n - 1) == 'x';
    proof {
        if r {
            assert(p@.subrange(n - 4, n as int) =~= seq!['.', 't', 's', 'x']);
        } else {
            if p@.subrange(n - 4, n as int) == seq!['.', 't', 's', 'x'] {
                assert(p@[n - 4] == '.' && p@[n - 3] == 't' && p@[n - 2] == 's' && p@[n - 1]
                    == 'x') by {
                    assert(p@.subrange(n - 4, n as int)[0] == p@[n - 4]);
                    assert(p@.subrange(n - 4, n as int)[1] == p@[n - 3]);
                    assert(p@.subrange(n - 4, n as int)[2] == p@[n - 2]);
                    assert(p@.subrange(n - 4, n as int)[3] == p@[n - 1]);
                }
            }
        }
    }
    r
}

/// Keeps, in order, the enumerated paths that name files of the JSX
/// dialect this tool scans.
pub fn walk(entries: &Vec<String>) -> (r: Vec<String>)
    ensures
        r.deep_view() == tsx_filter(entries.deep_view()),
{
    let mut r: Vec<String> = Vec::new();
    let mut i: usize = 0;
    proof {
        assert(entries.deep_view().subrange(0, 0) =~= Seq::<Seq<char>>::empty());
        assert(r.deep_view() =~= Seq::<Seq<char>>::empty());
    }
    while i < entries.len()
        invariant
            0 <= i <= entries@.len(),
            entries.deep_view().len() == entries@.len(),
            r.deep_view() == tsx_filter(entries.deep_view().subrange(0, i as int)),
        decreases entries@.len() - i,
    {
        let ghost r0 = r.deep_view();
        if is_tsx_path(entries[i].as_str()) {
            r.push(entries[i].clone());
            proof {
                assert(r.deep_view() =~= r0.push(entries.deep_view()[i as int]));
            }
        }
        proof {
            let pre = entries.deep_view().subrange(0, i as int);
            let x = entries.deep_view()[i as int];
            assert(entries.deep_view().subrange(0, i + 1) =~= pre.push(x));
            lemma_tsx_filter_push(pre, x);
            assert(r.deep_view() =~= tsx_filter(entries.deep_view().subrange(0, i + 1)));
        }
        i = i + 1;
    }
    proof {
        assert(entries.deep_view().subrange(0, entries@.len() as int) =~= entries.deep_view());
    }
    r
}

} // verus!
