use vstd::prelude::*;

verus! {

/// The whitespace characters the normalizer strips: the Unicode
/// `White_Space` set, the one `char::is_whitespace` recognizes — the ASCII
/// whitespace, next-line, no-break and ogham space marks, the typographic
/// spaces, the line and paragraph separators, and the ideographic space.
pub open spec fn is_space(c: char) -> bool {
    ||| c == ' '
    ||| c == '\t'
    ||| c == '\n'
    ||| c == '\u{b}'
    ||| c == '\u{c}'
    ||| c == '\r'
    ||| c == '\u{85}'
    ||| c == '\u{a0}'
    ||| c == '\u{1680}'
    ||| c == '\u{2000}'
    ||| c == '\u{2001}'
    ||| c == '\u{2002}'
    ||| c == '\u{2003}'
    ||| c == '\u{2004}'
    ||| c == '\u{2005}'
    ||| c == '\u{2006}'
    ||| c == '\u{2007}'
    ||| c == '\u{2008}'
    ||| c == '\u{2009}'
    ||| c == '\u{200a}'
    ||| c == '\u{2028}'
    ||| c == '\u{2029}'
    ||| c == '\u{202f}'
    ||| c == '\u{205f}'
    ||| c == '\u{3000}'
}

/// `s` with its leading whitespace removed.
pub open spec fn trim_front(s: Seq<char>) -> Seq<char>
    decreases s.len(),
{
    if s.len() > 0 && is_space(s[0]) {
        trim_front(s.drop_first())
    } else {
        s
    }
}

/// `s` with its trailing whitespace removed.
pub open spec fn trim_back(s: Seq<char>) -> Seq<char>
    decreases s.len(),
{
    if s.len() > 0 && is_space(s.last()) {
        trim_back(s.drop_last())
    } else {
        s
    }
}

/// `s` with both leading and trailing whitespace removed.
pub open spec fn trim_spec(s: Seq<char>) -> Seq<char> {
    trim_back(trim_front(s))
}

/// Whether `s` consists of whitespace alone (including the empty string).
pub open spec fn trimmed_empty(s: Seq<char>) -> bool {
    trim_spec(s).len() == 0
}

proof fn lemma_trim_front_no_leading_space(s: Seq<char>)
    ensures
        trim_front(s).len() > 0 ==> !is_space(trim_front(s)[0]),
        trim_front(trim_front(s)) == trim_front(s),
    decreases s.len(),
{
    if s.len() > 0 && is_space(s[0]) {
        lemma_trim_front_no_leading_space(s.drop_first());
    }
}

proof fn lemma_trim_back_no_trailing_space(s: Seq<char>)
    ensures
        trim_back(s).len() > 0 ==> !is_space(trim_back(s).last()),
        trim_back(trim_back(s)) == trim_back(s),
    decreases s.len(),
{
    if s.len() > 0 && is_space(s.last()) {
        lemma_trim_back_no_trailing_space(s.drop_last());
    }
}

/// Trimming the back never introduces a new first character: the result is a
/// prefix of `s`, so if `s` does not start with whitespace, neither does it.
proof fn lemma_trim_back_keeps_first(s: Seq<char>)
    ensures
        trim_back(s).len() > 0 ==> trim_back(s)[0] == s[0],
    decreases s.len(),
{
    if s.len() > 0 && is_space(s.last()) {
        lemma_trim_back_keeps_first(s.drop_last());
    }
}

/// Trimming is idempotent: a trimmed string trims to itself.
pub proof fn lemma_trim_idempotent(s: Seq<char>)
    ensures
        trim_spec(trim_spec(s)) == trim_spec(s),
{
    let f = trim_front(s);
    let t = trim_back(f);
    lemma_trim_front_no_leading_space(s);
    lemma_trim_back_keeps_first(f);
    if t.len() > 0 {
        assert(t[0] == f[0]);
        assert(!is_space(t[0]));
    }
    assert(trim_front(t) == t);
    lemma_trim_back_no_trailing_space(f);
}

/// A string that trims (at the back) to nothing was whitespace throughout.
proof fn lemma_trim_back_empty(s: Seq<char>)
    ensures
        trim_back(s).len() == 0 ==> (forall|k: int| 0 <= k < s.len() ==> is_space(s[k])),
    decreases s.len(),
{
    if s.len() > 0 && is_space(s.last()) {
        lemma_trim_back_empty(s.drop_last());
        if trim_back(s).len() == 0 {
            assert(forall|k: int|
                0 <= k < s.len() - 1 ==> s[k] == s.drop_last()[k] && is_space(s.drop_last()[k]));
        }
    }
}

/// Dropping leading whitespace one character at a time reaches `trim_front`.
proof fn lemma_trim_front_step(s: Seq<char>, i: int)
    requires
        0 <= i <= s.len(),
        forall|k: int| 0 <= k < i ==> is_space(s[k]),
    ensures
        trim_front(s) == trim_front(s.subrange(i, s.len() as int)),
    decreases i,
{
    if i > 0 {
        assert(s.subrange(i - 1, s.len() as int).drop_first() =~= s.subrange(i, s.len() as int));
        lemma_trim_front_step(s, i - 1);
        assert(trim_front(s.subrange(i - 1, s.len() as int)) == trim_front(
            s.subrange(i, s.len() as int),
        ));
    } else {
        assert(s.subrange(0, s.len() as int) =~= s);
    }
}

/// The suffix that starts at the first non-whitespace character is exactly
/// `trim_front`.
proof fn lemma_trim_front_at(s: Seq<char>, i: int)
    requires
        0 <= i <= s.len(),
        forall|k: int| 0 <= k < i ==> is_space(s[k]),
        i < s.len() ==> !is_space(s[i]),
    ensures
        trim_front(s) == s.subrange(i, s.len() as int),
{
    lemma_trim_front_step(s, i);
    let rest = s.subrange(i, s.len() as int);
    if rest.len() > 0 {
        assert(!is_space(rest[0]));
    }
}

/// Dropping trailing whitespace one character at a time reaches `trim_back`.
proof fn lemma_trim_back_step(s: Seq<char>, j: int)
    requires
        0 <= j <= s.len(),
        forall|k: int| j <= k < s.len() ==> is_space(s[k]),
    ensures
        trim_back(s) == trim_back(s.subrange(0, j)),
    decreases s.len() - j,
{
    if j < s.len() {
        assert(s.subrange(0, j + 1).drop_last() =~= s.subrange(0, j));
        assert(s.subrange(0, j + 1).last() == s[j]);
        lemma_trim_back_step(s, j + 1);
        assert(s.subrange(0, s.len() as int) =~= s);
    } else {
        assert(s.subrange(0, s.len() as int) =~= s);
    }
}

/// The prefix that ends after the last non-whitespace character is exactly
/// `trim_back`.
proof fn lemma_trim_back_at(s: Seq<char>, j: int)
    requires
        0 <= j <= s.len(),
        forall|k: int| j <= k < s.len() ==> is_space(s[k]),
        j > 0 ==> !is_space(s[j - 1]),
    ensures
        trim_back(s) == s.subrange(0, j),
    decreases s.len() - j,
{
    lemma_trim_back_step(s, j);
    let front = s.subrange(0, j);
    if front.len() > 0 {
        assert(!is_space(front.last()));
    }
}

/// Returns the whitespace-trimmed copy of `s`.
pub fn trim_text(s: &str) -> (r: String)
    ensures
        r@ == trim_spec(s@),
{
    let n = s.unicode_len();
    let mut i: usize = 0;
    while i < n && is_space_char(s.get_char(i))
        invariant
            0 <= i <= n,
            n == s@.len(),
            forall|k: int| 0 <= k < i ==> is_space(s@[k]),
        decreases n - i,
    {
        i = i + 1;
    }
    let mut j: usize = n;
    while j > i && is_space_char(s.get_char(j - 1))
        invariant
            i <= j <= n,
            n == s@.len(),
            forall|k: int| 0 <= k < i ==> is_space(s@[k]),
            i < n ==> !is_space(s@[i as int]),
            forall|k: int| j <= k < n ==> is_space(s@[k]),
        decreases j,
    {
        j = j - 1;
    }
    let mid = s.substring_char(i, j);
    let r = mid.to_owned();
    proof {
        lemma_trim_front_at(s@, i as int);
        let f = trim_front(s@);
        assert(f == s@.subrange(i as int, n as int));
        if j == i {
            lemma_trim_back_step(f, 0);
            assert(f.subrange(0, 0) =~= Seq::<char>::empty());
            assert(r@ =~= trim_spec(s@));
        } else {
            assert(forall|k: int| 0 <= k < f.len() ==> f[k] == s@[k + i]);
            assert(!is_space(f[j - i - 1]));
            lemma_trim_back_at(f, j - i);
            assert(f.subrange(0, j - i) =~= s@.subrange(i as int, j as int));
            assert(r@ =~= trim_spec(s@));
        }
    }
    r
}

/// Whether `c` is one of the whitespace characters the normalizer strips.
pub fn is_space_char(c: char) -> (r: bool)
    ensures
        r == is_space(c),
{
    c == ' ' || c == '\t' || c == '\n' || c == '\u{b}' || c == '\u{c}' || c == '\r'
        || c == '\u{85}' || c == '\u{a0}' || c == '\u{1680}' || c == '\u{2000}' || c == '\u{2001}'
        || c == '\u{2002}' || c == '\u{2003}' || c == '\u{2004}' || c == '\u{2005}'
        || c == '\u{2006}' || c == '\u{2007}' || c == '\u{2008}' || c == '\u{2009}'
        || c == '\u{200a}' || c == '\u{2028}' || c == '\u{2029}' || c == '\u{202f}'
        || c == '\u{205f}' || c == '\u{3000}'
}

/// Whether `s` trims to the empty string.
pub fn is_trimmed_empty(s: &str) -> (r: bool)
    ensures
        r == trimmed_empty(s@),
{
    let n = s.unicode_len();
    let mut i: usize = 0;
    while i < n && is_space_char(s.get_char(i))
        invariant
            0 <= i <= n,
            n == s@.len(),
            forall|k: int| 0 <= k < i ==> is_space(s@[k]),
        decreases n - i,
    {
        i = i + 1;
    }
    proof {
        lemma_trim_front_at(s@, i as int);
        if i < n {
            let f = trim_front(s@);
            lemma_trim_back_empty(f);
            assert(!is_space(f[0]));
        }
    }
    i == n
}

} // verus!
