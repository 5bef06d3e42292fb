use vstd::prelude::*;

verus! {

// ---------------------------------------------------------------------------
// The source position index: one global byte-offset space across all files
// of a run. Each loaded file occupies a disjoint range, and a table of
// line-start offsets maps any offset inside the range to a 1-based line.
// ---------------------------------------------------------------------------
/// Where an offset landed: the owning file's name and the 1-based line.
#[derive(Clone, PartialEq, Eq, Debug)]
pub struct Loc {
    pub filename: String,
    pub line: usize,
}

/// View of `Loc`.
#[verifier::ext_equal]
pub ghost struct LocV {
    pub filename: Seq<char>,
    pub line: int,
}

impl View for Loc {
    type V = LocV;

    open spec fn view(&self) -> LocV {
        LocV { filename: self.filename@, line: self.line as int }
    }
}

impl DeepView for Loc {
    type V = LocV;

    open spec fn deep_view(&self) -> LocV {
        self@
    }
}

/// One tracked file: its name, the global offset range it occupies
/// (`start`, `len` bytes), and the global offsets at which its lines begin.
pub struct FileEntry {
    pub name: String,
    pub start: usize,
    pub len: usize,
    pub line_starts: Vec<usize>,
}

/// View of `FileEntry`.
#[verifier::ext_equal]
pub ghost struct FileEntryV {
    pub name: Seq<char>,
    pub start: int,
    pub len: int,
    pub line_starts: Seq<int>,
}

impl View for FileEntry {
    type V = FileEntryV;

    open spec fn view(&self) -> FileEntryV {
        FileEntryV {
            name: self.name@,
            start: self.start as int,
            len: self.len as int,
            line_starts: Seq::new(self.line_starts@.len(), |i: int| self.line_starts@[i] as int),
        }
    }
}

impl DeepView for FileEntry {
    type V = FileEntryV;

    open spec fn deep_view(&self) -> FileEntryV {
        self@
    }
}

impl FileEntryV {
    /// A well-formed entry: at least one line, the first line starting at
    /// the file's start, line starts strictly increasing and inside the
    /// file's range, and the range representable in a machine offset.
    pub open spec fn wf(self) -> bool {
        &&& self.line_starts.len() >= 1
        &&& self.line_starts[0] == self.start
        &&& forall|i: int|
            0 <= i < self.line_starts.len() - 1 ==> #[trigger] self.line_starts[i]
                < self.line_starts[i + 1]
        &&& forall|i: int|
            0 <= i < self.line_starts.len() ==> self.start <= #[trigger] self.line_starts[i]
                <= self.start + self.len
        &&& 0 <= self.start
        &&& 0 <= self.len
        &&& self.start + self.len <= usize::MAX as int
    }

    /// Whether a global offset falls inside this file's range.
    pub open spec fn contains(self, offset: int) -> bool {
        self.start <= offset < self.start + self.len
    }
}

/// How many line starts lie at or before `offset`; with the first line
/// starting at the file's start, this is the 1-based line number of
/// `offset`.
pub open spec fn line_of(starts: Seq<int>, offset: int) -> int
    decreases starts.len(),
{
    if starts.len() == 0 {
        0
    } else {
        (if starts[0] <= offset {
            1int
        } else {
            0int
        }) + line_of(starts.subrange(1, starts.len() as int), offset)
    }
}

/// The resolution of a global offset against a list of tracked files: the
/// location inside the first file whose range contains it, or nothing when
/// no file does.
pub open spec fn resolve_spec(files: Seq<FileEntryV>, offset: int) -> Option<LocV>
    decreases files.len(),
{
    if files.len() == 0 {
        None
    } else if files[0].contains(offset) {
        Some(LocV { filename: files[0].name, line: line_of(files[0].line_starts, offset) })
    } else {
        resolve_spec(files.subrange(1, files.len() as int), offset)
    }
}

/// The positions just after each newline byte of `bytes`, in a file whose
/// contents begin at global offset `pos`.
pub open spec fn nl_starts(bytes: Seq<u8>, pos: int) -> Seq<int>
    decreases bytes.len(),
{
    if bytes.len() == 0 {
        Seq::empty()
    } else {
        (if bytes[0] == 10 {
            seq![pos + 1]
        } else {
            Seq::empty()
        }) + nl_starts(bytes.subrange(1, bytes.len() as int), pos + 1)
    }
}

/// The entry a file contributes: its line starts are its start followed by
/// the position after each of its newline bytes.
pub open spec fn entry_of(name: Seq<char>, start: int, bytes: Seq<u8>) -> FileEntryV {
    FileEntryV {
        name,
        start,
        len: bytes.len() as int,
        line_starts: seq![start] + nl_starts(bytes, start),
    }
}

proof fn lemma_nl_starts_push(bytes: Seq<u8>, pos: int, x: u8)
    ensures
        nl_starts(bytes.push(x), pos) == nl_starts(bytes, pos) + (if x == 10 {
            seq![pos + bytes.len() + 1]
        } else {
            Seq::<int>::empty()
        }),
    decreases bytes.len(),
{
    if bytes.len() == 0 {
        assert(bytes.push(x)[0] == x);
        assert(bytes.push(x).subrange(1, 1) =~= Seq::<u8>::empty());
        assert(nl_starts(Seq::<u8>::empty(), pos + 1) == Seq::<int>::empty());
        if x == 10 {
            assert(nl_starts(bytes.push(x), pos) =~= seq![pos + 1]);
            assert(nl_starts(bytes, pos) + seq![pos + bytes.len() + 1] =~= seq![pos + 1]);
        } else {
            assert(nl_starts(bytes.push(x), pos) =~= Seq::<int>::empty());
            assert(nl_starts(bytes, pos) + Seq::<int>::empty() =~= Seq::<int>::empty());
        }
    } else {
        assert(bytes.push(x)[0] == bytes[0]);
        assert(bytes.push(x).subrange(1, bytes.push(x).len() as int) =~= bytes.subrange(
            1,
            bytes.len() as int,
        ).push(x));
        lemma_nl_starts_push(bytes.subrange(1, bytes.len() as int), pos + 1, x);
        if x == 10 {
            assert(nl_starts(bytes.push(x), pos) =~= nl_starts(bytes, pos) + seq![pos
                + bytes.len() + 1]);
        } else {
            assert(nl_starts(bytes.push(x), pos) =~= nl_starts(bytes, pos));
            assert(nl_starts(bytes, pos) + Seq::<int>::empty() =~= nl_starts(bytes, pos));
        }
    }
}

proof fn lemma_line_of_push(starts: Seq<int>, x: int, offset: int)
    ensures
        line_of(starts.push(x), offset) == line_of(starts, offset) + (if x <= offset {
            1int
        } else {
            0int
        }),
    decreases starts.len(),
{
    if starts.len() == 0 {
        assert(starts.push(x)[0] == x);
        assert(starts.push(x).subrange(1, 1) =~= Seq::<int>::empty());
        assert(line_of(Seq::<int>::empty(), offset) == 0);
    } else {
        assert(starts.push(x)[0] == starts[0]);
        assert(starts.push(x).subrange(1, starts.push(x).len() as int) =~= starts.subrange(
            1,
            starts.len() as int,
        ).push(x));
        lemma_line_of_push(starts.subrange(1, starts.len() as int), x, offset);
    }
}

/// Resolution skips files whose range does not contain the offset.
proof fn lemma_resolve_skip(files: Seq<FileEntryV>, offset: int, i: int)
    requires
        0 <= i <= files.len(),
        forall|k: int| 0 <= k < i ==> !(#[trigger] files[k]).contains(offset),
    ensures
        resolve_spec(files, offset) == resolve_spec(
            files.subrange(i, files.len() as int),
            offset,
        ),
    decreases i,
{
    if i > 0 {
        lemma_resolve_skip(files, offset, i - 1);
        let tail = files.subrange(i - 1, files.len() as int);
        assert(tail[0] == files[i - 1]);
        assert(tail.subrange(1, tail.len() as int) =~= files.subrange(i, files.len() as int));
    } else {
        assert(files.subrange(0, files.len() as int) =~= files);
    }
}

/// Builds the line-start table of a file whose bytes begin at global offset
/// `start`: the start itself, then the position after each newline byte.
fn line_start_table(start: usize, content: &[u8]) -> (v: Vec<usize>)
    requires
        start as int + content@.len() <= usize::MAX as int,
    ensures
        Seq::new(v@.len(), |k: int| v@[k] as int) == seq![start as int] + nl_starts(
            content@,
            start as int,
        ),
        v@.len() >= 1,
        v@[0] == start,
        forall|k: int| 0 <= k < v@.len() ==> start <= #[trigger] v@[k] <= start + content@.len(),
        forall|k: int| 0 <= k < v@.len() - 1 ==> #[trigger] v@[k] < v@[k + 1],
{
    let mut v: Vec<usize> = Vec::new();
    v.push(start);
    let mut i: usize = 0;
    proof {
        assert(content@.subrange(0, 0) =~= Seq::<u8>::empty());
        assert(nl_starts(Seq::<u8>::empty(), start as int) == Seq::<int>::empty());
        assert(Seq::new(v@.len(), |k: int| v@[k] as int) =~= seq![start as int] + nl_starts(
            content@.subrange(0, 0),
            start as int,
        ));
    }
    while i < content.len()
        invariant
            0 <= i <= content@.len(),
            start as int + content@.len() <= usize::MAX as int,
            v@.len() >= 1,
            v@[0] == start,
            Seq::new(v@.len(), |k: int| v@[k] as int) == seq![start as int] + nl_starts(
                content@.subrange(0, i as int),
                start as int,
            ),
            forall|k: int| 0 <= k < v@.len() ==> start <= #[trigger] v@[k] <= start + i,
            forall|k: int| 0 <= k < v@.len() - 1 ==> #[trigger] v@[k] < v@[k + 1],
        decreases content@.len() - i,
    {
        let ghost lsv = Seq::new(v@.len(), |k: int| v@[k] as int);
        let ghost pre = content@.subrange(0, i as int);
        let ghost x = content@[i as int];
        proof {
            assert(content@.subrange(0, i + 1) =~= pre.push(x));
            lemma_nl_starts_push(pre, start as int, x);
        }
        let b = content[i];
        if b == 10 {
            let ghost v0 = v@;
            v.push(start + i + 1);
            proof {
                assert(Seq::new(v@.len(), |k: int| v@[k] as int) =~= lsv.push(
                    start as int + i + 1,
                ));
                assert(lsv + seq![start as int + i + 1] =~= lsv.push(start as int + i + 1));
                assert(seq![start as int] + nl_starts(content@.subrange(0, i + 1), start as int)
                    =~= lsv.push(start as int + i + 1));
            }
        } else {
            proof {
                assert(nl_starts(pre, start as int) + Seq::<int>::empty() =~= nl_starts(
                    pre,
                    start as int,
                ));
                assert(seq![start as int] + nl_starts(content@.subrange(0, i + 1), start as int)
                    =~= lsv);
            }
        }
        i = i + 1;
    }
    proof {
        assert(content@.subrange(0, content@.len() as int) =~= content@);
    }
    v
}

// ---------------------------------------------------------------------------
// The index itself.
// ---------------------------------------------------------------------------
/// The per-run source position index. It is built once, file by file, and
/// then consulted read-only during evaluation.
pub struct SourceIndex {
    pub files: Vec<FileEntry>,
}

impl View for SourceIndex {
    type V = Seq<FileEntryV>;

    open spec fn view(&self) -> Seq<FileEntryV> {
        self.files.deep_view()
    }
}

impl SourceIndex {
    /// A well-formed index: every entry well-formed, and entries laid out
    /// left to right without overlap.
    pub open spec fn wf(self) -> bool {
        &&& forall|i: int| 0 <= i < self@.len() ==> (#[trigger] self@[i]).wf()
        &&& forall|i: int|
            0 <= i < self@.len() - 1 ==> #[trigger] self@[i].start + self@[i].len <= self@[i
                + 1].start
    }

    /// The end of the occupied offset space: the first offset no tracked
    /// file reaches.
    pub open spec fn end_spec(self) -> int {
        if self@.len() == 0 {
            0
        } else {
            self@[self@.len() - 1].start + self@[self@.len() - 1].len
        }
    }

    /// An empty index tracking no files.
    pub fn new() -> (s: SourceIndex)
        ensures
            s@ == Seq::<FileEntryV>::empty(),
            s.wf(),
    {
        let s = SourceIndex { files: Vec::new() };
        proof {
            assert(s@ =~= Seq::<FileEntryV>::empty());
        }
        s
    }

    /// The first offset past the occupied space; a new file must start at
    /// or after it.
    pub fn end(&self) -> (r: usize)
        requires
            self.wf(),
        ensures
            r as int == self.end_spec(),
    {
        if self.files.len() == 0 {
            0
        } else {
            let last = &self.files[self.files.len() - 1];
            proof {
                assert(self@[self@.len() - 1].wf());
            }
            last.start + last.len
        }
    }

    /// Tracks one more file, `content` being its raw bytes and `start` the
    /// global offset handed to it. Succeeds exactly when `start` does not
    /// fall into or before the occupied space and the new range is
    /// representable; on failure the index is unchanged.
    #[verifier::rlimit(50)]
    pub fn add_file(&mut self, name: String, start: usize, content: &[u8]) -> (ok: bool)
        requires
            old(self).wf(),
        ensures
            final (self).wf(),
            ok == (old(self).end_spec() <= start as int && start as int + content@.len()
                <= usize::MAX as int),
            ok ==> final (self)@ == old(self)@.push(entry_of(name@, start as int, content@)),
            !ok ==> final (self)@ == old(self)@ && *final (self) == *old(self),
    {
        let ghost n = name@;
        let end = self.end();
        if start < end || content.len() > usize::MAX - start {
            return false;
        }
        let line_starts = line_start_table(start, content);
        let entry = FileEntry { name, start, len: content.len(), line_starts };
        proof {
            assert(entry@ =~= entry_of(n, start as int, content@));
            assert(entry@.wf());
        }
        self.files.push(entry);
        proof {
            assert(final (self)@ =~= old(self)@.push(entry_of(n, start as int, content@)));
            assert forall|j: int| 0 <= j < final (self)@.len() implies (
            #[trigger] final (self)@[j]).wf() by {
                if j < old(self)@.len() {
                    assert(final (self)@[j] == old(self)@[j]);
                }
            }
        }
        true
    }

    /// Maps a global byte offset back to the owning file and 1-based line,
    /// or nothing when no tracked file contains the offset.
    pub fn resolve(&self, offset: usize) -> (r: Option<Loc>)
        requires
            self.wf(),
        ensures
            r.deep_view() == resolve_spec(self@, offset as int),
            match r {
                Some(loc) => loc.line >= 1,
                None => true,
            },
    {
        let mut i: usize = 0;
        while i < self.files.len()
            invariant
                self.wf(),
                0 <= i <= self@.len(),
                self@.len() == self.files.len(),
                forall|k: int| 0 <= k < i ==> !(#[trigger] self@[k]).contains(offset as int),
            decreases self@.len() - i,
        {
            let f = &self.files[i];
            proof {
                assert(self@[i as int].wf());
            }
            if f.start <= offset && offset < f.start + f.len {
                let cnt = count_lines_at(f, offset);
                proof {
                    lemma_resolve_skip(self@, offset as int, i as int);
                    let tail = self@.subrange(i as int, self@.len() as int);
                    assert(tail[0] == self@[i as int]);
                    assert(self@[i as int].contains(offset as int));
                }
                let r = Some(Loc { filename: f.name.clone(), line: cnt });
                proof {
                    assert(r.deep_view() =~= resolve_spec(self@, offset as int));
                }
                return r;
            }
            i = i + 1;
        }
        proof {
            lemma_resolve_skip(self@, offset as int, self@.len() as int);
            assert(self@.subrange(self@.len() as int, self@.len() as int) =~= Seq::<
                FileEntryV,
            >::empty());
        }
        None
    }
}

/// Every location a well-formed index resolves carries a line number of at
/// least 1: the first line start of a file is its start offset, which any
/// contained offset lies at or beyond. Report entries therefore never carry
/// a line below 1.
pub proof fn lemma_resolved_line_positive(files: Seq<FileEntryV>, offset: int)
    requires
        forall|i: int| 0 <= i < files.len() ==> (#[trigger] files[i]).wf(),
    ensures
        match resolve_spec(files, offset) {
            Some(loc) => loc.line >= 1,
            None => true,
        },
    decreases files.len(),
{
    if files.len() > 0 {
        if files[0].contains(offset) {
            let starts = files[0].line_starts;
            let s1 = starts.subrange(0, 1);
            assert(s1.subrange(1, 1) =~= Seq::<int>::empty());
            assert(line_of(Seq::<int>::empty(), offset) == 0);
            assert(s1[0] == files[0].start);
            assert(line_of(s1, offset) == 1);
            lemma_line_of_prefix_le(starts, offset, 1);
        } else {
            assert(forall|i: int|
                0 <= i < files.len() - 1 ==> files.subrange(1, files.len() as int)[i] == files[i
                    + 1]);
            lemma_resolved_line_positive(files.subrange(1, files.len() as int), offset);
        }
    }
}

/// Counts the line starts of `f` that lie at or before `offset`: the
/// 1-based line number of `offset` inside `f`.
fn count_lines_at(f: &FileEntry, offset: usize) -> (cnt: usize)
    requires
        f@.wf(),
        f@.contains(offset as int),
    ensures
        cnt as int == line_of(f@.line_starts, offset as int),
        1 <= cnt <= f@.line_starts.len(),
{
    let starts = &f.line_starts;
    let mut cnt: usize = 0;
    let mut j: usize = 0;
    proof {
        assert(f@.line_starts.subrange(0, 0) =~= Seq::<int>::empty());
    }
    while j < starts.len()
        invariant
            0 <= j <= starts@.len(),
            cnt <= j,
            f@.line_starts == Seq::new(starts@.len(), |k: int| starts@[k] as int),
            cnt as int == line_of(f@.line_starts.subrange(0, j as int), offset as int),
        decreases starts@.len() - j,
    {
        proof {
            let s = f@.line_starts.subrange(0, j as int);
            let x = f@.line_starts[j as int];
            assert(f@.line_starts.subrange(0, j + 1) =~= s.push(x));
            lemma_line_of_push(s, x, offset as int);
        }
        if starts[j] <= offset {
            cnt = cnt + 1;
        }
        j = j + 1;
    }
    proof {
        assert(f@.line_starts.subrange(0, f@.line_starts.len() as int) =~= f@.line_starts);
        let s1 = f@.line_starts.subrange(0, 1);
        assert(s1.subrange(1, 1) =~= Seq::<int>::empty());
        assert(line_of(Seq::<int>::empty(), offset as int) == 0);
        assert(s1[0] == f@.start);
        assert(line_of(s1, offset as int) == 1);
        lemma_line_of_prefix_le(f@.line_starts, offset as int, 1);
    }
    cnt
}

/// Counting line starts at or before an offset over a longer prefix never
/// counts fewer.
proof fn lemma_line_of_prefix_le(starts: Seq<int>, offset: int, i: int)
    requires
        0 <= i <= starts.len(),
    ensures
        line_of(starts.subrange(0, i), offset) <= line_of(starts, offset),
    decreases starts.len() - i,
{
    if i < starts.len() {
        let s = starts.subrange(0, i);
        let x = starts[i];
        assert(starts.subrange(0, i + 1) =~= s.push(x));
        lemma_line_of_push(s, x, offset);
        lemma_line_of_prefix_le(starts, offset, i + 1);
    } else {
        assert(starts.subrange(0, starts.len() as int) =~= starts);
    }
}

} // verus!
