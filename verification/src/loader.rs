//! Which files are read from the editor's buffers and which from disk.
use vstd::prelude::*;

verus! {

/// Where the text of a file is to come from.
#[derive(Clone, Copy, Debug, PartialEq, Eq)]
pub enum FileSource {
    /// The editor holds the file in a buffer: ask it, and wait for the answer.
    Editor,
    /// The file is read from disk as usual.
    Disk,
}

/// The canonical paths among `paths`: each entry is the canonical form of a
/// path, or `None` where the path has none.
pub open spec fn canonical_set(paths: Seq<Option<Seq<char>>>) -> Set<Seq<char>> {
    Set::new(|p: Seq<char>| paths.contains(Some(p)))
}

/// Where the text of the file with the canonical path `canon` comes from
/// when the editor holds the files `buffers`: from the editor if and only
/// if it holds the file.
pub open spec fn source_of(buffers: Set<Seq<char>>, canon: Seq<char>) -> FileSource {
    if buffers.contains(canon) {
        FileSource::Editor
    } else {
        FileSource::Disk
    }
}

/// A set of canonical paths.
pub struct BufferSet {
    paths: Vec<String>,
}

impl View for BufferSet {
    type V = Set<Seq<char>>;

    closed spec fn view(&self) -> Set<Seq<char>> {
        self.paths.deep_view().to_set()
    }
}

impl BufferSet {
    /// The empty set.
    pub fn new() -> (r: BufferSet)
        ensures
            r@ == Set::<Seq<char>>::empty(),
    {
        let r = BufferSet { paths: Vec::new() };
        assert(r.paths.deep_view().to_set() =~= Set::<Seq<char>>::empty());
        r
    }

    /// The set of the paths that could be made canonical; the others are left out.
    pub fn from_canonical(paths: Vec<Option<String>>) -> (r: BufferSet)
        ensures
            r@ == canonical_set(paths.deep_view()),
    {
        let ghost all = paths.deep_view();
        let mut kept: Vec<String> = Vec::new();
        let n = paths.len();
        let mut i: usize = 0;
        while i < n
            invariant
                n == paths.len(),
                i <= n,
                paths.deep_view() == all,
                forall|k: int|
                    0 <= k < kept.len() ==> all.contains(Some(#[trigger] kept.deep_view()[k])),
                forall|m: int|
                    0 <= m < i && (#[trigger] all[m]) is Some ==> kept.deep_view().contains(
                        all[m]->0,
                    ),
            decreases n - i,
        {
            let ghost prev = kept.deep_view();
            match &paths[i] {
                Some(p) => {
                    kept.push(p.clone());
                    proof {
                        let now = kept.deep_view();
                        assert(now =~= prev.push(all[i as int]->0));
                        assert forall|k: int| 0 <= k < now.len() implies all.contains(
                            Some(#[trigger] now[k]),
                        ) by {
                            if k < prev.len() {
                                assert(now[k] == prev[k]);
                            } else {
                                assert(all[i as int] == Some(now[k]));
                            }
                        }
                        assert forall|m: int| 0 <= m < i + 1 && (#[trigger] all[m]) is Some implies now.contains(
                        all[m]->0) by {
                            if m < i {
                                let k = choose|k: int| 0 <= k < prev.len() && prev[k] == all[m]->0;
                                assert(now[k] == all[m]->0);
                            } else {
                                assert(now[prev.len() as int] == all[m]->0);
                            }
                        }
                    }
                },
                None => {},
            }
            i += 1;
        }
        let r = BufferSet { paths: kept };
        proof {
            let got = r.paths.deep_view();
            assert forall|p: Seq<char>| got.to_set().contains(p) <==> canonical_set(all).contains(
                p,
            ) by {
                if got.contains(p) {
                    let k = choose|k: int| 0 <= k < got.len() && got[k] == p;
                    assert(all.contains(Some(got[k])));
                }
                if all.contains(Some(p)) {
                    let m = choose|m: int| 0 <= m < all.len() && all[m] == Some(p);
                    assert(got.contains(all[m]->0));
                }
            }
            assert(got.to_set() =~= canonical_set(all));
        }
        r
    }

    /// Whether the set holds `path`.
    pub fn contains(&self, path: &String) -> (found: bool)
        ensures
            found == self@.contains(path@),
    {
        let n = self.paths.len();
        let mut i: usize = 0;
        while i < n
            invariant
                n == self.paths.len(),
                i <= n,
                forall|k: int| 0 <= k < i ==> (#[trigger] self.paths.deep_view()[k]) != path@,
            decreases n - i,
        {
            if self.paths[i] == *path {
                assert(self.paths.deep_view()[i as int] == path@);
                return true;
            }
            i += 1;
        }
        false
    }

    /// A copy of the set.
    pub fn snapshot(&self) -> (r: BufferSet)
        ensures
            r@ == self@,
    {
        let mut paths: Vec<String> = Vec::new();
        let n = self.paths.len();
        let mut i: usize = 0;
        while i < n
            invariant
                n == self.paths.len(),
                i <= n,
                paths.deep_view() == self.paths.deep_view().take(i as int),
            decreases n - i,
        {
            let ghost prev = paths.deep_view();
            paths.push(self.paths[i].clone());
            assert(paths.deep_view() =~= prev.push(self.paths.deep_view()[i as int]));
            assert(paths.deep_view() =~= self.paths.deep_view().take(i + 1));
            i += 1;
        }
        assert(self.paths.deep_view().take(n as int) =~= self.paths.deep_view());
        BufferSet { paths }
    }
}

/// The file loader that the compiler is given for one run: it knows which
/// files the editor holds, as the session knew when the run began.
pub struct InteractiveFileLoader {
    buffers_available: BufferSet,
}

impl View for InteractiveFileLoader {
    type V = Set<Seq<char>>;

    closed spec fn view(&self) -> Set<Seq<char>> {
        self.buffers_available@
    }
}

impl InteractiveFileLoader {
    /// The loader for the given set of buffers.
    pub fn new(buffers_available: BufferSet) -> (loader: InteractiveFileLoader)
        ensures
            loader@ == buffers_available@,
    {
        InteractiveFileLoader { buffers_available }
    }

    /// Where the text of the file with the canonical path `canon` comes from:
    /// from the editor if and only if the editor holds the file.
    pub fn source_for(&self, canon: &String) -> (source: FileSource)
        ensures
            source == source_of(self@, canon@),
    {
        if self.buffers_available.contains(canon) {
            FileSource::Editor
        } else {
            FileSource::Disk
        }
    }
}

} // verus!
