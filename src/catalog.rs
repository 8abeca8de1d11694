use vstd::prelude::*;
use crate::classify::{classify, classify_spec, ClassView, LanguageTag, QualityTag};

verus! {

/// The stored classification of one source file, keyed by its path.
#[derive(Debug)]
pub struct Work {
    pub file: String,
    pub language: LanguageTag,
    pub quality: QualityTag,
    pub national: bool,
    pub content_length: usize,
}

impl Work {
    pub open spec fn facts(self) -> ClassView {
        ClassView {
            java: self.language == LanguageTag::Java,
            good_quality: self.quality == QualityTag::Good,
            regional: self.national,
            content_length: self.content_length as nat,
        }
    }
}

/// The classification record of the file at `path` with text `content`.
pub fn classify_file(path: String, content: &str) -> (r: Work)
    ensures
        r.file@ == path@,
        r.facts() == classify_spec(content@),
{
    let c = classify(content);
    Work {
        file: path,
        language: c.language,
        quality: c.quality,
        national: c.national,
        content_length: c.content_length,
    }
}

/// A source file as the walk found it: its path and its text (empty where
/// it could not be read).
pub struct SourceFile {
    pub path: String,
    pub content: String,
}

/// What a pass over `files`, in this order, leaves in the store: each path
/// maps to the classification of the last file visited under it.
pub open spec fn scan_spec(files: Seq<SourceFile>) -> Map<Seq<char>, ClassView>
    decreases files.len(),
{
    if files.len() == 0 {
        Map::empty()
    } else {
        scan_spec(files.drop_last()).insert(
            files.last().path@,
            classify_spec(files.last().content@),
        )
    }
}

/// The contents of the record store for one run: one record per path.
pub struct Catalog {
    entries: Vec<Work>,
    contents: Ghost<Map<Seq<char>, ClassView>>,
}

impl View for Catalog {
    type V = Map<Seq<char>, ClassView>;

    closed spec fn view(&self) -> Map<Seq<char>, ClassView> {
        self.contents@
    }
}

impl Catalog {
    /// Records and map agree, and no path has two records.
    pub closed spec fn wf(&self) -> bool {
        &&& forall|i: int, j: int|
            0 <= i < j < self.entries@.len() ==> #[trigger] self.entries@[i].file@
                != #[trigger] self.entries@[j].file@
        &&& forall|i: int|
            0 <= i < self.entries@.len() ==> self.contents@.contains_key(
                #[trigger] self.entries@[i].file@,
            ) && self.contents@[self.entries@[i].file@] == self.entries@[i].facts()
        &&& forall|k: Seq<char>|
            #[trigger] self.contents@.contains_key(k) ==> exists|i: int|
                0 <= i < self.entries@.len() && #[trigger] self.entries@[i].file@ == k
    }

    /// An empty store.
    pub fn new() -> (r: Catalog)
        ensures
            r.wf(),
            r@ == Map::<Seq<char>, ClassView>::empty(),
    {
        Catalog { entries: Vec::new(), contents: Ghost(Map::empty()) }
    }

    /// Removes every record.
    pub fn clear(&mut self)
        ensures
            final(self).wf(),
            final(self)@ == Map::<Seq<char>, ClassView>::empty(),
    {
        self.entries = Vec::new();
        self.contents = Ghost(Map::empty());
    }

    /// Inserts a record, replacing the one stored under the same path.
    pub fn put(&mut self, work: Work)
        requires
            old(self).wf(),
        ensures
            final(self).wf(),
            final(self)@ == old(self)@.insert(work.file@, work.facts()),
    {
        let ghost key = work.file@;
        let ghost facts = work.facts();
        let mut i: usize = 0;
        while i < self.entries.len()
            invariant
                self.wf(),
                self.contents@ == old(self).contents@,
                key == work.file@,
                facts == work.facts(),
                i <= self.entries@.len(),
                forall|k: int| 0 <= k < i ==> #[trigger] self.entries@[k].file@ != key,
            decreases self.entries@.len() - i,
        {
            if <String as PartialEq>::eq(&self.entries[i].file, &work.file) {
                let ghost old_entries = self.entries@;
                self.entries.set(i, work);
                self.contents = Ghost(self.contents@.insert(key, facts));
                proof {
                    assert forall|k: Seq<char>| #[trigger]
                        self.contents@.contains_key(k) implies exists|j: int|
                        0 <= j < self.entries@.len() && #[trigger] self.entries@[j].file@
                            == k by {
                        if k != key {
                            let j = choose|j: int|
                                0 <= j < old_entries.len() && #[trigger] old_entries[j].file@ == k;
                            assert(self.entries@[j].file@ == k);
                        } else {
                            assert(self.entries@[i as int].file@ == k);
                        }
                    }
                }
                return;
            }
            i = i + 1;
        }
        let ghost old_entries = self.entries@;
        self.entries.push(work);
        self.contents = Ghost(self.contents@.insert(key, facts));
        proof {
            assert forall|k: Seq<char>| #[trigger]
                self.contents@.contains_key(k) implies exists|j: int|
                0 <= j < self.entries@.len() && #[trigger] self.entries@[j].file@ == k by {
                if k != key {
                    let j = choose|j: int|
                        0 <= j < old_entries.len() && #[trigger] old_entries[j].file@ == k;
                    assert(self.entries@[j].file@ == k);
                } else {
                    assert(self.entries@[old_entries.len() as int].file@ == k);
                }
            }
        }
    }

    /// Classifies the file at `path` and stores the record under that path.
    pub fn record_file(&mut self, path: String, content: &str)
        requires
            old(self).wf(),
        ensures
            final(self).wf(),
            final(self)@ == old(self)@.insert(path@, classify_spec(content@)),
    {
        let work = classify_file(path, content);
        self.put(work);
    }

    /// The stored records, one per path.
    pub fn records(&self) -> (r: &Vec<Work>)
        requires
            self.wf(),
        ensures
            forall|i: int, j: int|
                0 <= i < j < r@.len() ==> #[trigger] r@[i].file@ != #[trigger] r@[j].file@,
            forall|i: int|
                0 <= i < r@.len() ==> self@.contains_key(#[trigger] r@[i].file@) && self@[r@[i].file@]
                    == r@[i].facts(),
            forall|k: Seq<char>|
                #[trigger] self@.contains_key(k) ==> exists|i: int|
                    0 <= i < r@.len() && #[trigger] r@[i].file@ == k,
            r@.len() == self@.dom().len(),
    {
        proof {
            let keys = self.entries@.map_values(|w: Work| w.file@);
            assert forall|i: int, j: int|
                0 <= i < keys.len() && 0 <= j < keys.len() && i != j implies keys[i] != keys[j] by {
                if i < j {
                    assert(self.entries@[i].file@ != self.entries@[j].file@);
                } else {
                    assert(self.entries@[j].file@ != self.entries@[i].file@);
                }
            }
            keys.unique_seq_to_set();
            assert forall|k: Seq<char>| keys.to_set().contains(k) <==> self@.dom().contains(k) by {
                if self@.dom().contains(k) {
                    let i = choose|i: int|
                        0 <= i < self.entries@.len() && #[trigger] self.entries@[i].file@ == k;
                    assert(keys[i] == k);
                }
                if keys.contains(k) {
                    let i = choose|i: int| 0 <= i < keys.len() && keys[i] == k;
                    assert(self.entries@[i].file@ == k);
                }
            }
            assert(keys.to_set() =~= self@.dom());
        }
        &self.entries
    }
}

/// A full pass: starts from an empty store and records every file in order.
pub fn scan(files: &Vec<SourceFile>) -> (r: Catalog)
    ensures
        r.wf(),
        r@ == scan_spec(files@),
{
    let mut catalog = Catalog::new();
    let mut i: usize = 0;
    while i < files.len()
        invariant
            i <= files@.len(),
            catalog.wf(),
            catalog@ == scan_spec(files@.subrange(0, i as int)),
        decreases files@.len() - i,
    {
        let f = &files[i];
        catalog.record_file(f.path.clone(), f.content.as_str());
        proof {
            assert(files@.subrange(0, i + 1).drop_last() =~= files@.subrange(0, i as int));
        }
        i = i + 1;
    }
    proof {
        assert(files@.subrange(0, files@.len() as int) =~= files@);
    }
    catalog
}

/// After a pass, the store holds exactly the paths that were visited, and
/// each path's record is the classification of the last file visited under
/// that path.
pub proof fn lemma_scan_contents(files: Seq<SourceFile>)
    ensures
        forall|p: Seq<char>|
            #[trigger] scan_spec(files).contains_key(p) <==> exists|i: int|
                0 <= i < files.len() && #[trigger] files[i].path@ == p,
        forall|i: int|
            0 <= i < files.len() && (forall|k: int|
                i < k < files.len() ==> #[trigger] files[k].path@ != files[i].path@)
                ==> #[trigger] scan_spec(files)[files[i].path@] == classify_spec(files[i].content@),
    decreases files.len(),
{
    if files.len() > 0 {
        let init = files.drop_last();
        lemma_scan_contents(init);
        assert(scan_spec(files) == scan_spec(init).insert(
            files.last().path@,
            classify_spec(files.last().content@),
        ));
        assert forall|p: Seq<char>|
            #[trigger] scan_spec(files).contains_key(p) <==> exists|i: int|
                0 <= i < files.len() && #[trigger] files[i].path@ == p by {
            if scan_spec(files).contains_key(p) && p != files.last().path@ {
                assert(scan_spec(init).contains_key(p));
                let i = choose|i: int| 0 <= i < init.len() && #[trigger] init[i].path@ == p;
                assert(files[i].path@ == p);
            }
            if exists|i: int| 0 <= i < files.len() && #[trigger] files[i].path@ == p {
                let i = choose|i: int| 0 <= i < files.len() && #[trigger] files[i].path@ == p;
                if i < files.len() - 1 {
                    assert(init[i].path@ == p);
                }
            }
        }
        assert forall|i: int|
            0 <= i < files.len() && (forall|k: int|
                i < k < files.len() ==> #[trigger] files[k].path@ != files[i].path@)
                implies #[trigger] scan_spec(files)[files[i].path@] == classify_spec(
                files[i].content@,
            ) by {
            if i < files.len() - 1 {
                assert(files[files.len() - 1].path@ != files[i].path@);
                assert forall|k: int| i < k < init.len() implies #[trigger] init[k].path@
                    != init[i].path@ by {
                    assert(files[k].path@ != files[i].path@);
                }
                assert(init[i] == files[i]);
            }
        }
    }
}

/// No two files of `files` share a path.
pub open spec fn distinct_paths(files: Seq<SourceFile>) -> bool {
    forall|i: int, j: int|
        0 <= i < j < files.len() ==> #[trigger] files[i].path@ != #[trigger] files[j].path@
}

/// Every file of `a` appears in `b` with the same path and text.
pub open spec fn files_within(a: Seq<SourceFile>, b: Seq<SourceFile>) -> bool {
    forall|i: int|
        0 <= i < a.len() ==> exists|j: int|
            0 <= j < b.len() && #[trigger] b[j].path@ == #[trigger] a[i].path@ && b[j].content@
                == a[i].content@
}

/// Two passes over the same unchanged tree leave identical store contents,
/// in whatever order the walk visits the files.
pub proof fn lemma_rescan_identical(a: Seq<SourceFile>, b: Seq<SourceFile>)
    requires
        distinct_paths(a),
        distinct_paths(b),
        files_within(a, b),
        files_within(b, a),
    ensures
        scan_spec(a) == scan_spec(b),
{
    lemma_scan_contents(a);
    lemma_scan_contents(b);
    assert forall|p: Seq<char>| #[trigger] scan_spec(a).contains_key(p) implies scan_spec(b).contains_key(p)
        && scan_spec(a)[p] == scan_spec(b)[p] by {
        let i = choose|i: int| 0 <= i < a.len() && #[trigger] a[i].path@ == p;
        let j = choose|j: int|
            0 <= j < b.len() && #[trigger] b[j].path@ == #[trigger] a[i].path@ && b[j].content@
                == a[i].content@;
        assert forall|k: int| i < k < a.len() implies #[trigger] a[k].path@ != a[i].path@ by {
            assert(a[i].path@ != a[k].path@);
        }
        assert forall|k: int| j < k < b.len() implies #[trigger] b[k].path@ != b[j].path@ by {
            assert(b[j].path@ != b[k].path@);
        }
    }
    assert forall|p: Seq<char>| #[trigger] scan_spec(b).contains_key(p) implies scan_spec(a).contains_key(p) by {
        let j = choose|j: int| 0 <= j < b.len() && #[trigger] b[j].path@ == p;
        let i = choose|i: int|
            0 <= i < a.len() && #[trigger] a[i].path@ == #[trigger] b[j].path@ && a[i].content@
                == b[j].content@;
    }
    assert(scan_spec(a) =~= scan_spec(b));
}

} // verus!
