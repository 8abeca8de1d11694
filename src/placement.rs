use vstd::prelude::*;
use vstd::string::StrSliceExecFns;
use vstd::string::StringExecFns;
use crate::catalog::Work;
use crate::classify::{LanguageTag, QualityTag};

verus! {

/// Top-level folder of a record's language group.
pub open spec fn group_name(java: bool) -> Seq<char> {
    if java {
        "Works in java language"@
    } else {
        "Works in other languages"@
    }
}

/// Second-level folder: regional first, then good quality, else low quality.
pub open spec fn subgroup_name(regional: bool, good: bool) -> Seq<char> {
    if regional {
        "National (uruguayan) works"@
    } else if good {
        "Good quality works"@
    } else {
        "Low quality works"@
    }
}

/// `root` with exactly the trailing separator needed to append a segment.
pub open spec fn dir_prefix(root: Seq<char>) -> Seq<char> {
    if root.len() > 0 && root.last() == '/' {
        root
    } else {
        root.push('/')
    }
}

/// The path of `file` below `root`, if `file` lies strictly inside `root`.
pub open spec fn relative_to(root: Seq<char>, file: Seq<char>) -> Option<Seq<char>> {
    let base = dir_prefix(root);
    if base.len() < file.len() && file.subrange(0, base.len() as int) == base {
        Some(file.subrange(base.len() as int, file.len() as int))
    } else {
        None
    }
}

/// Where the copy of `w` goes: destination root, group, subgroup, then the
/// file's path relative to the source root.
pub open spec fn destination_spec(source_root: Seq<char>, dest_root: Seq<char>, w: Work) -> Option<
    Seq<char>,
> {
    match relative_to(source_root, w.file@) {
        Some(rel) => Some(
            dir_prefix(dest_root) + group_name(w.language == LanguageTag::Java) + "/"@
                + subgroup_name(w.national, w.quality == QualityTag::Good) + "/"@ + rel,
        ),
        None => None,
    }
}

pub fn group_dir(language: LanguageTag) -> (r: &'static str)
    ensures
        r@ == group_name(language == LanguageTag::Java),
{
    match language {
        LanguageTag::Java => "Works in java language",
        LanguageTag::Other => "Works in other languages",
    }
}

pub fn subgroup_dir(national: bool, quality: QualityTag) -> (r: &'static str)
    ensures
        r@ == subgroup_name(national, quality == QualityTag::Good),
{
    if national {
        "National (uruguayan) works"
    } else if quality == QualityTag::Good {
        "Good quality works"
    } else {
        "Low quality works"
    }
}

/// `root` ending in one separator, ready for a segment to be appended.
pub fn with_separator(root: &str) -> (r: String)
    ensures
        r@ == dir_prefix(root@),
{
    let n = root.unicode_len();
    if n > 0 && root.get_char(n - 1) == '/' {
        String::from_str(root)
    } else {
        let mut s = String::from_str(root);
        s.append("/");
        proof {
            reveal_strlit("/");
        }
        assert(s@ =~= root@.push('/'));
        s
    }
}

/// The path of `file` below `root`, or `None` where `file` is not inside it.
pub fn relative_path(root: &str, file: &str) -> (r: Option<String>)
    ensures
        match r {
            Some(s) => relative_to(root@, file@) == Some(s@),
            None => relative_to(root@, file@) is None,
        },
{
    let base = with_separator(root);
    let b = base.as_str();
    let bn = b.unicode_len();
    let fnl = file.unicode_len();
    if bn >= fnl {
        return None;
    }
    let mut i: usize = 0;
    while i < bn
        invariant
            bn == b@.len(),
            b@ == dir_prefix(root@),
            fnl == file@.len(),
            bn < fnl,
            i <= bn,
            forall|k: int| 0 <= k < i ==> b@[k] == file@[k],
        decreases bn - i,
    {
        if b.get_char(i) != file.get_char(i) {
            assert(file@.subrange(0, bn as int)[i as int] != b@[i as int]);
            return None;
        }
        i = i + 1;
    }
    assert(file@.subrange(0, bn as int) =~= b@);
    Some(String::from_str(file.substring_char(bn, fnl)))
}

/// Where the copy of `w` goes, or `None` where its file is not inside
/// `source_root`.
pub fn destination_path(source_root: &str, dest_root: &str, w: &Work) -> (r: Option<String>)
    ensures
        match r {
            Some(s) => destination_spec(source_root@, dest_root@, *w) == Some(s@),
            None => destination_spec(source_root@, dest_root@, *w) is None,
        },
{
    match relative_path(source_root, w.file.as_str()) {
        None => None,
        Some(rel) => {
            let mut out = with_separator(dest_root);
            out.append(group_dir(w.language));
            out.append("/");
            out.append(subgroup_dir(w.national, w.quality));
            out.append("/");
            out.append(rel.as_str());
            Some(out)
        },
    }
}

/// One file copy of the reorganization.
pub struct CopyStep {
    pub from: String,
    pub to: String,
}

/// Why a reorganization cannot be planned.
#[derive(Debug)]
pub enum PlacementError {
    /// A stored record's file does not lie inside the source root.
    OutsideSourceRoot { file: String },
}

/// Plans the copies of a reorganization: one per record, in the records'
/// order, from the record's file to its destination. Fails on the first
/// record whose file is not inside `source_root`.
pub fn plan_copies(source_root: &str, dest_root: &str, works: &Vec<Work>) -> (r: Result<
    Vec<CopyStep>,
    PlacementError,
>)
    ensures
        match r {
            Ok(steps) => {
                &&& steps@.len() == works@.len()
                &&& forall|i: int|
                    0 <= i < works@.len() ==> {
                        &&& #[trigger] steps@[i].from@ == works@[i].file@
                        &&& destination_spec(source_root@, dest_root@, works@[i]) == Some(
                            steps@[i].to@,
                        )
                    }
            },
            Err(PlacementError::OutsideSourceRoot { file }) => exists|i: int|
                {
                    &&& 0 <= i < works@.len()
                    &&& #[trigger] works@[i].file@ == file@
                    &&& destination_spec(source_root@, dest_root@, works@[i]) is None
                    &&& forall|k: int|
                        0 <= k < i ==> destination_spec(
                            source_root@,
                            dest_root@,
                            #[trigger] works@[k],
                        ) is Some
                },
        },
{
    let mut steps: Vec<CopyStep> = Vec::new();
    let mut i: usize = 0;
    while i < works.len()
        invariant
            i <= works@.len(),
            steps@.len() == i,
            forall|k: int|
                0 <= k < i ==> {
                    &&& #[trigger] steps@[k].from@ == works@[k].file@
                    &&& destination_spec(source_root@, dest_root@, works@[k]) == Some(
                        steps@[k].to@,
                    )
                },
        decreases works@.len() - i,
    {
        let w = &works[i];
        match destination_path(source_root, dest_root, w) {
            None => {
                assert forall|k: int| 0 <= k < i implies destination_spec(
                    source_root@,
                    dest_root@,
                    #[trigger] works@[k],
                ) is Some by {
                    assert(steps@[k].from@ == works@[k].file@);
                }
                let file = w.file.clone();
                return Err(PlacementError::OutsideSourceRoot { file });
            },
            Some(to) => {
                steps.push(CopyStep { from: w.file.clone(), to });
            },
        }
        i = i + 1;
    }
    Ok(steps)
}

/// A record's destination depends on its path and its classification facts
/// alone: an unchanged file classified the same way lands at the same place
/// on every run, whatever an earlier run did.
pub proof fn lemma_destination_repeatable(
    source_root: Seq<char>,
    dest_root: Seq<char>,
    first: Work,
    second: Work,
)
    requires
        first.file@ == second.file@,
        first.facts() == second.facts(),
    ensures
        destination_spec(source_root, dest_root, first) == destination_spec(
            source_root,
            dest_root,
            second,
        ),
{
    assert(first.language == LanguageTag::Java <==> second.language == LanguageTag::Java);
    assert(first.quality == QualityTag::Good <==> second.quality == QualityTag::Good);
}

} // verus!
