use vstd::prelude::*;
use vstd::utf8::encode_utf8;

verus! {

/// Byte length above which a document counts as good quality.
pub const QUALITY_THRESHOLD: usize = 1000;

/// Whether the case-insensitive whole word "java" occurs in `text`, as the
/// pattern `(?i)\bjava\b` of the regex crate decides it.
pub uninterp spec fn java_word_in(text: Seq<char>) -> bool;

/// Relies on regex::Regex::new and Regex::is_match for the fixed pattern
/// `(?i)\bjava\b`: the answer depends on the text alone.
#[verifier::external_body]
fn mentions_java(text: &str) -> (r: bool)
    ensures
        r == java_word_in(text@),
        text@.len() == 0 ==> !r,
{
    match regex::Regex::new(r"(?i)\bjava\b") {
        Ok(re) => re.is_match(text),
        Err(_) => false,
    }
}

/// The bytes of the regional marker "Uruguay".
pub open spec fn regional_marker() -> Seq<u8> {
    seq![85u8, 114u8, 117u8, 103u8, 117u8, 97u8, 121u8]
}

/// `pat` occurs in `hay` at byte offset `at`.
pub open spec fn occurs_at(hay: Seq<u8>, pat: Seq<u8>, at: int) -> bool {
    0 <= at && at + pat.len() <= hay.len() && hay.subrange(at, at + pat.len()) =~= pat
}

/// `pat` occurs somewhere in `hay`.
pub open spec fn has_subslice(hay: Seq<u8>, pat: Seq<u8>) -> bool {
    exists|at: int| #[trigger] occurs_at(hay, pat, at)
}

/// The classification facts of one document, as values.
pub struct ClassView {
    pub java: bool,
    pub good_quality: bool,
    pub regional: bool,
    pub content_length: nat,
}

/// What the classifier decides for a document with the given text.
pub open spec fn classify_spec(text: Seq<char>) -> ClassView {
    ClassView {
        java: java_word_in(text),
        good_quality: encode_utf8(text).len() > QUALITY_THRESHOLD,
        regional: has_subslice(encode_utf8(text), regional_marker()),
        content_length: encode_utf8(text).len(),
    }
}

/// Language group of a document.
#[derive(Clone, Copy, Debug, PartialEq, Eq, Structural)]
pub enum LanguageTag {
    Java,
    Other,
}

/// Quality group of a document.
#[derive(Clone, Copy, Debug, PartialEq, Eq, Structural)]
pub enum QualityTag {
    Good,
    Low,
}

/// The outcome of classifying one document's content.
#[derive(Clone, Copy, Debug, PartialEq, Eq, Structural)]
pub struct Classification {
    pub language: LanguageTag,
    pub quality: QualityTag,
    pub national: bool,
    pub content_length: usize,
}

impl Classification {
    pub open spec fn view_facts(self) -> ClassView {
        ClassView {
            java: self.language == LanguageTag::Java,
            good_quality: self.quality == QualityTag::Good,
            regional: self.national,
            content_length: self.content_length as nat,
        }
    }
}

/// Whether `pat` occurs as a contiguous run of bytes inside `hay`.
pub fn contains_bytes(hay: &[u8], pat: &[u8]) -> (r: bool)
    ensures
        r == has_subslice(hay@, pat@),
{
    if pat.len() > hay.len() {
        assert forall|at: int| !#[trigger] occurs_at(hay@, pat@, at) by {}
        return false;
    }
    let n: usize = hay.len();
    let last: usize = n - pat.len();
    let mut at: usize = 0;
    loop
        invariant
            at <= last,
            last == hay@.len() - pat@.len(),
            pat@.len() <= hay@.len(),
            n == hay@.len(),
            forall|k: int| 0 <= k < at ==> !#[trigger] occurs_at(hay@, pat@, k),
        ensures
            forall|k: int| 0 <= k <= last ==> !#[trigger] occurs_at(hay@, pat@, k),
        decreases last - at,
    {
        let mut j: usize = 0;
        let mut same = true;
        while j < pat.len()
            invariant
                0 <= at <= last,
                last == hay@.len() - pat@.len(),
                pat@.len() <= hay@.len(),
                n == hay@.len(),
                j <= pat@.len(),
                same == (forall|m: int| 0 <= m < j ==> hay@[at + m] == pat@[m]),
            decreases pat@.len() - j,
        {
            if hay[at + j] != pat[j] {
                same = false;
            }
            j = j + 1;
        }
        if same {
            assert(hay@.subrange(at as int, at + pat@.len()) =~= pat@);
            assert(occurs_at(hay@, pat@, at as int));
            return true;
        }
        assert(!occurs_at(hay@, pat@, at as int)) by {
            if occurs_at(hay@, pat@, at as int) {
                assert forall|m: int| 0 <= m < pat@.len() implies hay@[at + m] == pat@[m] by {
                    assert(hay@.subrange(at as int, at + pat@.len())[m] == hay@[at + m]);
                }
            }
        }
        if at == last {
            break;
        }
        at = at + 1;
    }
    assert forall|k: int| !#[trigger] occurs_at(hay@, pat@, k) by {
        if 0 <= k <= last {
        }
    }
    false
}

/// Classifies a document's text: the "java" whole-word mention, quality by
/// byte length, the regional marker and the byte length itself. Text that
/// could not be read is passed as the empty string.
pub fn classify(content: &str) -> (r: Classification)
    ensures
        r.view_facts() == classify_spec(content@),
        content@.len() == 0 ==> r == (Classification {
            language: LanguageTag::Other,
            quality: QualityTag::Low,
            national: false,
            content_length: 0,
        }),
{
    let bytes = content.as_bytes();
    let marker: [u8; 7] = [85, 114, 117, 103, 117, 97, 121];
    assert(marker@ =~= regional_marker());
    let java = mentions_java(content);
    let length = bytes.len();
    let national = contains_bytes(bytes, marker.as_slice());
    Classification {
        language: if java { LanguageTag::Java } else { LanguageTag::Other },
        quality: if length > QUALITY_THRESHOLD { QualityTag::Good } else { QualityTag::Low },
        national,
        content_length: length,
    }
}

} // verus!
