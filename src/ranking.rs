use vstd::prelude::*;
use vstd::seq_lib::{group_to_multiset_ensures, to_multiset_build, to_multiset_insert};

verus! {

/// Score points are counted in units of 1/5000: the length bonus grows by one
/// unit per byte of content up to one whole point.
pub const SCORE_SCALE: u64 = 5000;

/// The facts of a record that count towards its score.
#[derive(Clone, Copy, Debug, PartialEq, Eq, Structural)]
pub struct WorkDetails {
    pub is_java: bool,
    pub is_uruguayan: bool,
    pub is_high_quality: bool,
    pub content_length: usize,
}

/// 3 points for java, 2 for regional, 1 for good quality, and up to 1 point
/// for length (linear up to 5000 bytes), all in units of 1/`SCORE_SCALE`.
pub open spec fn score_spec(d: WorkDetails) -> nat {
    let java: nat = if d.is_java { 3 } else { 0 };
    let regional: nat = if d.is_uruguayan { 2 } else { 0 };
    let quality: nat = if d.is_high_quality { 1 } else { 0 };
    let length: nat = if d.content_length >= SCORE_SCALE {
        SCORE_SCALE as nat
    } else {
        d.content_length as nat
    };
    (java + regional + quality) * SCORE_SCALE as nat + length
}

/// Score of a details record, in units of 1/`SCORE_SCALE`.
pub fn score_of(d: &WorkDetails) -> (r: u64)
    ensures
        r == score_spec(*d),
        r <= 7 * SCORE_SCALE,
{
    let mut score: u64 = 0;
    if d.is_java {
        score = score + 3 * SCORE_SCALE;
    }
    if d.is_uruguayan {
        score = score + 2 * SCORE_SCALE;
    }
    if d.is_high_quality {
        score = score + SCORE_SCALE;
    }
    let length_bonus: u64 = if d.content_length as u64 >= SCORE_SCALE {
        SCORE_SCALE
    } else {
        d.content_length as u64
    };
    score + length_bonus
}

/// One entry of the ranked report.
#[derive(Debug)]
pub struct ScoredOpportunity {
    pub filename: String,
    /// Score in units of 1/`SCORE_SCALE`.
    pub score: u64,
    pub details: WorkDetails,
}

/// An entry of the report as values.
pub struct ScoredView {
    pub filename: Seq<char>,
    pub score: nat,
    pub details: WorkDetails,
}

impl View for ScoredOpportunity {
    type V = ScoredView;

    open spec fn view(&self) -> ScoredView {
        ScoredView { filename: self.filename@, score: self.score as nat, details: self.details }
    }
}

impl ScoredOpportunity {
    /// Sets `score` from the details; name and details are kept.
    pub fn calculate_score(&mut self)
        ensures
            final(self).score == score_spec(old(self).details),
            final(self).filename == old(self).filename,
            final(self).details == old(self).details,
    {
        self.score = score_of(&self.details);
    }
}

pub open spec fn views(s: Seq<ScoredOpportunity>) -> Seq<ScoredView> {
    s.map_values(|o: ScoredOpportunity| o@)
}

/// Scores never increase along `s`.
pub open spec fn sorted_desc(s: Seq<ScoredView>) -> bool {
    forall|i: int, j: int| 0 <= i < j < s.len() ==> #[trigger] s[i].score >= #[trigger] s[j].score
}

/// Orders entries by score, highest first. Entries of equal score keep no
/// promised order.
pub fn sort_by_score(v: Vec<ScoredOpportunity>) -> (r: Vec<ScoredOpportunity>)
    ensures
        views(r@).to_multiset() == views(v@).to_multiset(),
        sorted_desc(views(r@)),
{
    broadcast use group_to_multiset_ensures;

    let mut rest = v;
    let mut out: Vec<ScoredOpportunity> = Vec::new();
    while rest.len() > 0
        invariant
            views(out@).to_multiset().add(views(rest@).to_multiset()) == views(
                v@,
            ).to_multiset(),
            sorted_desc(views(out@)),
        decreases rest.len(),
    {
        let ghost before = rest@;
        let e = rest.pop().unwrap();
        proof {
            assert(before =~= rest@.push(e));
            assert(views(before) =~= views(rest@).push(e@));
        }
        let mut pos: usize = 0;
        while pos < out.len() && out[pos].score >= e.score
            invariant
                pos <= out@.len(),
                forall|k: int| 0 <= k < pos ==> #[trigger] out@[k].score >= e.score,
            decreases out@.len() - pos,
        {
            pos = pos + 1;
        }
        let ghost prev = out@;
        out.insert(pos, e);
        proof {
            assert(views(out@) =~= views(prev).insert(pos as int, e@));
            to_multiset_insert(views(prev), pos as int, e@);
            to_multiset_build(views(rest@), e@);
            assert(views(out@).to_multiset().add(views(rest@).to_multiset()) =~= views(
                prev,
            ).to_multiset().add(views(before).to_multiset()));
            assert forall|i: int, j: int| 0 <= i < j < views(out@).len() implies #[trigger] views(
                out@,
            )[i].score >= #[trigger] views(out@)[j].score by {
                if j < pos {
                    assert(views(prev)[i].score >= views(prev)[j].score);
                } else if j == pos {
                } else if i < pos {
                    assert(views(prev)[i].score >= views(prev)[j - 1].score);
                } else if i == pos {
                    assert(pos < prev.len());
                    assert(views(prev)[pos as int].score < e.score);
                    if pos < j - 1 {
                        assert(views(prev)[pos as int].score >= views(prev)[j - 1].score);
                    }
                } else {
                    assert(views(prev)[i - 1].score >= views(prev)[j - 1].score);
                }
            }
        }
    }
    proof {
        assert(views(rest@) =~= Seq::<ScoredView>::empty());
    }
    out
}

} // verus!
