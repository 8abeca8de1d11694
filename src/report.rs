use vstd::prelude::*;
use vstd::string::StrSliceExecFns;
use vstd::string::StringExecFns;
use crate::catalog::Work;
use crate::classify::{LanguageTag, QualityTag};
use crate::ranking::{
    score_spec, sort_by_score, sorted_desc, views, ScoredOpportunity, ScoredView,
    WorkDetails,
};

verus! {

/// Start of the last `/`-separated segment of `s[..i]`.
pub open spec fn segment_start(s: Seq<char>, i: int) -> int
    decreases i,
{
    if i <= 0 {
        0
    } else if s[i - 1] == '/' {
        i
    } else {
        segment_start(s, i - 1)
    }
}

/// The base name of a path: its last segment, or "unknown" where that is empty.
pub open spec fn display_name_spec(path: Seq<char>) -> Seq<char> {
    let seg = path.subrange(segment_start(path, path.len() as int), path.len() as int);
    if seg.len() == 0 {
        "unknown"@
    } else {
        seg
    }
}

proof fn lemma_segment_start_bounds(s: Seq<char>, i: int)
    requires
        0 <= i <= s.len(),
    ensures
        0 <= segment_start(s, i) <= i,
    decreases i,
{
    if i > 0 && s[i - 1] != '/' {
        lemma_segment_start_bounds(s, i - 1);
    }
}

/// The base name of `path`, shown in the report.
pub fn file_name(path: &str) -> (r: String)
    ensures
        r@ == display_name_spec(path@),
{
    let n = path.unicode_len();
    let mut i: usize = n;
    while i > 0 && path.get_char(i - 1) != '/'
        invariant
            i <= n,
            n == path@.len(),
            segment_start(path@, n as int) == segment_start(path@, i as int),
        decreases i,
    {
        i = i - 1;
    }
    proof {
        lemma_segment_start_bounds(path@, n as int);
    }
    if i == n {
        String::from_str("unknown")
    } else {
        String::from_str(path.substring_char(i, n))
    }
}

/// The scoring facts of a stored record.
pub open spec fn details_spec(w: Work) -> WorkDetails {
    WorkDetails {
        is_java: w.language == LanguageTag::Java,
        is_uruguayan: w.national,
        is_high_quality: w.quality == QualityTag::Good,
        content_length: w.content_length,
    }
}

/// The report entry of a stored record.
pub open spec fn scored_spec(w: Work) -> ScoredView {
    ScoredView {
        filename: display_name_spec(w.file@),
        score: score_spec(details_spec(w)),
        details: details_spec(w),
    }
}

/// Builds the scored report entry of one record.
pub fn score_work(w: &Work) -> (r: ScoredOpportunity)
    ensures
        r@ == scored_spec(*w),
{
    let details = WorkDetails {
        is_java: w.language == LanguageTag::Java,
        is_uruguayan: w.national,
        is_high_quality: w.quality == QualityTag::Good,
        content_length: w.content_length,
    };
    let mut scored = ScoredOpportunity { filename: file_name(w.file.as_str()), score: 0, details };
    scored.calculate_score();
    scored
}

pub open spec fn digit_text(d: nat) -> Seq<char> {
    if d == 0 {
        "0"@
    } else if d == 1 {
        "1"@
    } else if d == 2 {
        "2"@
    } else if d == 3 {
        "3"@
    } else if d == 4 {
        "4"@
    } else if d == 5 {
        "5"@
    } else if d == 6 {
        "6"@
    } else if d == 7 {
        "7"@
    } else if d == 8 {
        "8"@
    } else {
        "9"@
    }
}

/// Decimal digits of `n`, without leading zeros.
pub open spec fn decimal(n: nat) -> Seq<char>
    decreases n,
{
    if n < 10 {
        digit_text(n)
    } else {
        decimal(n / 10) + digit_text(n % 10)
    }
}

fn digit_str(d: u64) -> (r: &'static str)
    requires
        d < 10,
    ensures
        r@ == digit_text(d as nat),
{
    if d == 0 {
        "0"
    } else if d == 1 {
        "1"
    } else if d == 2 {
        "2"
    } else if d == 3 {
        "3"
    } else if d == 4 {
        "4"
    } else if d == 5 {
        "5"
    } else if d == 6 {
        "6"
    } else if d == 7 {
        "7"
    } else if d == 8 {
        "8"
    } else {
        "9"
    }
}

/// Appends the decimal digits of `n`.
pub fn push_decimal(out: &mut String, n: u64)
    ensures
        final(out)@ == old(out)@ + decimal(n as nat),
    decreases n,
{
    if n >= 10 {
        push_decimal(out, n / 10);
        out.append(digit_str(n % 10));
        assert(old(out)@ + decimal(n as nat) =~= old(out)@ + decimal((n / 10) as nat) + digit_text(
            (n % 10) as nat,
        ));
    } else {
        out.append(digit_str(n));
    }
}

/// A score in units of 1/5000 as points with two decimals, rounded half up.
pub open spec fn score_text(score: nat) -> Seq<char> {
    let hundredths = (score + 25) / 50;
    decimal(hundredths / 100) + "."@ + digit_text((hundredths % 100) / 10) + digit_text(
        hundredths % 10,
    )
}

/// Appends a score as points with two decimals.
pub fn push_score(out: &mut String, score: u64)
    ensures
        final(out)@ == old(out)@ + score_text(score as nat),
{
    let hundredths: u64 = score / 50 + if score % 50 >= 25 { 1 } else { 0 };
    assert(hundredths == (score + 25) / 50);
    push_decimal(out, hundredths / 100);
    out.append(".");
    out.append(digit_str((hundredths % 100) / 10));
    out.append(digit_str(hundredths % 10));
    assert(final(out)@ =~= old(out)@ + score_text(score as nat));
}

pub open spec fn header_text() -> Seq<char> {
    "# Top Job Opportunities\n\nThis document lists job opportunities sorted by importance. Importance is calculated based on:\n- Java-based positions (3 points)\n- Uruguayan companies/organizations (2 points)\n- High quality job descriptions (1 point)\n- Content length bonus (up to 1 point)\n\n## Opportunities (Sorted by Importance)\n\n"@
}

pub open spec fn empty_notice() -> Seq<char> {
    "No opportunities found.\n"@
}

pub open spec fn footer_text(generated_at: Seq<char>) -> Seq<char> {
    "\n## Last Updated\n\nGenerated on: "@ + generated_at + "\n"@
}

pub open spec fn flag_line(on: bool, line: Seq<char>) -> Seq<char> {
    if on {
        line
    } else {
        Seq::empty()
    }
}

/// The lines of the entry ranked `rank` (counting from 1).
pub open spec fn entry_text(rank: nat, e: ScoredView) -> Seq<char> {
    "### "@ + decimal(rank) + ". "@ + e.filename + " (Score: "@ + score_text(e.score) + ")\n**Criteria met:**\n"@
        + flag_line(e.details.is_java, "- Java position\n"@) + flag_line(
        e.details.is_uruguayan,
        "- Uruguayan company\n"@,
    ) + flag_line(e.details.is_high_quality, "- High quality description\n"@)
        + "- Content length: "@ + decimal(e.details.content_length as nat) + " characters\n\n"@
}

/// The numbered list of `entries`, in their order.
pub open spec fn list_text(entries: Seq<ScoredView>) -> Seq<char>
    decreases entries.len(),
{
    if entries.len() == 0 {
        Seq::empty()
    } else {
        list_text(entries.drop_last()) + entry_text(entries.len() as nat, entries.last())
    }
}

/// The whole report for `entries` in the given order.
pub open spec fn report_text(entries: Seq<ScoredView>, generated_at: Seq<char>) -> Seq<char> {
    header_text() + (if entries.len() == 0 {
        empty_notice()
    } else {
        list_text(entries)
    }) + footer_text(generated_at)
}

fn push_flag_line(out: &mut String, on: bool, line: &str)
    ensures
        final(out)@ == old(out)@ + flag_line(on, line@),
{
    if on {
        out.append(line);
    } else {
        assert(old(out)@ + flag_line(on, line@) =~= old(out)@);
    }
}

fn push_entry(out: &mut String, rank: u64, e: &ScoredOpportunity)
    ensures
        final(out)@ == old(out)@ + entry_text(rank as nat, e@),
{
    out.append("### ");
    push_decimal(out, rank);
    out.append(". ");
    out.append(e.filename.as_str());
    out.append(" (Score: ");
    push_score(out, e.score);
    out.append(")\n**Criteria met:**\n");
    push_flag_line(out, e.details.is_java, "- Java position\n");
    push_flag_line(out, e.details.is_uruguayan, "- Uruguayan company\n");
    push_flag_line(out, e.details.is_high_quality, "- High quality description\n");
    out.append("- Content length: ");
    push_decimal(out, e.details.content_length as u64);
    out.append(" characters\n\n");
    assert(final(out)@ =~= old(out)@ + entry_text(rank as nat, e@));
}

/// Renders the report for entries in the given order, stamped with
/// `generated_at`.
pub fn render_report(entries: &Vec<ScoredOpportunity>, generated_at: &str) -> (r: String)
    ensures
        r@ == report_text(views(entries@), generated_at@),
{
    let mut out = String::from_str("# Top Job Opportunities\n\nThis document lists job opportunities sorted by importance. Importance is calculated based on:\n- Java-based positions (3 points)\n- Uruguayan companies/organizations (2 points)\n- High quality job descriptions (1 point)\n- Content length bonus (up to 1 point)\n\n## Opportunities (Sorted by Importance)\n\n");
    if entries.len() == 0 {
        out.append("No opportunities found.\n");
    } else {
        let mut i: usize = 0;
        while i < entries.len()
            invariant
                i <= entries@.len(),
                out@ == header_text() + list_text(views(entries@).subrange(0, i as int)),
            decreases entries@.len() - i,
        {
            let ghost before = out@;
            push_entry(&mut out, (i + 1) as u64, &entries[i]);
            proof {
                let s = views(entries@).subrange(0, i + 1);
                assert(s.drop_last() =~= views(entries@).subrange(0, i as int));
                assert(s.last() == entries@[i as int]@);
                assert(out@ =~= header_text() + list_text(s));
            }
            i = i + 1;
        }
        assert(views(entries@).subrange(0, entries@.len() as int) =~= views(entries@));
    }
    out.append("\n## Last Updated\n\nGenerated on: ");
    out.append(generated_at);
    out.append("\n");
    assert(out@ =~= report_text(views(entries@), generated_at@));
    out
}

/// Scores every record, orders the entries by score (highest first) and
/// renders the report stamped with `generated_at`.
pub fn build_report(works: &Vec<Work>, generated_at: &str) -> (r: String)
    ensures
        exists|ranked: Seq<ScoredView>|
            {
                &&& ranked.to_multiset() == works@.map_values(|w: Work| scored_spec(w)).to_multiset()
                &&& sorted_desc(ranked)
                &&& r@ == report_text(ranked, generated_at@)
            },
{
    let mut scored: Vec<ScoredOpportunity> = Vec::new();
    let mut i: usize = 0;
    while i < works.len()
        invariant
            i <= works@.len(),
            views(scored@) =~= works@.subrange(0, i as int).map_values(|w: Work| scored_spec(w)),
        decreases works@.len() - i,
    {
        let ghost before = scored@;
        let e = score_work(&works[i]);
        scored.push(e);
        proof {
            assert(scored@ =~= before.push(e));
            assert(views(scored@) =~= views(before).push(e@));
            assert(works@.subrange(0, i + 1).map_values(|w: Work| scored_spec(w)) =~= works@.subrange(
                0,
                i as int,
            ).map_values(|w: Work| scored_spec(w)).push(scored_spec(works@[i as int])));
        }
        i = i + 1;
    }
    assert(works@.subrange(0, works@.len() as int) =~= works@);
    let ranked = sort_by_score(scored);
    render_report(&ranked, generated_at)
}

/// With no records the report is the header, the notice that nothing was
/// found and the footer: no numbered entry.
pub proof fn lemma_empty_report(generated_at: Seq<char>)
    ensures
        report_text(Seq::empty(), generated_at) == header_text() + empty_notice() + footer_text(
            generated_at,
        ),
{
}

} // verus!
