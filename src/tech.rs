use vstd::prelude::*;
use vstd::string::StringExecFns;

verus! {

/// Whether `keyword` occurs in `description` case-insensitively, delimited by
/// the text's ends or non-word characters, as the regex crate decides it for
/// the pattern `(?i)(?:^|\W)<escaped keyword>(?:\W|$)`.
pub uninterp spec fn keyword_in(description: Seq<char>, keyword: Seq<char>) -> bool;

/// Relies on regex::escape, regex::Regex::new and Regex::is_match: the
/// answer depends on the two texts alone.
#[verifier::external_body]
fn mentions_keyword(description: &str, keyword: &str) -> (r: bool)
    ensures
        r == keyword_in(description@, keyword@),
{
    let pattern = format!(r"(?i)(?:^|\W){}(?:\W|$)", regex::escape(keyword));
    match regex::Regex::new(&pattern) {
        Ok(re) => re.is_match(description),
        Err(_) => false,
    }
}

/// The technologies looked for, in this order.
pub open spec fn tech_keywords() -> Seq<Seq<char>> {
    seq![
        "Rust"@, "Python"@, "Java"@, "JavaScript"@, "TypeScript"@, "Go"@, "C++"@, "C#"@,
        "React"@, "Angular"@, "Vue"@, "Node.js"@, "Django"@, "Flask"@, "Spring"@, "SQL"@,
        "NoSQL"@, "PostgreSQL"@, "MySQL"@, "MongoDB"@, "Redis"@, "AWS"@, "Azure"@, "GCP"@,
        "Docker"@, "Kubernetes"@, "Terraform"@, "Linux"@, "Git"@, "Agile"@, "Scrum"@,
    ]
}

/// The keywords of `keywords` found in `description`, in list order.
pub open spec fn found_keywords(keywords: Seq<Seq<char>>, description: Seq<char>) -> Seq<Seq<char>>
    decreases keywords.len(),
{
    if keywords.len() == 0 {
        Seq::empty()
    } else {
        let before = found_keywords(keywords.drop_last(), description);
        if keyword_in(description, keywords.last()) {
            before.push(keywords.last())
        } else {
            before
        }
    }
}

/// The technologies of the fixed list that `description` mentions as whole
/// words, ignoring case, each once, in list order.
pub fn extract_tech_stack(description: &str) -> (r: Vec<String>)
    ensures
        r@.map_values(|s: String| s@) == found_keywords(tech_keywords(), description@),
{
    let keywords: Vec<&str> = vec![
        "Rust", "Python", "Java", "JavaScript", "TypeScript", "Go", "C++", "C#", "React",
        "Angular", "Vue", "Node.js", "Django", "Flask", "Spring", "SQL", "NoSQL", "PostgreSQL",
        "MySQL", "MongoDB", "Redis", "AWS", "Azure", "GCP", "Docker", "Kubernetes", "Terraform",
        "Linux", "Git", "Agile", "Scrum",
    ];
    assert(keywords@.map_values(|k: &str| k@) =~= tech_keywords());
    let mut found: Vec<String> = Vec::new();
    let mut i: usize = 0;
    while i < keywords.len()
        invariant
            i <= keywords@.len(),
            keywords@.map_values(|k: &str| k@) == tech_keywords(),
            found@.map_values(|s: String| s@) == found_keywords(
                tech_keywords().subrange(0, i as int),
                description@,
            ),
        decreases keywords@.len() - i,
    {
        let ghost before = found@;
        let keyword = keywords[i];
        proof {
            assert(tech_keywords().subrange(0, i + 1).drop_last() =~= tech_keywords().subrange(
                0,
                i as int,
            ));
            assert(tech_keywords()[i as int] == keyword@);
        }
        if mentions_keyword(description, keyword) {
            let s = String::from_str(keyword);
            found.push(s);
            assert(found@.map_values(|s: String| s@) =~= before.map_values(|s: String| s@).push(
                keyword@,
            ));
        }
        i = i + 1;
    }
    assert(tech_keywords().subrange(0, keywords@.len() as int) =~= tech_keywords());
    found
}

} // verus!
