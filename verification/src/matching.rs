use vstd::prelude::*;

verus! {

/// The outcome of searching `text` with the case-insensitive pattern
/// `pattern`: `None` when the pattern matches nowhere, otherwise the text
/// preceding the leftmost match together with the texts captured by the
/// pattern's first and second capture group (`None` for a group that did not
/// participate in the match).  A pure function of the two strings.
pub uninterp spec fn regex_search(pattern: Seq<char>, text: Seq<char>) -> Option<
    (Seq<char>, Option<Seq<char>>, Option<Seq<char>>),
>;

/// The parts of a successful pattern match that rule application consumes.
pub struct MatchParts {
    /// The text of the haystack before the start of the match.
    pub prefix: String,
    /// The text captured by the first capture group, if it participated.
    pub group1: Option<String>,
    /// The text captured by the second capture group, if it participated.
    pub group2: Option<String>,
}

pub open spec fn match_parts_model(m: MatchParts) -> (Seq<char>, Option<Seq<char>>, Option<
    Seq<char>,
>) {
    (
        m.prefix@,
        match m.group1 {
            Some(g) => Some(g@),
            None => None,
        },
        match m.group2 {
            Some(g) => Some(g@),
            None => None,
        },
    )
}

pub open spec fn search_model(r: Option<MatchParts>) -> Option<
    (Seq<char>, Option<Seq<char>>, Option<Seq<char>>),
> {
    match r {
        Some(m) => Some(match_parts_model(m)),
        None => None,
    }
}

/// Relies on `regex::RegexBuilder::build` with `case_insensitive(true)` and
/// `regex::Regex::captures`: for a fixed pattern and haystack, the leftmost
/// match and the spans of its capture groups depend on the two strings alone;
/// a pattern that does not compile matches nothing.
#[verifier::external_body]
pub(crate) fn search(pattern: &str, text: &str) -> (r: Option<MatchParts>)
    ensures
        search_model(r) == regex_search(pattern@, text@),
{
    let re = match regex::RegexBuilder::new(pattern).case_insensitive(true).build() {
        Ok(re) => re,
        Err(_) => return None,
    };
    let caps = re.captures(text)?;
    let whole = caps.get(0).unwrap();
    let group1 = match caps.get(1) {
        Some(g) => Some(g.as_str().to_string()),
        None => None,
    };
    let group2 = match caps.get(2) {
        Some(g) => Some(g.as_str().to_string()),
        None => None,
    };
    Some(MatchParts { prefix: text[..whole.start()].to_string(), group1, group2 })
}

} // verus!
