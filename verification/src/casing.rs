use vstd::prelude::*;
use vstd::string::StringExecFns;

verus! {

/// The characters that `voca_rs::case::lower_case` returns for a given input:
/// a pure function of the input characters.
pub uninterp spec fn lower_of(s: Seq<char>) -> Seq<char>;

/// The characters that `voca_rs::case::upper_case` returns for a given input:
/// a pure function of the input characters.
pub uninterp spec fn upper_of(s: Seq<char>) -> Seq<char>;

/// The characters that `voca_rs::case::upper_first` returns for a given input:
/// a pure function of the input characters.
pub uninterp spec fn upper_first_of(s: Seq<char>) -> Seq<char>;

/// The characters that `voca_rs::case::camel_case` returns for a given input:
/// a pure function of the input characters.
pub uninterp spec fn camel_of(s: Seq<char>) -> Seq<char>;

/// Relies on `voca_rs::case::lower_case`: maps every character to its Unicode
/// lowercase form; the result depends on the input characters alone.
#[verifier::external_body]
pub(crate) fn lower_case(s: &str) -> (r: String)
    ensures
        r@ == lower_of(s@),
{
    voca_rs::case::lower_case(s)
}

/// Relies on `voca_rs::case::upper_case`: maps every character to its Unicode
/// uppercase form; the result depends on the input characters alone.
#[verifier::external_body]
pub(crate) fn upper_case(s: &str) -> (r: String)
    ensures
        r@ == upper_of(s@),
{
    voca_rs::case::upper_case(s)
}

/// Relies on `voca_rs::case::upper_first`: capitalizes the first character and
/// keeps the rest; the result depends on the input characters alone.
#[verifier::external_body]
pub(crate) fn upper_first(s: &str) -> (r: String)
    ensures
        r@ == upper_first_of(s@),
{
    voca_rs::case::upper_first(s)
}

/// Relies on `voca_rs::case::camel_case`: splits the input into words and
/// joins them in camel style; the result depends on the input characters alone.
#[verifier::external_body]
pub(crate) fn camel_case(s: &str) -> (r: String)
    ensures
        r@ == camel_of(s@),
{
    voca_rs::case::camel_case(s)
}

/// The casing style of `origin` is inferred by testing, in this priority
/// order, whether `origin` equals the candidate itself, its own lowercase,
/// uppercase, first-letter-capitalized, or camel form; the first style that
/// matches is applied to `candidate`, and an unrecognized style falls back
/// to lowercase.
pub open spec fn restore_case_spec(origin: Seq<char>, candidate: Seq<char>) -> Seq<char> {
    if origin == candidate {
        candidate
    } else if origin == lower_of(origin) {
        lower_of(candidate)
    } else if origin == upper_of(origin) {
        upper_of(candidate)
    } else if origin == upper_first_of(origin) {
        upper_first_of(candidate)
    } else if origin == camel_of(origin) {
        camel_of(candidate)
    } else {
        lower_of(candidate)
    }
}

/// Reapplies the casing style of `origin` to the derived word `candidate`.
pub(crate) fn restore_case(origin: &str, candidate: &str) -> (r: String)
    ensures
        r@ == restore_case_spec(origin@, candidate@),
{
    let o = String::from_str(origin);
    let c = String::from_str(candidate);
    if o == c {
        return c;
    }
    let lowered = lower_case(origin);
    if o == lowered {
        return lower_case(candidate);
    }
    let uppered = upper_case(origin);
    if o == uppered {
        return upper_case(candidate);
    }
    let first_uppered = upper_first(origin);
    if o == first_uppered {
        return upper_first(candidate);
    }
    let camelled = camel_case(origin);
    if o == camelled {
        return camel_case(candidate);
    }
    lower_case(candidate)
}

} // verus!
