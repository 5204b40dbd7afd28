use vstd::prelude::*;

use crate::casing::{lower_of, restore_case_spec};
use crate::rules::{apply_rules_spec, find_rule, is_identity_marker};
use crate::tables::{irregular_pairs, plural_rule_list};
use crate::{
    in_irregular, irregular_plural_verdict, irregular_singular_verdict, plural_of_irregular,
    singular_of_irregular, spec_is_plural, spec_is_singular, spec_is_uncountable, spec_to_plural,
    spec_to_singular,
};

verus! {

/// An uncountable word is left unchanged by both conversions and is reported
/// as neither plural nor singular.
pub proof fn lemma_uncountable_unchanged(w: Seq<char>)
    requires
        spec_is_uncountable(w),
    ensures
        spec_to_plural(w) == w,
        spec_to_singular(w) == w,
        !spec_is_plural(w),
        !spec_is_singular(w),
{
}

/// A word stored in the irregular table, on either side of a pair, is never
/// classified uncountable: irregular status overrides uncountable status.
pub proof fn lemma_irregular_overrides_uncountable(w: Seq<char>)
    requires
        in_irregular(lower_of(w)),
    ensures
        !spec_is_uncountable(w),
{
}

proof fn lemma_plural_lookup_found(lw: Seq<char>, pairs: Seq<(Seq<char>, Seq<char>)>)
    requires
        plural_of_irregular(lw, pairs) is Some,
    ensures
        exists|i: int| 0 <= i < pairs.len() && (#[trigger] pairs[i]).0 == lw,
    decreases pairs.len(),
{
    if pairs.len() == 0 {
    } else if pairs[0].0 == lw {
        assert((pairs[0]).0 == lw);
    } else {
        lemma_plural_lookup_found(lw, pairs.skip(1));
        let i = choose|i: int| 0 <= i < pairs.skip(1).len() && (#[trigger] pairs.skip(1)[i]).0
            == lw;
        assert((pairs[i + 1]).0 == lw);
    }
}

proof fn lemma_singular_lookup_found(lw: Seq<char>, pairs: Seq<(Seq<char>, Seq<char>)>)
    requires
        singular_of_irregular(lw, pairs) is Some,
    ensures
        exists|i: int| 0 <= i < pairs.len() && (#[trigger] pairs[i]).1 == lw,
    decreases pairs.len(),
{
    if pairs.len() == 0 {
    } else if pairs[0].1 == lw {
        assert((pairs[0]).1 == lw);
    } else {
        lemma_singular_lookup_found(lw, pairs.skip(1));
        let i = choose|i: int| 0 <= i < pairs.skip(1).len() && (#[trigger] pairs.skip(1)[i]).1
            == lw;
        assert((pairs[i + 1]).1 == lw);
    }
}

/// A word whose lowercase is stored as the singular form of an irregular
/// pair is pluralized to the stored plural of the first such pair, recased to
/// the word's own style; the lookup overrides the pattern rules and the
/// uncountable test.
pub proof fn lemma_irregular_to_plural(w: Seq<char>, p: Seq<char>)
    requires
        plural_of_irregular(lower_of(w), irregular_pairs()) == Some(p),
    ensures
        spec_to_plural(w) == restore_case_spec(w, p),
        !spec_is_uncountable(w),
{
    lemma_plural_lookup_found(lower_of(w), irregular_pairs());
}

/// A word whose lowercase is stored as the plural form of an irregular pair
/// is singularized to the stored singular of the first such pair, recased to
/// the word's own style; the lookup overrides the pattern rules and the
/// uncountable test.
pub proof fn lemma_irregular_to_singular(w: Seq<char>, s: Seq<char>)
    requires
        singular_of_irregular(lower_of(w), irregular_pairs()) == Some(s),
    ensures
        spec_to_singular(w) == restore_case_spec(w, s),
        !spec_is_uncountable(w),
{
    lemma_singular_lookup_found(lower_of(w), irregular_pairs());
}

proof fn lemma_plural_verdict_found(lw: Seq<char>, pairs: Seq<(Seq<char>, Seq<char>)>)
    requires
        irregular_plural_verdict(lw, pairs) is Some,
    ensures
        exists|i: int|
            0 <= i < pairs.len() && ((#[trigger] pairs[i]).0 == lw || pairs[i].1 == lw),
    decreases pairs.len(),
{
    if pairs.len() == 0 {
    } else if pairs[0].0 == lw || pairs[0].1 == lw {
        assert((pairs[0]).0 == lw || (pairs[0]).1 == lw);
    } else {
        lemma_plural_verdict_found(lw, pairs.skip(1));
        let i = choose|i: int|
            0 <= i < pairs.skip(1).len() && ((#[trigger] pairs.skip(1)[i]).0 == lw || pairs.skip(
                1,
            )[i].1 == lw);
        assert((pairs[i + 1]).0 == lw || (pairs[i + 1]).1 == lw);
    }
}

proof fn lemma_singular_verdict_found(lw: Seq<char>, pairs: Seq<(Seq<char>, Seq<char>)>)
    requires
        irregular_singular_verdict(lw, pairs) is Some,
    ensures
        exists|i: int|
            0 <= i < pairs.len() && ((#[trigger] pairs[i]).0 == lw || pairs[i].1 == lw),
    decreases pairs.len(),
{
    if pairs.len() == 0 {
    } else if pairs[0].0 == lw || pairs[0].1 == lw {
        assert((pairs[0]).0 == lw || (pairs[0]).1 == lw);
    } else {
        lemma_singular_verdict_found(lw, pairs.skip(1));
        let i = choose|i: int|
            0 <= i < pairs.skip(1).len() && ((#[trigger] pairs.skip(1)[i]).0 == lw || pairs.skip(
                1,
            )[i].1 == lw);
        assert((pairs[i + 1]).0 == lw || (pairs[i + 1]).1 == lw);
    }
}

/// The first structural match in the irregular table decides `is_plural`:
/// false when the singular side of the pair matched first, true when the
/// plural side did; the word is then never reported uncountable.
pub proof fn lemma_irregular_is_plural(w: Seq<char>, verdict: bool)
    requires
        irregular_plural_verdict(lower_of(w), irregular_pairs()) == Some(verdict),
    ensures
        spec_is_plural(w) == verdict,
        !spec_is_uncountable(w),
{
    lemma_plural_verdict_found(lower_of(w), irregular_pairs());
}

/// The first structural match in the irregular table decides `is_singular`:
/// false when the plural side of the pair matched first, true when the
/// singular side did; the word is then never reported uncountable.
pub proof fn lemma_irregular_is_singular(w: Seq<char>, verdict: bool)
    requires
        irregular_singular_verdict(lower_of(w), irregular_pairs()) == Some(verdict),
    ensures
        spec_is_singular(w) == verdict,
        !spec_is_uncountable(w),
{
    lemma_singular_verdict_found(lower_of(w), irregular_pairs());
}

/// A rule whose template is the identity marker leaves its matched word
/// unchanged exactly: when the first rule whose pattern matches carries the
/// marker, rule application returns the word itself.
pub proof fn lemma_identity_marker_rule(
    word: Seq<char>,
    rule_list: Seq<(Seq<char>, Seq<char>)>,
    r: (Seq<char>, Seq<char>),
)
    requires
        find_rule(word, rule_list) == Some(r),
        is_identity_marker(r.1),
    ensures
        apply_rules_spec(word, rule_list) == word,
{
}

proof fn lemma_verdict_none_no_stored_singular(lw: Seq<char>, pairs: Seq<(Seq<char>, Seq<char>)>)
    requires
        irregular_plural_verdict(lw, pairs) is None,
    ensures
        plural_of_irregular(lw, pairs) is None,
    decreases pairs.len(),
{
    if pairs.len() > 0 {
        lemma_verdict_none_no_stored_singular(lw, pairs.skip(1));
    }
}

/// A lowercase word that is neither uncountable nor stored in the irregular
/// table and that is already plural — a fixed point of the plural rules — is
/// left unchanged by pluralization; pluralization is therefore idempotent on
/// such a word.
pub proof fn lemma_pluralize_idempotent_on_lowercase_plural(w: Seq<char>)
    requires
        lower_of(w) == w,
        !spec_is_uncountable(w),
        irregular_plural_verdict(w, irregular_pairs()) is None,
        spec_is_plural(w),
    ensures
        spec_to_plural(w) == w,
        spec_to_plural(spec_to_plural(w)) == spec_to_plural(w),
{
    lemma_verdict_none_no_stored_singular(w, irregular_pairs());
    assert(apply_rules_spec(w, plural_rule_list()) == w);
}

/// A word that no rule of the list matches is left unchanged: the default
/// outcome, distinct from the explicit identity marker.
pub proof fn lemma_no_rule_matches(word: Seq<char>, rule_list: Seq<(Seq<char>, Seq<char>)>)
    requires
        find_rule(word, rule_list) is None,
    ensures
        apply_rules_spec(word, rule_list) == word,
{
}

} // verus!
