pub mod casing;
pub mod laws;
pub mod matching;
pub mod rules;
pub mod tables;

use vstd::prelude::*;
use vstd::string::StringExecFns;

use crate::casing::{lower_case, lower_of, restore_case, restore_case_spec};
use crate::matching::{regex_search, search};
use crate::rules::{apply_rules, apply_rules_spec};
use crate::tables::{
    irregular_pairs, irregular_table, pairs_model, patterns_model, plural_rule_list, plural_rules,
    singular_rule_list, singular_rules, uncountable_patterns, uncountable_table,
};

verus! {

/// Whether the lowercased word is stored in the irregular table, on either
/// side of some pair.
pub open spec fn in_irregular(lw: Seq<char>) -> bool {
    exists|i: int|
        0 <= i < irregular_pairs().len() && ((#[trigger] irregular_pairs()[i]).0 == lw
            || irregular_pairs()[i].1 == lw)
}

/// Whether some uncountable pattern is found in the lowercased word.
pub open spec fn matches_uncountable(lw: Seq<char>) -> bool {
    exists|i: int|
        0 <= i < uncountable_patterns().len() && regex_search(
            #[trigger] uncountable_patterns()[i],
            lw,
        ) is Some
}

/// A word is uncountable when it is not irregular — irregular status always
/// overrides uncountable status — and some uncountable pattern is found in
/// its lowercase form.
pub open spec fn spec_is_uncountable(w: Seq<char>) -> bool {
    &&& !in_irregular(lower_of(w))
    &&& matches_uncountable(lower_of(w))
}

/// The plural form stored for `lw` by the first pair whose singular form is
/// `lw`, scanning the pairs in declared order.
pub open spec fn plural_of_irregular(lw: Seq<char>, pairs: Seq<(Seq<char>, Seq<char>)>) -> Option<
    Seq<char>,
>
    decreases pairs.len(),
{
    if pairs.len() == 0 {
        None
    } else if pairs[0].0 == lw {
        Some(pairs[0].1)
    } else {
        plural_of_irregular(lw, pairs.skip(1))
    }
}

/// The singular form stored for `lw` by the first pair whose plural form is
/// `lw`, scanning the pairs in declared order.
pub open spec fn singular_of_irregular(lw: Seq<char>, pairs: Seq<(Seq<char>, Seq<char>)>) -> Option<
    Seq<char>,
>
    decreases pairs.len(),
{
    if pairs.len() == 0 {
        None
    } else if pairs[0].1 == lw {
        Some(pairs[0].0)
    } else {
        singular_of_irregular(lw, pairs.skip(1))
    }
}

/// The verdict of the irregular scan made by `is_plural`: per pair the
/// singular side is compared first, and the first structural match decides.
pub open spec fn irregular_plural_verdict(
    lw: Seq<char>,
    pairs: Seq<(Seq<char>, Seq<char>)>,
) -> Option<bool>
    decreases pairs.len(),
{
    if pairs.len() == 0 {
        None
    } else if pairs[0].0 == lw {
        Some(false)
    } else if pairs[0].1 == lw {
        Some(true)
    } else {
        irregular_plural_verdict(lw, pairs.skip(1))
    }
}

/// The verdict of the irregular scan made by `is_singular`: per pair the
/// plural side is compared first, and the first structural match decides.
pub open spec fn irregular_singular_verdict(
    lw: Seq<char>,
    pairs: Seq<(Seq<char>, Seq<char>)>,
) -> Option<bool>
    decreases pairs.len(),
{
    if pairs.len() == 0 {
        None
    } else if pairs[0].1 == lw {
        Some(false)
    } else if pairs[0].0 == lw {
        Some(true)
    } else {
        irregular_singular_verdict(lw, pairs.skip(1))
    }
}

/// What `to_plural` returns: an uncountable word unchanged; the stored plural
/// of an irregular word, recased; otherwise the first matching plural rule
/// applied to the word, recased.
pub open spec fn spec_to_plural(w: Seq<char>) -> Seq<char> {
    if spec_is_uncountable(w) {
        w
    } else {
        match plural_of_irregular(lower_of(w), irregular_pairs()) {
            Some(p) => restore_case_spec(w, p),
            None => restore_case_spec(w, apply_rules_spec(w, plural_rule_list())),
        }
    }
}

/// What `to_singular` returns: an uncountable word unchanged; the stored
/// singular of an irregular word, recased; otherwise the first matching
/// singular rule applied to the word, recased.
pub open spec fn spec_to_singular(w: Seq<char>) -> Seq<char> {
    if spec_is_uncountable(w) {
        w
    } else {
        match singular_of_irregular(lower_of(w), irregular_pairs()) {
            Some(s) => restore_case_spec(w, s),
            None => restore_case_spec(w, apply_rules_spec(w, singular_rule_list())),
        }
    }
}

/// What `is_plural` returns: false for an uncountable word; the irregular
/// verdict when the word is stored; otherwise whether the lowercased word is
/// a fixed point of the plural rules.
pub open spec fn spec_is_plural(w: Seq<char>) -> bool {
    if spec_is_uncountable(w) {
        false
    } else {
        match irregular_plural_verdict(lower_of(w), irregular_pairs()) {
            Some(verdict) => verdict,
            None => lower_of(w) == apply_rules_spec(lower_of(w), plural_rule_list()),
        }
    }
}

/// What `is_singular` returns: false for an uncountable word; the irregular
/// verdict when the word is stored; otherwise whether the lowercased word is
/// a fixed point of the singular rules.
pub open spec fn spec_is_singular(w: Seq<char>) -> bool {
    if spec_is_uncountable(w) {
        false
    } else {
        match irregular_singular_verdict(lower_of(w), irregular_pairs()) {
            Some(verdict) => verdict,
            None => lower_of(w) == apply_rules_spec(lower_of(w), singular_rule_list()),
        }
    }
}

/// Returns whether a noun is uncountable: invariant under pluralization.
/// A word stored in the irregular table is never uncountable.
pub fn is_uncountable(word: &str) -> (b: bool)
    ensures
        b == spec_is_uncountable(word@),
{
    let lw = lower_case(word);
    let pairs = irregular_table();
    let mut i: usize = 0;
    while i < pairs.len()
        invariant
            pairs_model(pairs@) == irregular_pairs(),
            i <= pairs@.len(),
            lw@ == lower_of(word@),
            forall|j: int|
                0 <= j < i ==> (#[trigger] irregular_pairs()[j]).0 != lw@ && irregular_pairs()[j].1
                    != lw@,
        decreases pairs@.len() - i,
    {
        let p = &pairs[i];
        if lw == p.0 || lw == p.1 {
            proof {
                assert(irregular_pairs()[i as int] == (p.0@, p.1@));
                assert(in_irregular(lw@));
            }
            return false;
        }
        proof {
            assert(irregular_pairs()[i as int] == (p.0@, p.1@));
        }
        i = i + 1;
    }
    let patterns = uncountable_table();
    let mut k: usize = 0;
    while k < patterns.len()
        invariant
            patterns_model(patterns@) == uncountable_patterns(),
            k <= patterns@.len(),
            lw@ == lower_of(word@),
            !in_irregular(lw@),
            forall|j: int|
                0 <= j < k ==> regex_search(#[trigger] uncountable_patterns()[j], lw@) is None,
        decreases patterns@.len() - k,
    {
        let pat = &patterns[k];
        let found = search(pat.as_str(), lw.as_str());
        proof {
            assert(uncountable_patterns()[k as int] == pat@);
        }
        if found.is_some() {
            return true;
        }
        k = k + 1;
    }
    false
}

/// Returns a noun's plural form; an uncountable noun is returned unchanged,
/// and the result carries the casing style of the input.
pub fn to_plural(word: &str) -> (r: String)
    ensures
        r@ == spec_to_plural(word@),
{
    if is_uncountable(word) {
        return String::from_str(word);
    }
    let lw = lower_case(word);
    let pairs = irregular_table();
    let mut i: usize = 0;
    proof {
        assert(irregular_pairs().skip(0) =~= irregular_pairs());
    }
    while i < pairs.len()
        invariant
            pairs_model(pairs@) == irregular_pairs(),
            i <= pairs@.len(),
            lw@ == lower_of(word@),
            plural_of_irregular(lw@, irregular_pairs()) == plural_of_irregular(
                lw@,
                irregular_pairs().skip(i as int),
            ),
        decreases pairs@.len() - i,
    {
        let p = &pairs[i];
        proof {
            assert(irregular_pairs().skip(i as int)[0] == irregular_pairs()[i as int]);
            assert(irregular_pairs()[i as int] == (p.0@, p.1@));
        }
        if lw == p.0 {
            return restore_case(word, p.1.as_str());
        }
        proof {
            assert(irregular_pairs().skip(i as int).skip(1) =~= irregular_pairs().skip(i + 1 as int));
        }
        i = i + 1;
    }
    let rule_list = plural_rules();
    let derived = apply_rules(word, &rule_list);
    restore_case(word, derived.as_str())
}

/// Returns a noun's singular form; an uncountable noun is returned unchanged,
/// and the result carries the casing style of the input.
pub fn to_singular(word: &str) -> (r: String)
    ensures
        r@ == spec_to_singular(word@),
{
    if is_uncountable(word) {
        return String::from_str(word);
    }
    let lw = lower_case(word);
    let pairs = irregular_table();
    let mut i: usize = 0;
    proof {
        assert(irregular_pairs().skip(0) =~= irregular_pairs());
    }
    while i < pairs.len()
        invariant
            pairs_model(pairs@) == irregular_pairs(),
            i <= pairs@.len(),
            lw@ == lower_of(word@),
            singular_of_irregular(lw@, irregular_pairs()) == singular_of_irregular(
                lw@,
                irregular_pairs().skip(i as int),
            ),
        decreases pairs@.len() - i,
    {
        let p = &pairs[i];
        proof {
            assert(irregular_pairs().skip(i as int)[0] == irregular_pairs()[i as int]);
            assert(irregular_pairs()[i as int] == (p.0@, p.1@));
        }
        if lw == p.1 {
            return restore_case(word, p.0.as_str());
        }
        proof {
            assert(irregular_pairs().skip(i as int).skip(1) =~= irregular_pairs().skip(i + 1 as int));
        }
        i = i + 1;
    }
    let rule_list = singular_rules();
    let derived = apply_rules(word, &rule_list);
    restore_case(word, derived.as_str())
}

/// Returns whether the noun is plural; an uncountable noun is reported as
/// neither plural nor singular.
pub fn is_plural(word: &str) -> (b: bool)
    ensures
        b == spec_is_plural(word@),
{
    if is_uncountable(word) {
        return false;
    }
    let lw = lower_case(word);
    let pairs = irregular_table();
    let mut i: usize = 0;
    proof {
        assert(irregular_pairs().skip(0) =~= irregular_pairs());
    }
    while i < pairs.len()
        invariant
            pairs_model(pairs@) == irregular_pairs(),
            i <= pairs@.len(),
            lw@ == lower_of(word@),
            irregular_plural_verdict(lw@, irregular_pairs()) == irregular_plural_verdict(
                lw@,
                irregular_pairs().skip(i as int),
            ),
        decreases pairs@.len() - i,
    {
        let p = &pairs[i];
        proof {
            assert(irregular_pairs().skip(i as int)[0] == irregular_pairs()[i as int]);
            assert(irregular_pairs()[i as int] == (p.0@, p.1@));
        }
        if lw == p.0 {
            return false;
        }
        if lw == p.1 {
            return true;
        }
        proof {
            assert(irregular_pairs().skip(i as int).skip(1) =~= irregular_pairs().skip(i + 1 as int));
        }
        i = i + 1;
    }
    let rule_list = plural_rules();
    let derived = apply_rules(lw.as_str(), &rule_list);
    lw == derived
}

/// Returns whether the noun is singular; an uncountable noun is reported as
/// neither plural nor singular.
pub fn is_singular(word: &str) -> (b: bool)
    ensures
        b == spec_is_singular(word@),
{
    if is_uncountable(word) {
        return false;
    }
    let lw = lower_case(word);
    let pairs = irregular_table();
    let mut i: usize = 0;
    proof {
        assert(irregular_pairs().skip(0) =~= irregular_pairs());
    }
    while i < pairs.len()
        invariant
            pairs_model(pairs@) == irregular_pairs(),
            i <= pairs@.len(),
            lw@ == lower_of(word@),
            irregular_singular_verdict(lw@, irregular_pairs()) == irregular_singular_verdict(
                lw@,
                irregular_pairs().skip(i as int),
            ),
        decreases pairs@.len() - i,
    {
        let p = &pairs[i];
        proof {
            assert(irregular_pairs().skip(i as int)[0] == irregular_pairs()[i as int]);
            assert(irregular_pairs()[i as int] == (p.0@, p.1@));
        }
        if lw == p.1 {
            return false;
        }
        if lw == p.0 {
            return true;
        }
        proof {
            assert(irregular_pairs().skip(i as int).skip(1) =~= irregular_pairs().skip(i + 1 as int));
        }
        i = i + 1;
    }
    let rule_list = singular_rules();
    let derived = apply_rules(lw.as_str(), &rule_list);
    lw == derived
}

} // verus!
