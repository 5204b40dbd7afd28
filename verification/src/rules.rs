use vstd::prelude::*;
use vstd::string::StringExecFns;
use crate::matching::{regex_search, search, match_parts_model};

verus! {

/// One transformation rule: a case-insensitive pattern together with the
/// replacement template that builds the derived word when the pattern is the
/// first one to match.
pub struct Rule {
    pub pattern: String,
    pub template: String,
}

pub open spec fn rule_model(r: Rule) -> (Seq<char>, Seq<char>) {
    (r.pattern@, r.template@)
}

pub open spec fn rules_model(s: Seq<Rule>) -> Seq<(Seq<char>, Seq<char>)> {
    s.map_values(|r: Rule| rule_model(r))
}

/// A replacement template consisting of exactly `$0` marks the matched word
/// as already being in its canonical target form: it must be left unchanged.
pub open spec fn is_identity_marker(t: Seq<char>) -> bool {
    t.len() == 2 && t[0] == '$' && t[1] == '0'
}

/// Decides whether a replacement template is the identity marker `$0`.
fn identity_marker(t: &str) -> (b: bool)
    ensures
        b == is_identity_marker(t@),
{
    if t.unicode_len() == 2 {
        t.get_char(0) == '$' && t.get_char(1) == '0'
    } else {
        false
    }
}

/// The result of replacing, left to right, every occurrence of the
/// two-character placeholder `$d` in `s` by `rep`.
pub open spec fn subst_marker(s: Seq<char>, d: char, rep: Seq<char>) -> Seq<char>
    decreases s.len(),
{
    if s.len() >= 2 && s[0] == '$' && s[1] == d {
        rep + subst_marker(s.skip(2), d, rep)
    } else if s.len() >= 1 {
        seq![s[0]] + subst_marker(s.skip(1), d, rep)
    } else {
        Seq::<char>::empty()
    }
}

/// Replaces every occurrence of the placeholder `$d` in `template` by `rep`.
fn substitute_marker(template: &str, d: char, rep: &str) -> (r: String)
    ensures
        r@ == subst_marker(template@, d, rep@),
{
    let n = template.unicode_len();
    let mut out = String::new();
    let mut i: usize = 0;
    proof {
        assert(template@.skip(0) =~= template@);
    }
    while i < n
        invariant
            n == template@.len(),
            i <= n,
            out@ + subst_marker(template@.skip(i as int), d, rep@) == subst_marker(
                template@,
                d,
                rep@,
            ),
        decreases n - i,
    {
        if i + 1 < n && template.get_char(i) == '$' && template.get_char(i + 1) == d {
            proof {
                assert(template@.skip(i as int).skip(2) =~= template@.skip(i + 2 as int));
                assert(out@ + (rep@ + subst_marker(template@.skip(i + 2 as int), d, rep@)) =~= (
                out@ + rep@) + subst_marker(template@.skip(i + 2 as int), d, rep@));
            }
            out.append(rep);
            i = i + 2;
        } else {
            let piece = template.substring_char(i, i + 1);
            proof {
                assert(template@.skip(i as int).skip(1) =~= template@.skip(i + 1 as int));
                assert(piece@ =~= seq![template@[i as int]]);
                assert(out@ + (seq![template@[i as int]] + subst_marker(
                    template@.skip(i + 1 as int),
                    d,
                    rep@,
                )) =~= (out@ + piece@) + subst_marker(template@.skip(i + 1 as int), d, rep@));
            }
            out.append(piece);
            i = i + 1;
        }
    }
    proof {
        assert(template@.skip(n as int) =~= Seq::<char>::empty());
        assert(out@ + Seq::<char>::empty() =~= out@);
    }
    out
}

/// The first rule in `rules` whose pattern matches somewhere in `word`, in
/// the lists' stored order.
pub open spec fn find_rule(word: Seq<char>, rules: Seq<(Seq<char>, Seq<char>)>) -> Option<
    (Seq<char>, Seq<char>),
>
    decreases rules.len(),
{
    if rules.len() == 0 {
        None
    } else if regex_search(rules[0].0, word) is Some {
        Some(rules[0])
    } else {
        find_rule(word, rules.skip(1))
    }
}

/// The text a matched group contributes to the substitution: its captured
/// text, or the empty string for a group that did not participate.
pub open spec fn group_text(g: Option<Seq<char>>) -> Seq<char> {
    match g {
        Some(t) => t,
        None => Seq::<char>::empty(),
    }
}

/// The word derived from one match: the text before the match, followed by
/// the template with `$1` and then `$2` replaced by the captured texts.
pub open spec fn substituted(
    template: Seq<char>,
    m: (Seq<char>, Option<Seq<char>>, Option<Seq<char>>),
) -> Seq<char> {
    m.0 + subst_marker(subst_marker(template, '1', group_text(m.1)), '2', group_text(m.2))
}

/// The result of applying the first matching rule of `rules` to `word`:
/// `word` itself when no rule matches or when the matching rule's template is
/// the identity marker, and otherwise the substituted replacement.
pub open spec fn apply_rules_spec(word: Seq<char>, rules: Seq<(Seq<char>, Seq<char>)>) -> Seq<
    char,
> {
    match find_rule(word, rules) {
        None => word,
        Some(r) => match regex_search(r.0, word) {
            Some(m) => if is_identity_marker(r.1) {
                word
            } else {
                substituted(r.1, m)
            },
            None => word,
        },
    }
}

/// Applies the first rule of `rules` whose pattern matches `word`, performing
/// capture-group substitution; a word no rule matches is returned unchanged.
pub(crate) fn apply_rules(word: &str, rules: &Vec<Rule>) -> (r: String)
    ensures
        r@ == apply_rules_spec(word@, rules_model(rules@)),
{
    let ghost all = rules_model(rules@);
    let n = rules.len();
    let mut i: usize = 0;
    proof {
        assert(all.skip(0) =~= all);
    }
    while i < n
        invariant
            n == rules@.len(),
            all == rules_model(rules@),
            i <= n,
            find_rule(word@, all) == find_rule(word@, all.skip(i as int)),
        decreases n - i,
    {
        let rule = &rules[i];
        proof {
            assert(all.skip(i as int)[0] == all[i as int]);
            assert(all[i as int] == rule_model(rules@[i as int]));
        }
        let found = search(rule.pattern.as_str(), word);
        match found {
            Some(parts) => {
                proof {
                    assert(regex_search(all.skip(i as int)[0].0, word@) is Some);
                    assert(find_rule(word@, all) == Some(all[i as int]));
                }
                if identity_marker(rule.template.as_str()) {
                    return String::from_str(word);
                }
                let after_first = match &parts.group1 {
                    Some(g) => substitute_marker(rule.template.as_str(), '1', g.as_str()),
                    None => substitute_marker(rule.template.as_str(), '1', ""),
                };
                let after_second = match &parts.group2 {
                    Some(g) => substitute_marker(after_first.as_str(), '2', g.as_str()),
                    None => substitute_marker(after_first.as_str(), '2', ""),
                };
                proof {
                    reveal_strlit("");
                    assert(""@ =~= Seq::<char>::empty());
                    assert(regex_search(rule.pattern@, word@) == Some(match_parts_model(parts)));
                }
                return parts.prefix.concat(after_second.as_str());
            },
            None => {
                proof {
                    assert(regex_search(all.skip(i as int)[0].0, word@) is None);
                    assert(all.skip(i as int).skip(1) =~= all.skip(i + 1 as int));
                }
            },
        }
        i = i + 1;
    }
    proof {
        assert(all.skip(n as int).len() == 0);
    }
    String::from_str(word)
}

} // verus!
