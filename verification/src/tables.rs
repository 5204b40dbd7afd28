use vstd::prelude::*;
use vstd::string::StringExecFns;
use crate::rules::{Rule, rule_model, rules_model};

verus! {

// The four tables are fixed data of the library.  The irregular table and the
// uncountable table are used in their declared order.  The two rule lists are
// declared from the most general rule to the most specific one and are
// reversed before use, so that a rule declared later is tried earlier and
// overrides the general rules declared before it.
/// The irregular singular/plural pairs, in declared order; a lookup scans the
/// pairs in this order and the first structural match wins.
pub open spec fn irregular_pairs() -> Seq<(Seq<char>, Seq<char>)> {
    seq![
        ("child"@, "children"@),
        ("person"@, "people"@),
        ("man"@, "men"@),
        ("woman"@, "women"@),
        ("tooth"@, "teeth"@),
        ("foot"@, "feet"@),
        ("mouse"@, "mice"@),
        ("goose"@, "geese"@),
        ("ox"@, "oxen"@),
        ("leaf"@, "leaves"@),
        ("knife"@, "knives"@),
        ("wolf"@, "wolves"@),
    ]
}

/// The patterns a lowercased word is searched with to decide uncountability,
/// in declared order; the first pattern found anywhere in the word suffices.
pub open spec fn uncountable_patterns() -> Seq<Seq<char>> {
    seq![
        ("fish$"@),
        ("sheep$"@),
        ("deer$"@),
        ("series$"@),
        ("species$"@),
        ("news$"@),
        ("^equipment$"@),
        ("^information$"@),
        ("^rice$"@),
        ("^money$"@),
        ("^water$"@),
        ("^milk$"@),
    ]
}

/// The pluralization rules in declared order, most general first.
pub open spec fn plural_rules_declared() -> Seq<(Seq<char>, Seq<char>)> {
    seq![
        ("(\\w+)$"@, "$1s"@),
        ("(\\w*)s$"@, "$0"@),
        ("([^aeiou])(o)$"@, "$1$2es"@),
        ("([^aeiou])y$"@, "$1ies"@),
        ("(us)$"@, "$1es"@),
        ("(ss|x|z|ch|sh)$"@, "$1es"@),
    ]
}

/// The pluralization rules in the order they are tried: the reverse of the
/// declared order, so that the most specific rule is tried first.
pub open spec fn plural_rule_list() -> Seq<(Seq<char>, Seq<char>)> {
    plural_rules_declared().reverse()
}

/// The singularization rules in declared order, most general first.
pub open spec fn singular_rules_declared() -> Seq<(Seq<char>, Seq<char>)> {
    seq![
        ("([^s])s$"@, "$1"@),
        ("(\\w*)ss$"@, "$0"@),
        ("([^aeiou])(o)es$"@, "$1$2"@),
        ("([^aeiou])ies$"@, "$1y"@),
        ("(\\w*us)$"@, "$0"@),
        ("(us)es$"@, "$1"@),
        ("(ss|x|z|ch|sh)es$"@, "$1"@),
    ]
}

/// The singularization rules in the order they are tried: the reverse of the
/// declared order, so that the most specific rule is tried first.
pub open spec fn singular_rule_list() -> Seq<(Seq<char>, Seq<char>)> {
    singular_rules_declared().reverse()
}

pub open spec fn pairs_model(s: Seq<(String, String)>) -> Seq<(Seq<char>, Seq<char>)> {
    s.map_values(|p: (String, String)| (p.0@, p.1@))
}

pub open spec fn patterns_model(s: Seq<String>) -> Seq<Seq<char>> {
    s.map_values(|p: String| p@)
}

fn pair_of(first: &str, second: &str) -> (r: (String, String))
    ensures
        (r.0@, r.1@) == (first@, second@),
{
    (String::from_str(first), String::from_str(second))
}

fn rule_of(pattern: &str, template: &str) -> (r: Rule)
    ensures
        rule_model(r) == (pattern@, template@),
{
    Rule { pattern: String::from_str(pattern), template: String::from_str(template) }
}

/// Builds the irregular table in declared order.
pub(crate) fn irregular_table() -> (t: Vec<(String, String)>)
    ensures
        pairs_model(t@) == irregular_pairs(),
{
    let mut t: Vec<(String, String)> = Vec::new();
    t.push(pair_of("child", "children"));
    t.push(pair_of("person", "people"));
    t.push(pair_of("man", "men"));
    t.push(pair_of("woman", "women"));
    t.push(pair_of("tooth", "teeth"));
    t.push(pair_of("foot", "feet"));
    t.push(pair_of("mouse", "mice"));
    t.push(pair_of("goose", "geese"));
    t.push(pair_of("ox", "oxen"));
    t.push(pair_of("leaf", "leaves"));
    t.push(pair_of("knife", "knives"));
    t.push(pair_of("wolf", "wolves"));
    proof {
        assert(pairs_model(t@) =~= irregular_pairs());
    }
    t
}

/// Builds the uncountable pattern table in declared order.
pub(crate) fn uncountable_table() -> (t: Vec<String>)
    ensures
        patterns_model(t@) == uncountable_patterns(),
{
    let mut t: Vec<String> = Vec::new();
    t.push(String::from_str("fish$"));
    t.push(String::from_str("sheep$"));
    t.push(String::from_str("deer$"));
    t.push(String::from_str("series$"));
    t.push(String::from_str("species$"));
    t.push(String::from_str("news$"));
    t.push(String::from_str("^equipment$"));
    t.push(String::from_str("^information$"));
    t.push(String::from_str("^rice$"));
    t.push(String::from_str("^money$"));
    t.push(String::from_str("^water$"));
    t.push(String::from_str("^milk$"));
    proof {
        assert(patterns_model(t@) =~= uncountable_patterns());
    }
    t
}

/// Builds the pluralization rule list in its runtime order: the declared
/// rules, reversed.
pub(crate) fn plural_rules() -> (t: Vec<Rule>)
    ensures
        rules_model(t@) == plural_rule_list(),
{
    let mut t: Vec<Rule> = Vec::new();
    t.push(rule_of("(ss|x|z|ch|sh)$", "$1es"));
    t.push(rule_of("(us)$", "$1es"));
    t.push(rule_of("([^aeiou])y$", "$1ies"));
    t.push(rule_of("([^aeiou])(o)$", "$1$2es"));
    t.push(rule_of("(\\w*)s$", "$0"));
    t.push(rule_of("(\\w+)$", "$1s"));
    proof {
        assert(rules_model(t@) =~= plural_rules_declared().reverse());
    }
    t
}

/// Builds the singularization rule list in its runtime order: the declared
/// rules, reversed.
pub(crate) fn singular_rules() -> (t: Vec<Rule>)
    ensures
        rules_model(t@) == singular_rule_list(),
{
    let mut t: Vec<Rule> = Vec::new();
    t.push(rule_of("(ss|x|z|ch|sh)es$", "$1"));
    t.push(rule_of("(us)es$", "$1"));
    t.push(rule_of("(\\w*us)$", "$0"));
    t.push(rule_of("([^aeiou])ies$", "$1y"));
    t.push(rule_of("([^aeiou])(o)es$", "$1$2"));
    t.push(rule_of("(\\w*)ss$", "$0"));
    t.push(rule_of("([^s])s$", "$1"));
    proof {
        assert(rules_model(t@) =~= singular_rules_declared().reverse());
    }
    t
}

} // verus!
