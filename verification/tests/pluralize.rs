use pluralize_rs::{is_plural, is_singular, is_uncountable, to_plural, to_singular};

#[test]
fn it_works() {
    let cases: Vec<(&str, &str)> = vec![
        ("word", "words"),
        ("city", "cities"),
        ("kiss", "kisses"),
        ("box", "boxes"),
        ("bus", "buses"),
        ("hero", "heroes"),
        ("boy", "boys"),
        ("child", "children"),
        ("person", "people"),
        ("man", "men"),
        ("woman", "women"),
        ("tooth", "teeth"),
        ("foot", "feet"),
        ("mouse", "mice"),
        ("goose", "geese"),
        ("ox", "oxen"),
        ("leaf", "leaves"),
        ("knife", "knives"),
        ("wolf", "wolves"),
    ];
    for (singular, plural) in cases {
        println!("{} <=> {}", singular, plural);
        assert_eq!(to_plural(singular), plural);
        assert_eq!(to_singular(plural), singular);
        if !is_uncountable(singular) {
            assert!(is_singular(singular));
            assert!(is_plural(plural));
        }
    }
}

#[test]
fn round_trip_regular_nouns() {
    for w in ["word", "city", "kiss", "box", "bus", "hero", "boy"] {
        let p = to_plural(w);
        assert_eq!(to_singular(&p), w);
        assert!(is_plural(&p));
    }
}

#[test]
fn pluralize_idempotent_on_plurals() {
    for w in ["words", "cities", "kisses", "boxes", "buses", "heroes", "boys"] {
        let once = to_plural(w);
        let twice = to_plural(&once);
        assert_eq!(twice, once);
        assert_eq!(once, w);
    }
}

#[test]
fn uncountable_words() {
    for w in ["water", "fish", "sheep", "news", "money", "rice"] {
        assert!(is_uncountable(w));
        assert_eq!(to_plural(w), w);
        assert_eq!(to_singular(w), w);
        assert!(!is_plural(w));
        assert!(!is_singular(w));
    }
    assert!(is_uncountable("Water"));
    assert_eq!(to_plural("Water"), "Water");
    assert!(is_uncountable("WATER"));
    assert!(!is_uncountable("word"));
    assert!(!is_uncountable("child"));
    assert!(!is_uncountable("children"));
}

#[test]
fn irregular_words() {
    assert_eq!(to_plural("child"), "children");
    assert_eq!(to_singular("children"), "child");
    assert!(is_plural("children"));
    assert!(is_singular("child"));
    assert!(!is_plural("child"));
    assert!(!is_singular("children"));
    assert_eq!(to_plural("person"), "people");
    assert_eq!(to_singular("people"), "person");
    assert_eq!(to_plural("woman"), "women");
    assert_eq!(to_singular("women"), "woman");
}

#[test]
fn regular_suffix_rules() {
    assert_eq!(to_plural("word"), "words");
    assert_eq!(to_singular("words"), "word");
    assert!(is_plural("words"));
    assert!(is_singular("word"));
    assert!(!is_plural("word"));
    assert!(!is_singular("words"));
    assert_eq!(to_plural("city"), "cities");
    assert_eq!(to_singular("cities"), "city");
    assert_eq!(to_plural("church"), "churches");
    assert_eq!(to_singular("churches"), "church");
    assert_eq!(to_plural("virus"), "viruses");
    assert_eq!(to_singular("viruses"), "virus");
}

#[test]
fn case_preserved() {
    assert_eq!(to_plural("word"), "words");
    assert_eq!(to_plural("Word"), "Words");
    assert_eq!(to_plural("WORD"), "WORDS");
    assert_eq!(to_plural("City"), "Cities");
    assert_eq!(to_plural("CITY"), "CITIES");
    assert_eq!(to_plural("Child"), "Children");
    assert_eq!(to_plural("CHILD"), "CHILDREN");
    assert_eq!(to_singular("Words"), "Word");
    assert_eq!(to_singular("WORDS"), "WORD");
    assert_eq!(to_plural("fooBar"), "fooBars");
}

#[test]
fn identity_marker_leaves_word_unchanged() {
    assert_eq!(to_plural("words"), "words");
    assert!(is_plural("words"));
    assert_eq!(to_singular("kiss"), "kiss");
    assert!(is_singular("kiss"));
    assert_eq!(to_singular("virus"), "virus");
    assert!(is_singular("virus"));
}

#[test]
fn unknown_style_defaults_to_lowercase() {
    // "iOS" is neither lowercase, uppercase, first-letter-capitalized, nor
    // camel style (its camel form is "iOs"), so the derived word "iO" is
    // handed back lowercased.
    assert_eq!(to_singular("iOS"), "io");
}

#[test]
fn unmatched_word_is_unchanged() {
    assert_eq!(to_singular("city"), "city");
    assert_eq!(to_singular("hero"), "hero");
    assert_eq!(to_plural(""), "");
    assert_eq!(to_singular(""), "");
}
