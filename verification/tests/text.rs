use sayit::text::remove_fillers as clean;

#[test]
fn removes_fillers_mid_sentence() {
    assert_eq!(clean("I plan to make this uh voice app"), "I plan to make this voice app");
    assert_eq!(clean("we should, um, ship it."), "we should, ship it.");
}

#[test]
fn capitalizes_after_leading_filler() {
    assert_eq!(clean("Um, so I think we should."), "So I think we should.");
    assert_eq!(clean("Done. Uh, next one."), "Done. Next one.");
}

#[test]
fn keeps_sentence_end_carried_by_filler() {
    assert_eq!(clean("That is what I said, uh."), "That is what I said.");
    assert_eq!(clean("Is it ready uh?"), "Is it ready?");
}

#[test]
fn only_fillers_becomes_empty() {
    assert_eq!(clean("Um."), "");
    assert_eq!(clean("Uh, um..."), "");
}

#[test]
fn leaves_real_words_alone() {
    // Substrings and words people use on purpose stay.
    for s in ["Umbrella and hummus.", "Hmm, I like it.", "Ah, I see.", "The UH-60 helicopter."] {
        assert_eq!(clean(s), s);
    }
}

#[test]
fn every_filler_spelling_is_removed() {
    for f in ["um", "umm", "uh", "uhh", "uhm", "erm", "UM", "Erm", "uHm"] {
        assert_eq!(clean(&format!("yes {f} no")), "yes no", "{f}");
    }
}

#[test]
fn whitespace_is_normalized() {
    assert_eq!(clean("  a \t b\n\nc  "), "a b c");
    assert_eq!(clean(""), "");
    assert_eq!(clean("   "), "");
}

#[test]
fn carried_end_replaces_trailing_comma() {
    assert_eq!(clean("we went there; um!"), "we went there!");
    assert_eq!(clean("stop. uh."), "stop.");
}

#[test]
fn capital_is_handed_on_after_carried_end() {
    assert_eq!(clean("it works uh. and then"), "it works. And then");
    assert_eq!(clean("um ßig"), "SSig");
}

#[test]
fn quoted_filler_is_a_filler() {
    assert_eq!(clean("he said \"um\" twice"), "he said twice");
}

#[test]
fn kept_words_stay_in_order() {
    assert_eq!(clean("one um two uh three erm four"), "one two three four");
    assert_eq!(clean("Uh. one, umm? two"), "One? Two");
}

#[test]
fn second_pass_changes_nothing() {
    for s in [
        "Um, so I think uh we should.",
        "Done. Uh, next one.",
        "That is what I said, uh.",
        "  one um   two\tuh three.  ",
        "Uh. one, umm? two",
    ] {
        let once = clean(s);
        assert_eq!(clean(&once), once, "{s}");
    }
}
