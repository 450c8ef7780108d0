use lang_stemmer::LanguageStemmer;

fn strs(v: &[&str]) -> Vec<String> {
    v.iter().map(|s| s.to_string()).collect()
}

#[test]
fn supported_languages_fixed_order() {
    let expected = strs(&[
        "ar", "da", "nl", "en", "fi", "fr", "de", "gr", "hu", "it", "no", "pt", "ro", "ru", "es",
        "sv", "ta", "tr",
    ]);
    assert_eq!(LanguageStemmer::supported_languages(), expected);
    assert_eq!(LanguageStemmer::supported_languages().len(), 18);
}

#[test]
fn supported_languages_stable_across_calls() {
    let first = LanguageStemmer::supported_languages();
    let second = LanguageStemmer::supported_languages();
    assert_eq!(first, second);
}

#[test]
fn every_supported_code_constructs_and_is_listed() {
    for code in LanguageStemmer::supported_languages() {
        let stemmer = LanguageStemmer::new(&code);
        let _ = stemmer.stem_word("test");
        assert!(LanguageStemmer::supported_languages().contains(&code));
    }
}

#[test]
fn clean_text_hello_world() {
    assert_eq!(
        LanguageStemmer::clean_text("Hello, World!"),
        strs(&["hello", "world"])
    );
}

#[test]
fn clean_text_multiple_spaces() {
    assert_eq!(
        LanguageStemmer::clean_text("  multiple   spaces  "),
        strs(&["multiple", "spaces"])
    );
}

#[test]
fn clean_text_empty() {
    assert_eq!(LanguageStemmer::clean_text(""), Vec::<String>::new());
}

#[test]
fn clean_text_apostrophe_merges() {
    assert_eq!(LanguageStemmer::clean_text("don't"), strs(&["dont"]));
}

#[test]
fn clean_text_punctuation_joins_words() {
    assert_eq!(LanguageStemmer::clean_text("word,word"), strs(&["wordword"]));
}

#[test]
fn clean_text_all_punctuation() {
    assert_eq!(LanguageStemmer::clean_text("?!...;;"), Vec::<String>::new());
}

#[test]
fn clean_text_keeps_digits_and_accents() {
    assert_eq!(
        LanguageStemmer::clean_text("Caf\u{e9} 42 \u{dc}ber!"),
        strs(&["caf\u{e9}", "42", "\u{fc}ber"])
    );
}

#[test]
fn stem_word_beautiful() {
    let stemmer = LanguageStemmer::new("en");
    assert_eq!(stemmer.stem_word("Beautiful"), "beauti");
}

#[test]
fn stem_word_case_insensitive() {
    let stemmer = LanguageStemmer::new("en");
    assert_eq!(stemmer.stem_word("BEAUTIFUL"), stemmer.stem_word("beautiful"));
}

#[test]
fn stem_word_trims_whitespace() {
    let stemmer = LanguageStemmer::new("en");
    assert_eq!(stemmer.stem_word("  Beautiful  "), "beauti");
}

#[test]
fn stem_word_fruitlessly() {
    let stemmer = LanguageStemmer::new("en");
    assert_eq!(stemmer.stem_word("fruitlessly"), "fruitless");
}

#[test]
fn stem_word_empty() {
    let stemmer = LanguageStemmer::new("en");
    assert_eq!(stemmer.stem_word(""), "");
    assert_eq!(stemmer.stem_word("   "), "");
}

#[test]
fn stem_text_simple_sentence() {
    let stemmer = LanguageStemmer::new("en");
    assert_eq!(
        stemmer.stem_text("This is a test"),
        strs(&["this", "is", "a", "test"])
    );
}

#[test]
fn stem_text_reduces_tokens() {
    let stemmer = LanguageStemmer::new("en");
    assert_eq!(
        stemmer.stem_text("Running quickly, beautifully!"),
        strs(&["run", "quick", "beauti"])
    );
}

#[test]
fn stem_text_length_matches_clean_text() {
    let stemmer = LanguageStemmer::new("en");
    for text in [
        "",
        "Hello, World!",
        "  multiple   spaces  ",
        "don't stop believing",
        "?!...",
        "a b c d e f",
    ] {
        assert_eq!(
            stemmer.stem_text(text).len(),
            LanguageStemmer::clean_text(text).len()
        );
    }
}

#[test]
fn stem_text_all_punctuation_is_empty() {
    let stemmer = LanguageStemmer::new("en");
    assert_eq!(stemmer.stem_text("?!..."), Vec::<String>::new());
}

#[test]
fn already_minimal_words_are_fixed_points() {
    for code in LanguageStemmer::supported_languages() {
        let stemmer = LanguageStemmer::new(&code);
        assert_eq!(stemmer.stem_word("b"), "b", "language {}", code);
    }
    let en = LanguageStemmer::new("en");
    assert_eq!(en.stem_word("run"), "run");
    assert_eq!(en.stem_word("beauti"), "beauti");
}

#[test]
fn unrecognized_code_falls_back_to_english() {
    let fallback = LanguageStemmer::new("xx");
    let english = LanguageStemmer::new("en");
    assert_eq!(fallback.stem_word("Beautiful"), "beauti");
    assert_eq!(fallback.stem_word("running"), english.stem_word("running"));
    assert_eq!(
        fallback.stem_text("Running quickly"),
        english.stem_text("Running quickly")
    );
}

#[test]
fn languages_select_different_algorithms() {
    let en = LanguageStemmer::new("en");
    let de = LanguageStemmer::new("de");
    assert_eq!(en.stem_word("national"), "nation");
    assert_ne!(de.stem_word("national"), "nation");
}

#[test]
fn repeated_calls_on_one_instance_are_consistent() {
    let stemmer = LanguageStemmer::new("en");
    let first_word = stemmer.stem_word("Beautiful");
    let first_text = stemmer.stem_text("This is a test");
    for _ in 0..50 {
        assert_eq!(stemmer.stem_word("Beautiful"), first_word);
        assert_eq!(stemmer.stem_text("This is a test"), first_text);
        assert_eq!(stemmer.stem_word("fruitlessly"), "fruitless");
    }
}
