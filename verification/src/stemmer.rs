//! The stemmer: binds one of the eighteen snowball algorithms at
//! construction and exposes single-word and whole-text stemming over the
//! normalizer's output.

use vstd::prelude::*;

use crate::lang::{lang_of_code, supported_codes, Language};
use crate::normalize::{
    chars_vec, clean_spec, filter_chars, lower_of, lowercase, split_tokens, string_of_chars,
    trim_chars, trim_of,
};
use rust_stemmers::Algorithm;

verus! {

#[verifier::external_type_specification]
#[verifier::external_body]
pub struct ExStemmer(rust_stemmers::Stemmer);

/// The stem that the snowball algorithm of the language with two-letter code
/// `code` computes for the word `w`: a fixed function of the code and the
/// characters alone.
pub uninterp spec fn stem_of(code: Seq<char>, w: Seq<char>) -> Seq<char>;

/// A stemmer bound to one language for its whole lifetime.
pub struct LanguageStemmer {
    stemmer: rust_stemmers::Stemmer,
    lang: Language,
}

impl LanguageStemmer {
    /// The language this stemmer was bound to at construction.
    pub closed spec fn language(self) -> Language {
        self.lang
    }

    /// Relies on `rust_stemmers::Stemmer::create`: builds the snowball
    /// stemmer of the given language's algorithm, here recorded beside it.
    #[verifier::external_body]
    fn create(l: Language) -> (r: LanguageStemmer)
        ensures
            r.language() == l,
    {
        let a = match l {
            Language::Arabic => Algorithm::Arabic, Language::Danish => Algorithm::Danish,
            Language::Dutch => Algorithm::Dutch, Language::English => Algorithm::English,
            Language::Finnish => Algorithm::Finnish, Language::French => Algorithm::French,
            Language::German => Algorithm::German, Language::Greek => Algorithm::Greek,
            Language::Hungarian => Algorithm::Hungarian, Language::Italian => Algorithm::Italian,
            Language::Norwegian => Algorithm::Norwegian, Language::Portuguese => Algorithm::Portuguese,
            Language::Romanian => Algorithm::Romanian, Language::Russian => Algorithm::Russian,
            Language::Spanish => Algorithm::Spanish, Language::Swedish => Algorithm::Swedish,
            Language::Tamil => Algorithm::Tamil, Language::Turkish => Algorithm::Turkish,
        };
        LanguageStemmer { stemmer: rust_stemmers::Stemmer::create(a), lang: l }
    }

    /// Relies on `rust_stemmers::Stemmer::stem`: a deterministic, pure
    /// snowball reduction fixed by the algorithm the stemmer was created
    /// with, so the result is a function of the bound language's code and
    /// the input characters alone.
    #[verifier::external_body]
    fn stem_raw(&self, w: &str) -> (r: String)
        ensures
            r@ == stem_of(self.language().code(), w@),
    {
        self.stemmer.stem(w).into_owned()
    }

    /// Binds a stemmer to the language of the given two-letter code, falling
    /// back to English for any unrecognized code; never fails.
    pub fn new(language: &str) -> (r: LanguageStemmer)
        ensures
            r.language() == lang_of_code(language@),
    {
        LanguageStemmer::create(Language::from_code(language))
    }

    /// The eighteen supported two-letter language codes, in their fixed
    /// published order.
    pub fn supported_languages() -> (r: Vec<String>)
        ensures
            r@.map_values(|s: String| s@) == supported_codes(),
    {
        let mut r: Vec<String> = Vec::new();
        r.push(String::from_str("ar"));
        r.push(String::from_str("da"));
        r.push(String::from_str("nl"));
        r.push(String::from_str("en"));
        r.push(String::from_str("fi"));
        r.push(String::from_str("fr"));
        r.push(String::from_str("de"));
        r.push(String::from_str("gr"));
        r.push(String::from_str("hu"));
        r.push(String::from_str("it"));
        r.push(String::from_str("no"));
        r.push(String::from_str("pt"));
        r.push(String::from_str("ro"));
        r.push(String::from_str("ru"));
        r.push(String::from_str("es"));
        r.push(String::from_str("sv"));
        r.push(String::from_str("ta"));
        r.push(String::from_str("tr"));
        proof {
            reveal_strlit("ar");
            reveal_strlit("da");
            reveal_strlit("nl");
            reveal_strlit("en");
            reveal_strlit("fi");
            reveal_strlit("fr");
            reveal_strlit("de");
            reveal_strlit("gr");
            reveal_strlit("hu");
            reveal_strlit("it");
            reveal_strlit("no");
            reveal_strlit("pt");
            reveal_strlit("ro");
            reveal_strlit("ru");
            reveal_strlit("es");
            reveal_strlit("sv");
            reveal_strlit("ta");
            reveal_strlit("tr");
            assert(r@.map_values(|s: String| s@) =~~= supported_codes());
        }
        r
    }

    /// The normalized token sequence of `text`: lowercased, characters
    /// outside the word class deleted, split on whitespace runs.
    pub fn clean_text(text: &str) -> (r: Vec<String>)
        ensures
            r@.map_values(|t: String| t@) == clean_spec(lower_of(text@)),
    {
        let low = lowercase(text);
        let cs = chars_vec(low.as_str());
        let fs = filter_chars(&cs);
        split_tokens(&fs)
    }

    /// Stems one word: lowercases and trims it, then applies the bound
    /// algorithm. The full punctuation-deleting normalizer does not run on
    /// this path.
    pub fn stem_word(&self, input: &str) -> (r: String)
        ensures
            r@ == stem_of(self.language().code(), trim_of(lower_of(input@))),
    {
        let low = lowercase(input);
        let cs = chars_vec(low.as_str());
        let t = trim_chars(&cs);
        let w = string_of_chars(&t);
        self.stem_raw(w.as_str())
    }

    /// Stems whole text: normalizes it into tokens, then stems each token
    /// independently, preserving order; one stem per token.
    pub fn stem_text(&self, inputs: &str) -> (r: Vec<String>)
        ensures
            r@.len() == clean_spec(lower_of(inputs@)).len(),
            forall|i: int|
                0 <= i < r@.len() ==> r@[i]@ == stem_of(
                    self.language().code(),
                    clean_spec(lower_of(inputs@))[i],
                ),
    {
        let toks = LanguageStemmer::clean_text(inputs);
        let mut r: Vec<String> = Vec::new();
        let mut i: usize = 0;
        while i < toks.len()
            invariant
                i <= toks@.len(),
                toks@.map_values(|t: String| t@) == clean_spec(lower_of(inputs@)),
                r@.len() == i,
                forall|j: int|
                    0 <= j < i ==> r@[j]@ == stem_of(
                        self.language().code(),
                        clean_spec(lower_of(inputs@))[j],
                    ),
            decreases toks@.len() - i,
        {
            let s = self.stem_raw(toks[i].as_str());
            r.push(s);
            i = i + 1;
        }
        r
    }
}

} // verus!
