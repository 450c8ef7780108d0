//! The closed set of supported languages and the mapping from two-letter
//! codes to languages, including the documented fallback to English for any
//! unrecognized code.

use vstd::prelude::*;

verus! {

/// One of the eighteen supported stemming languages.
#[derive(Clone, Copy, Debug, PartialEq, Eq, Structural)]
pub enum Language {
    Arabic,
    Danish,
    Dutch,
    English,
    Finnish,
    French,
    German,
    Greek,
    Hungarian,
    Italian,
    Norwegian,
    Portuguese,
    Romanian,
    Russian,
    Spanish,
    Swedish,
    Tamil,
    Turkish,
}

impl Language {
    /// The two-letter code of this language.
    pub open spec fn code(self) -> Seq<char> {
        match self {
            Language::Arabic => seq!['a', 'r'],
            Language::Danish => seq!['d', 'a'],
            Language::Dutch => seq!['n', 'l'],
            Language::English => seq!['e', 'n'],
            Language::Finnish => seq!['f', 'i'],
            Language::French => seq!['f', 'r'],
            Language::German => seq!['d', 'e'],
            Language::Greek => seq!['g', 'r'],
            Language::Hungarian => seq!['h', 'u'],
            Language::Italian => seq!['i', 't'],
            Language::Norwegian => seq!['n', 'o'],
            Language::Portuguese => seq!['p', 't'],
            Language::Romanian => seq!['r', 'o'],
            Language::Russian => seq!['r', 'u'],
            Language::Spanish => seq!['e', 's'],
            Language::Swedish => seq!['s', 'v'],
            Language::Tamil => seq!['t', 'a'],
            Language::Turkish => seq!['t', 'r'],
        }
    }
}

/// The supported two-letter codes, in the fixed published order.
pub open spec fn supported_codes() -> Seq<Seq<char>> {
    seq![
        seq!['a', 'r'],
        seq!['d', 'a'],
        seq!['n', 'l'],
        seq!['e', 'n'],
        seq!['f', 'i'],
        seq!['f', 'r'],
        seq!['d', 'e'],
        seq!['g', 'r'],
        seq!['h', 'u'],
        seq!['i', 't'],
        seq!['n', 'o'],
        seq!['p', 't'],
        seq!['r', 'o'],
        seq!['r', 'u'],
        seq!['e', 's'],
        seq!['s', 'v'],
        seq!['t', 'a'],
        seq!['t', 'r'],
    ]
}

/// The language selected by a code: the language whose code it is, or
/// English for any code outside the supported set.
pub open spec fn lang_of_code(s: Seq<char>) -> Language {
    if s == seq!['a', 'r'] {
        Language::Arabic
    } else if s == seq!['d', 'a'] {
        Language::Danish
    } else if s == seq!['n', 'l'] {
        Language::Dutch
    } else if s == seq!['e', 'n'] {
        Language::English
    } else if s == seq!['f', 'i'] {
        Language::Finnish
    } else if s == seq!['f', 'r'] {
        Language::French
    } else if s == seq!['d', 'e'] {
        Language::German
    } else if s == seq!['g', 'r'] {
        Language::Greek
    } else if s == seq!['h', 'u'] {
        Language::Hungarian
    } else if s == seq!['i', 't'] {
        Language::Italian
    } else if s == seq!['n', 'o'] {
        Language::Norwegian
    } else if s == seq!['p', 't'] {
        Language::Portuguese
    } else if s == seq!['r', 'o'] {
        Language::Romanian
    } else if s == seq!['r', 'u'] {
        Language::Russian
    } else if s == seq!['e', 's'] {
        Language::Spanish
    } else if s == seq!['s', 'v'] {
        Language::Swedish
    } else if s == seq!['t', 'a'] {
        Language::Tamil
    } else if s == seq!['t', 'r'] {
        Language::Turkish
    } else {
        Language::English
    }
}

/// Every supported code selects the language of that very code, not the
/// fallback: the code read back from the selected language is the code that
/// was given.
pub proof fn lemma_supported_code_round_trip(c: Seq<char>)
    requires
        supported_codes().contains(c),
    ensures
        lang_of_code(c).code() == c,
{
    let i = choose|i: int| 0 <= i < supported_codes().len() && supported_codes()[i] == c;
}

/// Any code outside the supported set falls back to English.
pub proof fn lemma_fallback_english(c: Seq<char>)
    requires
        !supported_codes().contains(c),
    ensures
        lang_of_code(c) == Language::English,
{
    assert(supported_codes()[0] == seq!['a', 'r']);
    assert(supported_codes()[1] == seq!['d', 'a']);
    assert(supported_codes()[2] == seq!['n', 'l']);
    assert(supported_codes()[3] == seq!['e', 'n']);
    assert(supported_codes()[4] == seq!['f', 'i']);
    assert(supported_codes()[5] == seq!['f', 'r']);
    assert(supported_codes()[6] == seq!['d', 'e']);
    assert(supported_codes()[7] == seq!['g', 'r']);
    assert(supported_codes()[8] == seq!['h', 'u']);
    assert(supported_codes()[9] == seq!['i', 't']);
    assert(supported_codes()[10] == seq!['n', 'o']);
    assert(supported_codes()[11] == seq!['p', 't']);
    assert(supported_codes()[12] == seq!['r', 'o']);
    assert(supported_codes()[13] == seq!['r', 'u']);
    assert(supported_codes()[14] == seq!['e', 's']);
    assert(supported_codes()[15] == seq!['s', 'v']);
    assert(supported_codes()[16] == seq!['t', 'a']);
    assert(supported_codes()[17] == seq!['t', 'r']);
}

impl Language {
    /// Selects the language for a two-letter code, falling back to English
    /// for any unrecognized code.
    pub fn from_code(code: &str) -> (l: Language)
        ensures
            l == lang_of_code(code@),
    {
        let n = code.unicode_len();
        if n != 2 {
            return Language::English;
        }
        let c0 = code.get_char(0);
        let c1 = code.get_char(1);
        proof {
            assert(code@ =~= seq![c0, c1]);
        }
        if c0 == 'a' && c1 == 'r' {
            Language::Arabic
        } else if c0 == 'd' && c1 == 'a' {
            Language::Danish
        } else if c0 == 'n' && c1 == 'l' {
            Language::Dutch
        } else if c0 == 'e' && c1 == 'n' {
            Language::English
        } else if c0 == 'f' && c1 == 'i' {
            Language::Finnish
        } else if c0 == 'f' && c1 == 'r' {
            Language::French
        } else if c0 == 'd' && c1 == 'e' {
            Language::German
        } else if c0 == 'g' && c1 == 'r' {
            Language::Greek
        } else if c0 == 'h' && c1 == 'u' {
            Language::Hungarian
        } else if c0 == 'i' && c1 == 't' {
            Language::Italian
        } else if c0 == 'n' && c1 == 'o' {
            Language::Norwegian
        } else if c0 == 'p' && c1 == 't' {
            Language::Portuguese
        } else if c0 == 'r' && c1 == 'o' {
            Language::Romanian
        } else if c0 == 'r' && c1 == 'u' {
            Language::Russian
        } else if c0 == 'e' && c1 == 's' {
            Language::Spanish
        } else if c0 == 's' && c1 == 'v' {
            Language::Swedish
        } else if c0 == 't' && c1 == 'a' {
            Language::Tamil
        } else if c0 == 't' && c1 == 'r' {
            Language::Turkish
        } else {
            Language::English
        }
    }
}

} // verus!
