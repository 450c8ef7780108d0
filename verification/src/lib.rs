//! Multilingual word stemming: normalizes raw text into clean lowercase
//! tokens and reduces each token to its morphological stem with the snowball
//! algorithm bound to a two-letter language code.

use vstd::prelude::*;

mod lang;
mod normalize;
mod stemmer;

pub use lang::lang_of_code;
pub use lang::lemma_fallback_english;
pub use lang::lemma_supported_code_round_trip;
pub use lang::supported_codes;
pub use lang::Language;
pub use normalize::clean_spec;
pub use normalize::filtered;
pub use normalize::is_word_char;
pub use normalize::is_ws;
pub use normalize::lemma_clean_tokens_wellformed;
pub use normalize::lower_of;
pub use normalize::split_ws;
pub use normalize::trim_of;
pub use stemmer::stem_of;
pub use stemmer::LanguageStemmer;

verus! {

} // verus!
