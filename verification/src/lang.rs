//! The supported hyphenation languages and the mapping from two-letter
//! language codes onto them. Unrecognized codes fall back to English, so the
//! mapping is total: selecting a language never fails.

use vstd::prelude::*;
use vstd::string::StrSliceExecFns;

verus! {

/// A hyphenation language supported by the service.
#[derive(Clone, Copy, Debug, PartialEq, Eq, Structural)]
pub enum Lang {
    English,
    Dutch,
    Spanish,
    French,
    German,
}

/// Whether `s` is exactly the two-character code `c0 c1`.
pub open spec fn is_code_spec(s: Seq<char>, c0: char, c1: char) -> bool {
    s.len() == 2 && s[0] == c0 && s[1] == c1
}

/// Whether `s` is one of the five recognized language codes.
pub open spec fn recognized_code(s: Seq<char>) -> bool {
    ||| is_code_spec(s, 'e', 'n')
    ||| is_code_spec(s, 'n', 'l')
    ||| is_code_spec(s, 'e', 's')
    ||| is_code_spec(s, 'f', 'r')
    ||| is_code_spec(s, 'd', 'e')
}

/// The language selected for a code: each recognized code maps to its
/// language, and every other code falls back to English.
pub open spec fn lang_of_code(s: Seq<char>) -> Lang {
    if is_code_spec(s, 'e', 'n') {
        Lang::English
    } else if is_code_spec(s, 'n', 'l') {
        Lang::Dutch
    } else if is_code_spec(s, 'e', 's') {
        Lang::Spanish
    } else if is_code_spec(s, 'f', 'r') {
        Lang::French
    } else if is_code_spec(s, 'd', 'e') {
        Lang::German
    } else {
        Lang::English
    }
}

/// Whether `s` is exactly the two characters `c0 c1`.
fn is_code(s: &str, c0: char, c1: char) -> (r: bool)
    ensures
        r == is_code_spec(s@, c0, c1),
{
    if s.unicode_len() == 2 {
        s.get_char(0) == c0 && s.get_char(1) == c1
    } else {
        false
    }
}

/// Select the hyphenation language for a language code. Total: any code
/// outside the recognized set selects English.
pub fn parse_lang(lang: &str) -> (l: Lang)
    ensures
        l == lang_of_code(lang@),
        !recognized_code(lang@) ==> l == Lang::English,
{
    if is_code(lang, 'e', 'n') {
        Lang::English
    } else if is_code(lang, 'n', 'l') {
        Lang::Dutch
    } else if is_code(lang, 'e', 's') {
        Lang::Spanish
    } else if is_code(lang, 'f', 'r') {
        Lang::French
    } else if is_code(lang, 'd', 'e') {
        Lang::German
    } else {
        Lang::English
    }
}

/// Fallback law: every unrecognized (in particular, empty) code selects the
/// same language as the code `en`, namely English.
pub proof fn lemma_unrecognized_code_falls_back(s: Seq<char>)
    requires
        !recognized_code(s),
    ensures
        lang_of_code(s) == Lang::English,
        lang_of_code(s) == lang_of_code(seq!['e', 'n']),
{
}

} // verus!
