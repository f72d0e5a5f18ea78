//! The hyphenation operation itself: segment a word into syllables for a
//! selected language and join them with a caller-supplied delimiter. The
//! syllable segmentation is delegated to the `hypher` crate; everything
//! around the call is verified.

use vstd::prelude::*;
use crate::lang::{Lang, lang_of_code, recognized_code, parse_lang, lemma_unrecognized_code_falls_back};
use crate::segments::{
    concat_segs, join_segs, split_segs, views_of, avoids, segs_avoid, join_parts,
    lemma_segs_avoid_from_concat, lemma_split_join, lemma_join_empty_delimiter,
};

verus! {

/// The syllable segmentation that `hypher` produces for a word in a language.
/// It depends on the word and the language alone.
pub uninterp spec fn syllables_of(word: Seq<char>, lang: Lang) -> Seq<Seq<char>>;

/// Relies on hypher::hyphenate: the syllables it yields are consecutive
/// slices of the word taken in order, so concatenating them spells the word
/// again, and a non-empty word yields at least one syllable. The segmentation
/// is a function of the word and the language alone.
#[verifier::external_body]
fn syllable_segments(word: &str, lang: Lang) -> (r: Vec<String>)
    ensures
        views_of(r@) == syllables_of(word@, lang),
        concat_segs(views_of(r@)) == word@,
        word@.len() > 0 ==> r@.len() >= 1,
{
    let selected = match lang {
        Lang::English => hypher::Lang::English,
        Lang::Dutch => hypher::Lang::Dutch,
        Lang::Spanish => hypher::Lang::Spanish,
        Lang::French => hypher::Lang::French,
        Lang::German => hypher::Lang::German,
    };
    let mut segs = Vec::new();
    for syllable in hypher::hyphenate(word, selected) {
        segs.push(syllable.to_string());
    }
    segs
}

/// What the service answers for a word, a language code and a delimiter: the
/// syllables of the word in the selected language, joined with the delimiter.
pub open spec fn hyphenate_spec(word: Seq<char>, lang: Seq<char>, d: Seq<char>) -> Seq<char> {
    join_segs(syllables_of(word, lang_of_code(lang)), d)
}

/// Hyphenate `word` for the language selected by `lang` (falling back to
/// English on an unrecognized code) and join the syllables with `delimiter`.
///
/// The syllables concatenate back to the word, so the output only inserts
/// separators, never alters characters; and whenever the word avoids the
/// delimiter's characters, splitting the output on the delimiter recovers the
/// syllables, and removing the delimiters reconstructs the word.
pub fn hyphenate(word: &str, lang: &str, delimiter: &str) -> (r: String)
    ensures
        r@ == hyphenate_spec(word@, lang@, delimiter@),
        concat_segs(syllables_of(word@, lang_of_code(lang@))) == word@,
        word@.len() > 0 ==> syllables_of(word@, lang_of_code(lang@)).len() >= 1,
        delimiter@.len() == 0 ==> r@ == word@,
        (word@.len() > 0 && delimiter@.len() > 0 && avoids(word@, delimiter@)) ==> {
            &&& split_segs(r@, delimiter@) == syllables_of(word@, lang_of_code(lang@))
            &&& concat_segs(split_segs(r@, delimiter@)) == word@
        },
{
    let selected = parse_lang(lang);
    let segs = syllable_segments(word, selected);
    let r = join_parts(&segs, delimiter);
    proof {
        let sylls = syllables_of(word@, lang_of_code(lang@));
        if word@.len() > 0 && delimiter@.len() > 0 && avoids(word@, delimiter@) {
            lemma_segs_avoid_from_concat(sylls, delimiter@);
            lemma_split_join(sylls, delimiter@);
        }
        if delimiter@.len() == 0 {
            assert(delimiter@ =~= Seq::<char>::empty());
            lemma_join_empty_delimiter(sylls);
        }
    }
    r
}

/// The request the service answers: a word, a language code, and the
/// delimiter to join the syllables with.
pub struct HyphenParams {
    pub word: String,
    pub lang: String,
    pub delimiter: String,
}

/// Answer one request. The hyphenation step is total, so this always
/// succeeds; the service's only faults come from parameter decoding, which
/// happens before this function is reached.
pub fn do_hyphenate(h: &HyphenParams) -> (r: String)
    ensures
        r@ == hyphenate_spec(h.word@, h.lang@, h.delimiter@),
{
    hyphenate(h.word.as_str(), h.lang.as_str(), h.delimiter.as_str())
}

/// Fallback law: an unrecognized (in particular, empty) language code gives
/// exactly the answer of the English code for the same word and delimiter.
pub proof fn lemma_fallback_equals_english(word: Seq<char>, lang: Seq<char>, d: Seq<char>)
    requires
        !recognized_code(lang),
    ensures
        hyphenate_spec(word, lang, d) == hyphenate_spec(word, seq!['e', 'n'], d),
{
    lemma_unrecognized_code_falls_back(lang);
}

/// Delimiter independence: for a fixed word and language code, changing only
/// the delimiter changes only the separators. Both answers are the same
/// syllable segments joined with the respective delimiter, and as long as the
/// segments avoid both delimiters' characters, splitting either answer on its
/// own delimiter recovers the same segments in the same order.
pub proof fn lemma_delimiter_changes_only_separators(
    word: Seq<char>,
    lang: Seq<char>,
    d1: Seq<char>,
    d2: Seq<char>,
)
    requires
        d1.len() > 0,
        d2.len() > 0,
        syllables_of(word, lang_of_code(lang)).len() >= 1,
        segs_avoid(syllables_of(word, lang_of_code(lang)), d1),
        segs_avoid(syllables_of(word, lang_of_code(lang)), d2),
    ensures
        hyphenate_spec(word, lang, d1) == join_segs(syllables_of(word, lang_of_code(lang)), d1),
        hyphenate_spec(word, lang, d2) == join_segs(syllables_of(word, lang_of_code(lang)), d2),
        split_segs(hyphenate_spec(word, lang, d1), d1) == split_segs(
            hyphenate_spec(word, lang, d2),
            d2,
        ),
{
    lemma_split_join(syllables_of(word, lang_of_code(lang)), d1);
    lemma_split_join(syllables_of(word, lang_of_code(lang)), d2);
}

} // verus!
