//! Language detection around the external detector: the trusted call, the
//! word-share aggregation that decides which languages count, and the
//! deduplicated listing the item pipeline stores.
use vstd::prelude::*;

use crate::model::DetectedLanguage;

verus! {

/// What the language detector returns for a text: the contiguous
/// single-language segments, each as a (language code, word count) pair,
/// in text order; a function of the text alone.
pub uninterp spec fn lingua_segments_of(text: Seq<char>) -> Seq<(u8, usize)>;

/// Relies on lingua's `LanguageDetector::detect_multiple_languages_of`,
/// with the detector built over English, Russian, Chinese, Japanese and
/// Korean at minimum relative distance 0.9: the segments depend on the
/// text alone, and an empty text has none.
#[verifier::external_body]
fn lingua_segments(text: &str) -> (r: Vec<(u8, usize)>)
    ensures
        r@ == lingua_segments_of(text@),
        text@.len() == 0 ==> r@.len() == 0,
{
    let langs = [lingua::Language::English, lingua::Language::Russian, lingua::Language::Chinese, lingua::Language::Japanese, lingua::Language::Korean];
    let detector = lingua::LanguageDetectorBuilder::from_languages(&langs).with_minimum_relative_distance("0.9".parse().unwrap()).build();
    detector.detect_multiple_languages_of(text).into_iter().map(|s| {
        let c: u8 = match s.language() {
            lingua::Language::English => 1, lingua::Language::Russian => 2, lingua::Language::Chinese => 3,
            lingua::Language::Japanese => 4, lingua::Language::Korean => 5,
        };
        (c, s.word_count())
    }).collect()
}

/// Words attributed to segments carrying `code`.
pub open spec fn words_of(s: Seq<(u8, usize)>, code: u8) -> int
    decreases s.len(),
{
    if s.len() == 0 {
        0
    } else {
        words_of(s.drop_last(), code) + if s.last().0 == code {
            s.last().1 as int
        } else {
            0
        }
    }
}

/// Words across all segments.
pub open spec fn total_words(s: Seq<(u8, usize)>) -> int
    decreases s.len(),
{
    if s.len() == 0 {
        0
    } else {
        total_words(s.drop_last()) + s.last().1 as int
    }
}

/// Whether a language's word share exceeds the one-fifth threshold: five
/// times its words strictly exceed the total.
pub open spec fn dominant(s: Seq<(u8, usize)>, code: u8) -> bool {
    5 * words_of(s, code) > total_words(s)
}

/// Whether any segment carries `code`.
pub open spec fn has_code(s: Seq<(u8, usize)>, code: u8) -> bool {
    exists|i: int| 0 <= i < s.len() && s[i].0 == code
}

/// The languages whose codes below `c` pass `keep`, in code order.
pub open spec fn langs_upto(s: Seq<(u8, usize)>, c: int, by_share: bool) -> Seq<DetectedLanguage>
    decreases c,
{
    if c <= 0 {
        Seq::empty()
    } else {
        let rest = langs_upto(s, c - 1, by_share);
        let keep = if by_share {
            dominant(s, (c - 1) as u8)
        } else {
            has_code(s, (c - 1) as u8)
        };
        if keep {
            rest.push(DetectedLanguage::spec_decode((c - 1) as u8))
        } else {
            rest
        }
    }
}

/// The languages whose word share passes the threshold, in code order.
pub open spec fn dominant_languages(s: Seq<(u8, usize)>) -> Seq<DetectedLanguage> {
    langs_upto(s, 8, true)
}

/// With no segments there is nothing to attribute: no language is listed
/// and none passes the share threshold.
pub proof fn lemma_no_segments_no_languages(c: int, by_share: bool)
    ensures
        langs_upto(Seq::<(u8, usize)>::empty(), c, by_share) == Seq::<DetectedLanguage>::empty(),
    decreases c,
{
    if c > 0 {
        lemma_no_segments_no_languages(c - 1, by_share);
    }
}

/// Every language any segment was attributed to, in code order.
pub open spec fn listed_languages(s: Seq<(u8, usize)>) -> Seq<DetectedLanguage> {
    langs_upto(s, 8, false)
}

/// Sum the words of segments carrying `code`.
fn tally_code(segments: &Vec<(u8, usize)>, code: u8) -> (w: u128)
    ensures
        w == words_of(segments@, code),
{
    let n = segments.len();
    let mut w: u128 = 0;
    let mut i: usize = 0;
    while i < n
        invariant
            i <= n,
            n == segments@.len(),
            w == words_of(segments@.take(i as int), code),
            w <= i * 0xFFFF_FFFF_FFFF_FFFFu128,
        decreases n - i,
    {
        proof {
            assert(segments@.take(i + 1).drop_last() =~= segments@.take(i as int));
            assert(segments@.take(i + 1).last() == segments@[i as int]);
        }
        if segments[i].0 == code {
            w = w + (segments[i].1 as u128);
        }
        i = i + 1;
    }
    proof {
        assert(segments@.take(n as int) =~= segments@);
    }
    w
}

/// Sum the words of all segments.
fn tally_total(segments: &Vec<(u8, usize)>) -> (w: u128)
    ensures
        w == total_words(segments@),
{
    let n = segments.len();
    let mut w: u128 = 0;
    let mut i: usize = 0;
    while i < n
        invariant
            i <= n,
            n == segments@.len(),
            w == total_words(segments@.take(i as int)),
            w <= i * 0xFFFF_FFFF_FFFF_FFFFu128,
        decreases n - i,
    {
        proof {
            assert(segments@.take(i + 1).drop_last() =~= segments@.take(i as int));
            assert(segments@.take(i + 1).last() == segments@[i as int]);
        }
        w = w + (segments[i].1 as u128);
        i = i + 1;
    }
    proof {
        assert(segments@.take(n as int) =~= segments@);
    }
    w
}

/// Whether any segment carries `code`.
fn code_present(segments: &Vec<(u8, usize)>, code: u8) -> (r: bool)
    ensures
        r == has_code(segments@, code),
{
    let n = segments.len();
    let mut i: usize = 0;
    while i < n
        invariant
            i <= n,
            n == segments@.len(),
            forall|j: int| 0 <= j < i ==> segments@[j].0 != code,
        decreases n - i,
    {
        if segments[i].0 == code {
            proof {
                assert(segments@[i as int].0 == code);
            }
            return true;
        }
        i = i + 1;
    }
    false
}

/// The languages whose word share exceeds the one-fifth threshold of the
/// given detector segments, in code order.
pub fn languages_over_threshold(segments: &Vec<(u8, usize)>) -> (r: Vec<DetectedLanguage>)
    ensures
        r@ == dominant_languages(segments@),
{
    let total = tally_total(segments);
    let mut r: Vec<DetectedLanguage> = Vec::new();
    let mut c: u8 = 0;
    while c < 8
        invariant
            c <= 8,
            total == total_words(segments@),
            r@ == langs_upto(segments@, c as int, true),
        decreases 8 - c,
    {
        let w = tally_code(segments, c);
        proof {
            vstd::arithmetic::div_mod::lemma_fundamental_div_mod(total as int, 5);
        }
        if w > total / 5 {
            proof {
                assert(dominant(segments@, c));
            }
            r.push(DetectedLanguage::decode(c));
        } else {
            proof {
                assert(!dominant(segments@, c));
            }
        }
        c = c + 1;
    }
    r
}

/// Every language the detector attributed any segment to, in code order.
pub fn languages_listed(segments: &Vec<(u8, usize)>) -> (r: Vec<DetectedLanguage>)
    ensures
        r@ == listed_languages(segments@),
{
    let mut r: Vec<DetectedLanguage> = Vec::new();
    let mut c: u8 = 0;
    while c < 8
        invariant
            c <= 8,
            r@ == langs_upto(segments@, c as int, false),
        decreases 8 - c,
    {
        if code_present(segments, c) {
            r.push(DetectedLanguage::decode(c));
        }
        c = c + 1;
    }
    r
}

/// List every language likely present in a text, however small its share,
/// in code order and without duplicates: descriptions are sometimes
/// multilingual, hence a set rather than a single language. The item
/// pipeline stores [`detect_dominant`]'s filtered set instead.
pub fn detect(text: &str) -> (r: Vec<DetectedLanguage>)
    ensures
        r@ == listed_languages(lingua_segments_of(text@)),
        text@.len() == 0 ==> r@.len() == 0,
{
    let segments = lingua_segments(text);
    proof {
        if text@.len() == 0 {
            assert(lingua_segments_of(text@) =~= Seq::<(u8, usize)>::empty());
            lemma_no_segments_no_languages(8, false);
        }
    }
    languages_listed(&segments)
}

/// Detect the languages that make up more than a fifth of a text's words:
/// the set the item pipeline stores, so that incidental fragments do not
/// count.
pub fn detect_dominant(text: &str) -> (r: Vec<DetectedLanguage>)
    ensures
        r@ == dominant_languages(lingua_segments_of(text@)),
        text@.len() == 0 ==> r@.len() == 0,
{
    let segments = lingua_segments(text);
    proof {
        if text@.len() == 0 {
            assert(lingua_segments_of(text@) =~= Seq::<(u8, usize)>::empty());
            lemma_no_segments_no_languages(8, true);
        }
    }
    languages_over_threshold(&segments)
}

} // verus!
