use vstd::prelude::*;

use crate::chars::{chars_of, string_of};
use scraper::{Html, Selector};

verus! {

/// The character that ends a sentence.
pub const TERMINATOR: char = '。';

/// The most characters a summary holds.
pub const SUMMARY_LIMIT: usize = 140;

/// `o` with its text seen as characters.
pub open spec fn opt_view(o: Option<String>) -> Option<Seq<char>> {
    match o {
        Some(s) => Some(s@),
        None => None,
    }
}

/// The first `max` characters of `s`, or all of `s` where it is shorter.
pub open spec fn truncate_spec(s: Seq<char>, max: nat) -> Seq<char> {
    if s.len() <= max {
        s
    } else {
        s.take(max as int)
    }
}

/// How many characters the first sentence of `s` has: up to and including
/// the first terminator, or all of `s` where it holds none.
pub open spec fn sentence_len(s: Seq<char>) -> nat
    decreases s.len(),
{
    if s.len() == 0 {
        0
    } else if s[0] == TERMINATOR {
        1
    } else {
        1 + sentence_len(s.drop_first())
    }
}

/// The first sentence of `s`, terminator included.
pub open spec fn first_sentence(s: Seq<char>) -> Seq<char> {
    s.take(sentence_len(s) as int)
}

/// The summary of a page whose paragraphs hold these texts: the first
/// sentence of the first non-empty one, cut to the summary limit.
pub open spec fn summary_spec(paragraphs: Seq<Seq<char>>) -> Option<Seq<char>>
    decreases paragraphs.len(),
{
    if paragraphs.len() == 0 {
        None
    } else if paragraphs[0].len() > 0 {
        Some(truncate_spec(first_sentence(paragraphs[0]), SUMMARY_LIMIT as nat))
    } else {
        summary_spec(paragraphs.drop_first())
    }
}

/// The first source among the image elements' `src` attributes.
pub open spec fn first_source(sources: Seq<Option<Seq<char>>>) -> Option<Seq<char>>
    decreases sources.len(),
{
    if sources.len() == 0 {
        None
    } else if sources[0] is Some {
        sources[0]
    } else {
        first_source(sources.drop_first())
    }
}

/// The first `max_characters_count` characters of `s`; all of `s` where it
/// is not longer. Characters are Unicode scalar values, never split.
pub fn truncate(s: &str, max_characters_count: usize) -> (r: String)
    ensures
        r@ == truncate_spec(s@, max_characters_count as nat),
        s@.len() > max_characters_count ==> r@.len() == max_characters_count,
        s@.len() <= max_characters_count ==> r@ == s@,
        r@ == s@.take(r@.len() as int),
{
    let c = chars_of(s);
    if c.len() <= max_characters_count {
        assert(c@.take(c@.len() as int) =~= c@);
        string_of(c.as_slice())
    } else {
        let r = string_of(&c.as_slice()[0..max_characters_count]);
        assert(r@ =~= s@.take(max_characters_count as int));
        r
    }
}

/// Removing the first `i` characters that are no terminators shortens the
/// first sentence by `i`.
proof fn lemma_sentence_len_skip(s: Seq<char>, i: int)
    requires
        0 <= i <= s.len(),
        forall|j: int| 0 <= j < i ==> s[j] != TERMINATOR,
    ensures
        sentence_len(s) == i + sentence_len(s.skip(i)),
    decreases i,
{
    if i > 0 {
        assert(s[0] != TERMINATOR);
        assert forall|j: int| 0 <= j < i - 1 implies s.drop_first()[j] != TERMINATOR by {
            assert(s.drop_first()[j] == s[j + 1]);
        }
        lemma_sentence_len_skip(s.drop_first(), i - 1);
        assert(s.drop_first().skip(i - 1) =~= s.skip(i));
    } else {
        assert(s.skip(0) =~= s);
    }
}

/// The first sentence of `s`, terminator included.
fn first_sentence_of(s: &str) -> (r: String)
    ensures
        r@ == first_sentence(s@),
{
    let c = chars_of(s);
    let mut i: usize = 0;
    while i < c.len() && c[i] != TERMINATOR
        invariant
            i <= c@.len(),
            forall|j: int| 0 <= j < i ==> c@[j] != TERMINATOR,
        decreases c.len() - i,
    {
        i = i + 1;
    }
    proof {
        lemma_sentence_len_skip(c@, i as int);
    }
    if i < c.len() {
        assert(c@.skip(i as int)[0] == TERMINATOR);
        string_of(&c.as_slice()[0..i + 1])
    } else {
        string_of(c.as_slice())
    }
}

/// The summary of a page whose paragraphs, in the order given, hold the texts
/// `paragraphs`; `None` where all of them are empty.
pub fn summarize(paragraphs: &Vec<String>) -> (r: Option<String>)
    ensures
        opt_view(r) == summary_spec(paragraphs@.map_values(|t: String| t@)),
{
    let ghost texts = paragraphs@.map_values(|t: String| t@);
    let mut i: usize = 0;
    assert(texts.skip(0) =~= texts);
    while i < paragraphs.len()
        invariant
            i <= paragraphs@.len(),
            texts == paragraphs@.map_values(|t: String| t@),
            summary_spec(texts) == summary_spec(texts.skip(i as int)),
        decreases paragraphs.len() - i,
    {
        assert(texts.skip(i as int)[0] == paragraphs@[i as int]@);
        assert(texts.skip(i as int).drop_first() =~= texts.skip(i + 1));
        if !paragraphs[i].as_str().is_empty() {
            let sentence = first_sentence_of(paragraphs[i].as_str());
            return Some(truncate(sentence.as_str(), SUMMARY_LIMIT));
        }
        i = i + 1;
    }
    None
}

/// The first source in `sources`, the `src` attributes of a page's image
/// elements in the order given; `None` where no image declares one.
pub fn first_image_source(sources: &Vec<Option<String>>) -> (r: Option<String>)
    ensures
        opt_view(r) == first_source(sources@.map_values(|o: Option<String>| opt_view(o))),
{
    let ghost srcs = sources@.map_values(|o: Option<String>| opt_view(o));
    let mut i: usize = 0;
    assert(srcs.skip(0) =~= srcs);
    while i < sources.len()
        invariant
            i <= sources@.len(),
            srcs == sources@.map_values(|o: Option<String>| opt_view(o)),
            first_source(srcs) == first_source(srcs.skip(i as int)),
        decreases sources.len() - i,
    {
        assert(srcs.skip(i as int)[0] == opt_view(sources@[i as int]));
        assert(srcs.skip(i as int).drop_first() =~= srcs.skip(i + 1));
        if let Some(src) = &sources[i] {
            return Some(src.clone());
        }
        i = i + 1;
    }
    None
}

/// The texts of the paragraph elements (`* > p`) that scraper finds when it
/// parses `html` as a fragment, each the text nodes under it joined, in the
/// order Html::select yields them (the order the tree's nodes were created).
pub uninterp spec fn paragraph_texts_of(html: Seq<char>) -> Seq<Seq<char>>;

/// Relies on scraper's Html::parse_fragment and Html::select with the
/// selector `* > p`, and on ElementRef::text for the text nodes of each match.
#[verifier::external_body]
fn paragraph_texts(html: &str) -> (r: Vec<String>)
    ensures
        r@.map_values(|t: String| t@) == paragraph_texts_of(html@),
{
    let selector = Selector::parse("* > p").unwrap();
    Html::parse_fragment(html).select(&selector).map(|p| p.text().collect::<Vec<_>>().join("")).collect()
}

/// The `src` attributes of the image elements that scraper finds when it
/// parses `html` as a fragment, in the order Html::select yields them (the
/// order the tree's nodes were created); `None` for an image element
/// without one.
pub uninterp spec fn image_sources_of(html: Seq<char>) -> Seq<Option<Seq<char>>>;

/// Relies on scraper's Html::parse_fragment and Html::select with the
/// selector `img`, and on Element::attr for each match's `src`.
#[verifier::external_body]
fn image_sources(html: &str) -> (r: Vec<Option<String>>)
    ensures
        r@.map_values(|o: Option<String>| opt_view(o)) == image_sources_of(html@),
{
    let selector = Selector::parse("img").unwrap();
    Html::parse_fragment(html).select(&selector).map(|img| img.value().attr("src").map(|s| s.to_string())).collect()
}

/// The summary of rendered HTML: the first sentence of its first non-empty
/// paragraph, at most the summary limit in characters.
pub fn extract_summary(html: &str) -> (r: Option<String>)
    ensures
        opt_view(r) == summary_spec(paragraph_texts_of(html@)),
{
    let texts = paragraph_texts(html);
    summarize(&texts)
}

/// The source of the first image in rendered HTML that declares one.
pub fn extract_image_url(html: &str) -> (r: Option<String>)
    ensures
        opt_view(r) == first_source(image_sources_of(html@)),
{
    let sources = image_sources(html);
    first_image_source(&sources)
}

/// The first sentence is never longer than the text it is taken from.
proof fn lemma_sentence_len_bound(s: Seq<char>)
    ensures
        sentence_len(s) <= s.len(),
    decreases s.len(),
{
    if s.len() > 0 && s[0] != TERMINATOR {
        lemma_sentence_len_bound(s.drop_first());
    }
}

/// Where the first sentence of the first non-empty paragraph is longer than
/// the summary limit, the summary is exactly that paragraph's first
/// `SUMMARY_LIMIT` characters.
pub proof fn lemma_long_sentence_cut(paragraphs: Seq<Seq<char>>, i: int)
    requires
        0 <= i < paragraphs.len(),
        paragraphs[i].len() > 0,
        forall|j: int| 0 <= j < i ==> paragraphs[j].len() == 0,
        first_sentence(paragraphs[i]).len() > SUMMARY_LIMIT,
    ensures
        summary_spec(paragraphs) == Some(paragraphs[i].take(SUMMARY_LIMIT as int)),
        paragraphs[i].take(SUMMARY_LIMIT as int).len() == SUMMARY_LIMIT,
    decreases i,
{
    lemma_sentence_len_bound(paragraphs[i]);
    if i > 0 {
        assert forall|j: int| 0 <= j < i - 1 implies paragraphs.drop_first()[j].len() == 0 by {
            assert(paragraphs.drop_first()[j] == paragraphs[j + 1]);
        }
        assert(paragraphs.drop_first()[i - 1] == paragraphs[i]);
        lemma_long_sentence_cut(paragraphs.drop_first(), i - 1);
    } else {
        let f = first_sentence(paragraphs[0]);
        assert(f.take(SUMMARY_LIMIT as int) =~= paragraphs[0].take(SUMMARY_LIMIT as int));
    }
}

} // verus!
