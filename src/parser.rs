use vstd::prelude::*;

use crate::chars::chars_of;
use crate::extract::{
    extract_image_url, extract_summary, first_source, image_sources_of, opt_view,
    paragraph_texts_of, summary_spec,
};
use crate::frontmatter::{
    delimiter, find_delimiter, frontmatter_spec, lemma_split_document, title_key, title_of,
    yaml_fields_of, Error,
};
use crate::markdown::{parse_markdown, rendered_html};

verus! {

/// What a document renders to.
#[derive(Debug)]
pub struct Data {
    pub title: String,
    pub html_body: String,
    pub image_url: Option<String>,
    pub summary: Option<String>,
}

/// The text that a `title` field left empty decodes to.
pub open spec fn empty_sentinel() -> Seq<char> {
    seq!['~']
}

/// The title to show for a decoded title: the empty-field sentinel shows as
/// no text at all.
pub open spec fn normalized_title(title: Seq<char>) -> Seq<char> {
    if title == empty_sentinel() {
        Seq::empty()
    } else {
        title
    }
}

/// `d` is what a document with this decoded title and this body renders to.
pub open spec fn renders_to(d: Data, title: Seq<char>, body: Seq<char>) -> bool {
    &&& d.title@ == normalized_title(title)
    &&& d.html_body@ == rendered_html(body)
    &&& opt_view(d.summary) == summary_spec(paragraph_texts_of(rendered_html(body)))
    &&& opt_view(d.image_url) == first_source(image_sources_of(rendered_html(body)))
}

fn normalize_title(title: String) -> (r: String)
    ensures
        r@ == normalized_title(title@),
{
    let c = chars_of(title.as_str());
    if c.len() == 1 && c[0] == '~' {
        assert(c@ =~= empty_sentinel());
        String::new()
    } else {
        proof {
            if title@ == empty_sentinel() {
                assert(c@[0] == '~');
            }
        }
        title
    }
}

/// Parses a whole document: splits off and decodes its header block, renders
/// its body, and takes summary and image from the rendered HTML.
pub fn parse(content: &str) -> (r: Result<Data, Error>)
    ensures
        match r {
            Ok(d) => {
                &&& frontmatter_spec(content@) is Ok
                &&& renders_to(
                    d,
                    frontmatter_spec(content@)->Ok_0.0,
                    frontmatter_spec(content@)->Ok_0.1,
                )
            },
            Err(e) => frontmatter_spec(content@) == Err::<(Seq<char>, Seq<char>), _>(e),
        },
{
    let parsed = match crate::frontmatter::parse(content) {
        Ok(p) => p,
        Err(e) => return Err(e),
    };
    let html_body = parse_markdown(parsed.body.as_str());
    let title = normalize_title(parsed.headers.title);
    let summary = extract_summary(html_body.as_str());
    let image_url = extract_image_url(html_body.as_str());
    Ok(Data { title, html_body, image_url, summary })
}

/// The header block `title:` followed by a line break.
pub open spec fn empty_title_block() -> Seq<char> {
    seq!['t', 'i', 't', 'l', 'e', ':', '\n']
}

/// The delimiter is not found at a position that holds no hyphen.
proof fn lemma_find_skips(s: Seq<char>, from: int)
    requires
        0 <= from,
        from + 4 <= s.len(),
        s[from] != '-',
    ensures
        find_delimiter(s, from) == find_delimiter(s, from + 1),
{
    assert(s.subrange(from, from + 4)[0] == s[from]);
}

/// A document whose header block is `title:` with no value, whatever body
/// follows, parses to an empty title and the rendering of that body as it
/// stands. The one thing assumed is how serde_yaml reads the block: as the
/// single field `title` holding the empty-field sentinel.
pub proof fn lemma_empty_title(body: Seq<char>, d: Data)
    requires
        yaml_fields_of(empty_title_block()) == Some(seq![(title_key(), empty_sentinel())]),
        renders_to(
            d,
            frontmatter_spec(delimiter() + empty_title_block() + delimiter() + body)->Ok_0.0,
            frontmatter_spec(delimiter() + empty_title_block() + delimiter() + body)->Ok_0.1,
        ),
    ensures
        frontmatter_spec(delimiter() + empty_title_block() + delimiter() + body) == Ok::<_, Error>(
            (empty_sentinel(), body),
        ),
        d.title@ == Seq::<char>::empty(),
        d.html_body@ == rendered_html(body),
{
    let block = empty_title_block();
    let s = block + delimiter() + body;
    assert(s.len() >= 11);
    assert(s[0] == block[0]);
    lemma_find_skips(s, 0);
    assert(s[1] == block[1]);
    lemma_find_skips(s, 1);
    assert(s[2] == block[2]);
    lemma_find_skips(s, 2);
    assert(s[3] == block[3]);
    lemma_find_skips(s, 3);
    assert(s[4] == block[4]);
    lemma_find_skips(s, 4);
    assert(s[5] == block[5]);
    lemma_find_skips(s, 5);
    assert(s[6] == block[6]);
    lemma_find_skips(s, 6);
    assert(s.subrange(7, 11) =~= delimiter());
    assert(find_delimiter(s, 7) == Some(7int));
    lemma_split_document(block, body);
    let fields = seq![(title_key(), empty_sentinel())];
    assert(fields[0].0 == title_key());
    assert(title_of(fields) == Ok::<_, Error>(empty_sentinel()));
}

} // verus!
