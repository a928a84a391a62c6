use vstd::prelude::*;

use crate::chars::{chars_of, string_of};
use pulldown_cmark::{html, Event, Options, Parser, Tag};

verus! {

/// Links whose target starts with this prefix point into the marketplace.
pub const MARKETPLACE_PREFIX: &'static str = "https://www.amazon.co.jp/dp/";

/// The query that marks a marketplace link with the site's tracking id.
pub const TRACKING_QUERY: &'static str = "?tag=r7kamuracom-22";

/// `s` starts with `p`.
pub open spec fn has_prefix(s: Seq<char>, p: Seq<char>) -> bool {
    p.len() <= s.len() && s.take(p.len() as int) == p
}

/// A link target as it is emitted: a marketplace target gains the tracking
/// query; any other target is kept as it is.
pub open spec fn tracked_url_spec(url: Seq<char>) -> Seq<char> {
    if has_prefix(url, MARKETPLACE_PREFIX@) {
        url + TRACKING_QUERY@
    } else {
        url
    }
}

fn starts_with(s: &Vec<char>, p: &Vec<char>) -> (r: bool)
    ensures
        r == has_prefix(s@, p@),
{
    if p.len() > s.len() {
        return false;
    }
    let mut i: usize = 0;
    while i < p.len()
        invariant
            p@.len() <= s@.len(),
            i <= p@.len(),
            forall|j: int| 0 <= j < i ==> s@[j] == p@[j],
        decreases p.len() - i,
    {
        if s[i] != p[i] {
            assert(s@.take(p@.len() as int)[i as int] != p@[i as int]);
            return false;
        }
        i = i + 1;
    }
    assert(s@.take(p@.len() as int) =~= p@);
    true
}

/// The target to emit for a link to `url`.
pub fn tracked_url(url: &str) -> (r: String)
    ensures
        r@ == tracked_url_spec(url@),
        has_prefix(url@, MARKETPLACE_PREFIX@) ==> r@ == url@ + TRACKING_QUERY@,
        !has_prefix(url@, MARKETPLACE_PREFIX@) ==> r@ == url@,
{
    let mut v = chars_of(url);
    let prefix = chars_of(MARKETPLACE_PREFIX);
    if starts_with(&v, &prefix) {
        let mut query = chars_of(TRACKING_QUERY);
        v.append(&mut query);
    }
    string_of(v.as_slice())
}

/// The destinations of the links that pulldown-cmark finds in a Markdown
/// body (strikethrough on), in the order their start events come.
pub uninterp spec fn link_targets_of(body: Seq<char>) -> Seq<Seq<char>>;

/// The HTML that pulldown-cmark renders from a Markdown body (strikethrough
/// on), where the destination of the i-th link is replaced by `targets[i]`
/// (and kept where `targets` has no i-th entry). Nothing else is changed:
/// image sources and text are rendered as the body has them.
pub uninterp spec fn html_with_targets(body: Seq<char>, targets: Seq<Seq<char>>) -> Seq<char>;

/// The views of a list of strings.
pub open spec fn texts_view(v: Seq<String>) -> Seq<Seq<char>> {
    v.map_values(|t: String| t@)
}

/// The HTML a body renders to: every link target passes through
/// `tracked_url_spec`, all else is pulldown-cmark's rendering.
pub open spec fn rendered_html(body: Seq<char>) -> Seq<char> {
    html_with_targets(body, link_targets_of(body).map_values(|u: Seq<char>| tracked_url_spec(u)))
}

/// Relies on pulldown_cmark's Parser::new_ext (strikethrough on): the
/// destination of each Tag::Link start event, in the order of the events.
#[verifier::external_body]
fn link_targets(body: &str) -> (r: Vec<String>)
    ensures
        texts_view(r@) == link_targets_of(body@),
{
    let mut options = Options::empty();
    options.insert(Options::ENABLE_STRIKETHROUGH);
    Parser::new_ext(body, options).filter_map(|event| match event {
        Event::Start(Tag::Link(_, url, _)) => Some(url.to_string()),
        _ => None,
    }).collect()
}

/// Relies on pulldown_cmark's Parser::new_ext (strikethrough on) and
/// html::push_html, with the destination of each Tag::Link start event
/// taken in turn from `targets`.
#[verifier::external_body]
fn render_with_targets(body: &str, targets: &Vec<String>) -> (r: String)
    ensures
        r@ == html_with_targets(body@, texts_view(targets@)),
{
    let mut options = Options::empty();
    options.insert(Options::ENABLE_STRIKETHROUGH);
    let mut next_target = targets.iter();
    let events = Parser::new_ext(body, options).map(|event| match event {
        Event::Start(Tag::Link(kind, url, title)) => {
            Event::Start(Tag::Link(kind, next_target.next().map_or(url, |t| t.clone().into()), title))
        },
        other => other,
    });
    let mut out = String::new();
    html::push_html(&mut out, events);
    out
}

/// Renders a Markdown body to HTML; each link target passes through
/// `tracked_url`, so a marketplace link gains the tracking query and every
/// other link keeps its target.
pub fn parse_markdown(content: &str) -> (r: String)
    ensures
        r@ == rendered_html(content@),
        r@ == html_with_targets(
            content@,
            link_targets_of(content@).map_values(|u: Seq<char>| tracked_url_spec(u)),
        ),
{
    let targets = link_targets(content);
    let ghost found = texts_view(targets@);
    let mut tagged: Vec<String> = Vec::new();
    let mut i: usize = 0;
    while i < targets.len()
        invariant
            i <= targets@.len(),
            tagged@.len() == i,
            found == texts_view(targets@),
            found == link_targets_of(content@),
            texts_view(tagged@) == found.take(i as int).map_values(
                |u: Seq<char>| tracked_url_spec(u),
            ),
        decreases targets.len() - i,
    {
        let t = tracked_url(targets[i].as_str());
        let ghost before = tagged@;
        tagged.push(t);
        proof {
            assert(found[i as int] == targets@[i as int]@);
            assert(tagged@ == before.push(t));
            let want = found.take(i + 1).map_values(|u: Seq<char>| tracked_url_spec(u));
            let had = found.take(i as int).map_values(|u: Seq<char>| tracked_url_spec(u));
            assert forall|j: int| 0 <= j <= i implies texts_view(tagged@)[j] == want[j] by {
                if j < i {
                    assert(tagged@[j] == before[j]);
                    assert(texts_view(before)[j] == had[j]);
                } else {
                    assert(tagged@[j] == t);
                }
            }
            assert(texts_view(tagged@) =~= want);
        }
        i = i + 1;
    }
    assert(found.take(i as int) =~= found);
    render_with_targets(content, &tagged)
}

} // verus!
