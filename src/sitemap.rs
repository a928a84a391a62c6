use vstd::prelude::*;

use crate::chars::{chars_of, string_of};

verus! {

/// The origin that every page address starts with.
pub const ORIGIN: &'static str = "https://r7kamura.com";

/// The sitemap of pages at these canonical paths: one absolute address per
/// page, in the given order, separated by line breaks.
pub open spec fn sitemap_spec(paths: Seq<Seq<char>>) -> Seq<char>
    decreases paths.len(),
{
    if paths.len() == 0 {
        Seq::empty()
    } else if paths.len() == 1 {
        ORIGIN@ + paths[0]
    } else {
        sitemap_spec(paths.drop_last()) + seq!['\n'] + ORIGIN@ + paths.last()
    }
}

/// Renders the plain-text sitemap of the pages at `canonical_paths`.
pub fn render(canonical_paths: &Vec<String>) -> (r: String)
    ensures
        r@ == sitemap_spec(canonical_paths@.map_values(|p: String| p@)),
{
    let ghost paths = canonical_paths@.map_values(|p: String| p@);
    let origin = chars_of(ORIGIN);
    let mut out: Vec<char> = Vec::new();
    let mut i: usize = 0;
    assert(paths.take(0) =~= Seq::<Seq<char>>::empty());
    while i < canonical_paths.len()
        invariant
            i <= canonical_paths@.len(),
            paths == canonical_paths@.map_values(|p: String| p@),
            origin@ == ORIGIN@,
            out@ == sitemap_spec(paths.take(i as int)),
        decreases canonical_paths.len() - i,
    {
        assert(paths.take(i + 1).drop_last() =~= paths.take(i as int));
        assert(paths.take(i + 1).last() == canonical_paths@[i as int]@);
        if i > 0 {
            out.push('\n');
        }
        let mut o = origin.clone();
        out.append(&mut o);
        let mut p = chars_of(canonical_paths[i].as_str());
        out.append(&mut p);
        proof {
            if i == 0 {
                assert(out@ =~= sitemap_spec(paths.take(1)));
            } else {
                assert(out@ =~= sitemap_spec(paths.take(i + 1)));
            }
        }
        i = i + 1;
    }
    assert(paths.take(i as int) =~= paths);
    string_of(out.as_slice())
}

} // verus!
