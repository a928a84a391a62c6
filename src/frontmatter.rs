use vstd::prelude::*;

use crate::chars::{chars_of, string_of};

verus! {

/// Why a document could not be split into header block and body, or its
/// header block could not be decoded.
#[derive(Debug, Clone, Copy, PartialEq, Eq, Structural)]
pub enum Error {
    /// The text does not start with the delimiter line.
    MissingBeginningLine,
    /// No second delimiter follows the first one.
    MissingEndingLine,
    /// The header block does not declare the required `title` field.
    MissingField,
    /// The header block is not a mapping of plain values, or it declares a
    /// field other than `title`.
    SchemaViolation,
}

/// The delimiter line `---\n`.
pub open spec fn delimiter() -> Seq<char> {
    seq!['-', '-', '-', '\n']
}

/// The delimiter stands in `s` at position `k`.
pub open spec fn delimiter_at(s: Seq<char>, k: int) -> bool {
    0 <= k && k + 4 <= s.len() && s.subrange(k, k + 4) == delimiter()
}

/// The first position at or after `from` where the delimiter stands, if any.
pub open spec fn find_delimiter(s: Seq<char>, from: int) -> Option<int>
    decreases s.len() - from,
{
    if from < 0 || from + 4 > s.len() {
        None
    } else if delimiter_at(s, from) {
        Some(from)
    } else {
        find_delimiter(s, from + 1)
    }
}

/// Header block and body of `text`: the text must open with the delimiter
/// line; the header block runs up to the next occurrence of the delimiter
/// (anywhere, not only at a line start) and the body is what follows it.
pub open spec fn split_spec(text: Seq<char>) -> Result<(Seq<char>, Seq<char>), Error> {
    if !delimiter_at(text, 0) {
        Err(Error::MissingBeginningLine)
    } else {
        let rest = text.skip(4);
        match find_delimiter(rest, 0) {
            None => Err(Error::MissingEndingLine),
            Some(k) => Ok((rest.take(k), rest.skip(k + 4))),
        }
    }
}

fn delimiter_at_exec(s: &Vec<char>, k: usize) -> (r: bool)
    ensures
        r == delimiter_at(s@, k as int),
{
    if k > s.len() || s.len() - k < 4 {
        return false;
    }
    let r = s[k] == '-' && s[k + 1] == '-' && s[k + 2] == '-' && s[k + 3] == '\n';
    proof {
        if r {
            assert(s@.subrange(k as int, k + 4) =~= delimiter());
        } else if delimiter_at(s@, k as int) {
            assert(s@.subrange(k as int, k + 4)[0] == s@[k as int]);
            assert(s@.subrange(k as int, k + 4)[1] == s@[k + 1]);
            assert(s@.subrange(k as int, k + 4)[2] == s@[k + 2]);
            assert(s@.subrange(k as int, k + 4)[3] == s@[k + 3]);
        }
    }
    r
}

/// Splits `text` into its header block and its body.
pub fn split(text: &str) -> (r: Result<(String, String), Error>)
    ensures
        match r {
            Ok((h, b)) => split_spec(text@) == Ok::<_, Error>((h@, b@)),
            Err(e) => split_spec(text@) == Err::<(Seq<char>, Seq<char>), _>(e),
        },
{
    let s = chars_of(text);
    if !delimiter_at_exec(&s, 0) {
        return Err(Error::MissingBeginningLine);
    }
    let ghost rest = s@.skip(4);
    let n = s.len();
    let mut k: usize = 4;
    while n - k >= 4
        invariant
            4 <= k <= n,
            n == s@.len(),
            s@ == text@,
            delimiter_at(text@, 0),
            rest == s@.skip(4),
            find_delimiter(rest, 0) == find_delimiter(rest, k - 4),
        decreases n - k,
    {
        if delimiter_at_exec(&s, k) {
            assert(rest.subrange(k - 4, k as int) =~= s@.subrange(k as int, k + 4));
            assert(delimiter_at(rest, k - 4));
            assert(find_delimiter(rest, k - 4) == Some(k - 4));
            let header = string_of(&s.as_slice()[4..k]);
            let body = string_of(&s.as_slice()[k + 4..n]);
            assert(header@ =~= rest.take(k - 4));
            assert(body@ =~= rest.skip(k as int));
            return Ok((header, body));
        }
        assert(rest.subrange(k - 4, k as int) =~= s@.subrange(k as int, k + 4));
        assert(!delimiter_at(rest, k - 4));
        assert(find_delimiter(rest, k - 4) == find_delimiter(rest, k - 3));
        k = k + 1;
    }
    assert(find_delimiter(rest, k - 4) == None::<int>);
    Err(Error::MissingEndingLine)
}

/// The entries that serde_yaml reads from `s` as a mapping of field names to
/// text values, in ascending order of name; `None` where it cannot read `s`
/// that way.
pub uninterp spec fn yaml_fields_of(s: Seq<char>) -> Option<Seq<(Seq<char>, Seq<char>)>>;

/// The entries of `v` as pairs of character sequences.
pub open spec fn entries_view(v: Seq<(String, String)>) -> Seq<(Seq<char>, Seq<char>)> {
    v.map_values(|p: (String, String)| (p.0@, p.1@))
}

/// Relies on serde_yaml::from_str, reading a YAML mapping into a
/// BTreeMap<String, String> (a field left empty reads as the text "~").
#[verifier::external_body]
fn yaml_fields(s: &str) -> (r: Option<Vec<(String, String)>>)
    ensures
        match r {
            Some(v) => yaml_fields_of(s@) == Some(entries_view(v@)),
            None => yaml_fields_of(s@) is None,
        },
{
    serde_yaml::from_str::<std::collections::BTreeMap<String, String>>(s).ok().map(
        |m| m.into_iter().collect(),
    )
}

/// The name of the one field a header block declares.
pub open spec fn title_key() -> Seq<char> {
    seq!['t', 'i', 't', 'l', 'e']
}

/// The decoded headers of a document.
#[derive(Debug)]
pub struct Headers {
    pub title: String,
}

/// The title that decoded entries give: `title` must be among the field
/// names, and no other name may occur.
pub open spec fn title_of(fields: Seq<(Seq<char>, Seq<char>)>) -> Result<Seq<char>, Error> {
    if !(exists|i: int| 0 <= i < fields.len() && fields[i].0 == title_key()) {
        Err(Error::MissingField)
    } else if exists|i: int| 0 <= i < fields.len() && fields[i].0 != title_key() {
        Err(Error::SchemaViolation)
    } else {
        Ok(fields[0].1)
    }
}

/// The title that a header block decodes to. An empty block declares no
/// field at all.
pub open spec fn headers_spec(block: Seq<char>) -> Result<Seq<char>, Error> {
    if block.len() == 0 {
        Err(Error::MissingField)
    } else {
        match yaml_fields_of(block) {
            None => Err(Error::SchemaViolation),
            Some(fields) => title_of(fields),
        }
    }
}

fn is_title_key(k: &String) -> (r: bool)
    ensures
        r == (k@ == title_key()),
{
    let c = chars_of(k.as_str());
    let r = c.len() == 5 && c[0] == 't' && c[1] == 'i' && c[2] == 't' && c[3] == 'l' && c[4]
        == 'e';
    proof {
        if r {
            assert(c@ =~= title_key());
        } else if k@ == title_key() {
            assert(c@[0] == 't' && c@[1] == 'i' && c@[2] == 't' && c@[3] == 'l' && c@[4] == 'e');
        }
    }
    r
}

fn title_from_fields(fields: &Vec<(String, String)>) -> (r: Result<String, Error>)
    ensures
        match r {
            Ok(t) => title_of(entries_view(fields@)) == Ok::<_, Error>(t@),
            Err(e) => title_of(entries_view(fields@)) == Err::<Seq<char>, _>(e),
        },
{
    let ghost ev = entries_view(fields@);
    let mut has_title = false;
    let mut other = false;
    let mut i: usize = 0;
    while i < fields.len()
        invariant
            i <= fields@.len(),
            ev == entries_view(fields@),
            ev.len() == fields@.len(),
            has_title == (exists|j: int| 0 <= j < i && ev[j].0 == title_key()),
            other == (exists|j: int| 0 <= j < i && ev[j].0 != title_key()),
        decreases fields.len() - i,
    {
        let t = is_title_key(&fields[i].0);
        assert(ev[i as int].0 == fields@[i as int].0@);
        if t {
            has_title = true;
        } else {
            other = true;
        }
        i = i + 1;
    }
    if !has_title {
        Err(Error::MissingField)
    } else if other {
        Err(Error::SchemaViolation)
    } else {
        Ok(fields[0].1.clone())
    }
}

/// Decodes a header block. A block that declares `title` and nothing else
/// gives that field's text; `title:` with no value gives "~".
pub fn decode(block: &str) -> (r: Result<Headers, Error>)
    ensures
        match r {
            Ok(h) => headers_spec(block@) == Ok::<_, Error>(h.title@),
            Err(e) => headers_spec(block@) == Err::<Seq<char>, _>(e),
        },
{
    if block.is_empty() {
        return Err(Error::MissingField);
    }
    match yaml_fields(block) {
        None => Err(Error::SchemaViolation),
        Some(fields) => match title_from_fields(&fields) {
            Ok(title) => Ok(Headers { title }),
            Err(e) => Err(e),
        },
    }
}

/// A document split and decoded: its headers and the body that follows them.
#[derive(Debug)]
pub struct Parsed {
    pub body: String,
    pub headers: Headers,
}

/// Title and body of a whole document, or the first error met on the way.
pub open spec fn frontmatter_spec(text: Seq<char>) -> Result<(Seq<char>, Seq<char>), Error> {
    match split_spec(text) {
        Err(e) => Err(e),
        Ok((block, body)) => match headers_spec(block) {
            Err(e) => Err(e),
            Ok(title) => Ok((title, body)),
        },
    }
}

/// Splits `text` into header block and body, and decodes the header block.
pub fn parse(text: &str) -> (r: Result<Parsed, Error>)
    ensures
        match r {
            Ok(p) => frontmatter_spec(text@) == Ok::<_, Error>((p.headers.title@, p.body@)),
            Err(e) => frontmatter_spec(text@) == Err::<(Seq<char>, Seq<char>), _>(e),
        },
{
    match split(text) {
        Err(e) => Err(e),
        Ok((block, body)) => match decode(block.as_str()) {
            Err(e) => Err(e),
            Ok(headers) => Ok(Parsed { body, headers }),
        },
    }
}

/// A text that does not open with the delimiter line is refused for its
/// missing first delimiter.
pub proof fn lemma_missing_opening(text: Seq<char>)
    requires
        !(text.len() >= 4 && text.take(4) == delimiter()),
    ensures
        frontmatter_spec(text) == Err::<(Seq<char>, Seq<char>), _>(Error::MissingBeginningLine),
{
    if delimiter_at(text, 0) {
        assert(text.take(4) =~= text.subrange(0, 4));
    }
}

/// The delimiter line alone, with nothing after it, is refused for its
/// missing second delimiter.
pub proof fn lemma_opening_alone()
    ensures
        frontmatter_spec(delimiter()) == Err::<(Seq<char>, Seq<char>), _>(Error::MissingEndingLine),
{
    assert(delimiter().subrange(0, 4) =~= delimiter());
    assert(delimiter().skip(4).len() == 0);
}

/// An empty header block (two delimiter lines in a row) declares no title,
/// whatever body follows.
pub proof fn lemma_empty_header_block(body: Seq<char>)
    ensures
        frontmatter_spec(delimiter() + delimiter() + body) == Err::<(Seq<char>, Seq<char>), _>(
            Error::MissingField,
        ),
{
    let text = delimiter() + delimiter() + body;
    assert(text.subrange(0, 4) =~= delimiter());
    let rest = text.skip(4);
    assert(rest.subrange(0, 4) =~= delimiter());
    assert(find_delimiter(rest, 0) == Some(0int));
    assert(rest.take(0).len() == 0);
}

/// A document made of a header block and a body, where the block holds no
/// delimiter of its own, splits back into that block and that body.
pub proof fn lemma_split_document(block: Seq<char>, body: Seq<char>)
    requires
        find_delimiter(block + delimiter() + body, 0) == Some(block.len() as int),
    ensures
        split_spec(delimiter() + block + delimiter() + body) == Ok::<_, Error>((block, body)),
{
    let text = delimiter() + block + delimiter() + body;
    assert(text.subrange(0, 4) =~= delimiter());
    let rest = text.skip(4);
    assert(rest =~= block + delimiter() + body);
    assert(rest.take(block.len() as int) =~= block);
    assert(rest.skip(block.len() as int + 4) =~= body);
}

} // verus!
