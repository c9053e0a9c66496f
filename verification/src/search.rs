//! What a search sends and what it shows of the answer.

use vstd::prelude::*;
use vstd::string::*;
use crate::text::texts;

verus! {

/// The bytes that stand for themselves in a query: letters, figures and
/// `-`, `.`, `_`, `~`.
pub open spec fn is_unreserved(b: u8) -> bool {
    ||| 0x30 <= b <= 0x39
    ||| 0x41 <= b <= 0x5A
    ||| 0x61 <= b <= 0x7A
    ||| b == 0x2D
    ||| b == 0x2E
    ||| b == 0x5F
    ||| b == 0x7E
}

/// The figure for `n` in base sixteen, with capital letters.
pub open spec fn hex_figure(n: u8) -> char {
    if n < 10 {
        (0x30 + n) as char
    } else {
        (0x41 + n - 10) as char
    }
}

/// `bytes` with every byte that is not unreserved written as `%` and its two
/// figures in base sixteen.
pub open spec fn percent_encoded(bytes: Seq<u8>) -> Seq<char>
    decreases bytes.len(),
{
    if bytes.len() == 0 {
        Seq::empty()
    } else {
        let b = bytes.last();
        let head = percent_encoded(bytes.drop_last());
        if is_unreserved(b) {
            head.push(b as char)
        } else {
            head.push('%').push(hex_figure(b / 16)).push(hex_figure(b % 16))
        }
    }
}

/// Calls `urlencoding::encode`, which goes through the bytes of `data` in
/// UTF-8, keeps the unreserved ones and writes each other as `%` and two
/// capital figures in base sixteen.
#[verifier::external_body]
fn url_encode(data: &str) -> (out: String)
    ensures
        out@ == percent_encoded(data.spec_bytes()),
{
    urlencoding::encode(data).into_owned()
}

/// The query that asks for `text`.
pub open spec fn query_for(text: Seq<char>) -> Seq<char> {
    "q="@ + percent_encoded(vstd::utf8::encode_utf8(text))
}

/// Builds the query that asks the server for `text`.
pub fn search_query(text: &str) -> (query: String)
    ensures
        query@ == query_for(text@),
{
    let mut query = "q=".to_owned();
    query.append(url_encode(text).as_str());
    query
}

/// What `html_escape` makes of `text` when it replaces the character
/// references of HTML in it by the characters that they stand for.
pub uninterp spec fn html_decoded(text: Seq<char>) -> Seq<char>;

/// Calls `html_escape::decode_html_entities` on `text`. Nothing is claimed of
/// the result but that it depends on `text` alone.
#[verifier::external_body]
fn decode_html(text: &str) -> (out: String)
    ensures
        out@ == html_decoded(text@),
{
    html_escape::decode_html_entities(text).into_owned()
}

/// The suggestions `raw` as they are shown: each with its character
/// references replaced.
pub fn decoded_suggestions(raw: &Vec<String>) -> (shown: Vec<String>)
    ensures
        shown@.len() == raw@.len(),
        forall|i: int| 0 <= i < raw@.len() ==> #[trigger] shown@[i]@ == html_decoded(raw@[i]@),
{
    let mut shown: Vec<String> = Vec::new();
    let mut i: usize = 0;
    while i < raw.len()
        invariant
            i <= raw.len(),
            shown@.len() == i,
            forall|j: int| 0 <= j < i ==> #[trigger] shown@[j]@ == html_decoded(raw@[j]@),
        decreases raw.len() - i,
    {
        shown.push(decode_html(raw[i].as_str()));
        i = i + 1;
    }
    shown
}

/// The texts `items` in one line, each with `, ` before it.
pub open spec fn listed(items: Seq<Seq<char>>) -> Seq<char>
    decreases items.len(),
{
    if items.len() == 0 {
        Seq::empty()
    } else {
        listed(items.drop_last()) + ", "@ + items.last()
    }
}

/// Writes the suggestions `shown` in one line.
pub fn suggestions_line(shown: &Vec<String>) -> (line: String)
    ensures
        line@ == listed(texts(shown@)),
{
    let mut line = String::new();
    let mut i: usize = 0;
    assert(texts(shown@).take(0) =~= Seq::<Seq<char>>::empty());
    while i < shown.len()
        invariant
            i <= shown.len(),
            line@ == listed(texts(shown@).take(i as int)),
        decreases shown.len() - i,
    {
        assert(texts(shown@).take(i + 1).drop_last() =~= texts(shown@).take(i as int));
        line.append(", ");
        line.append(shown[i].as_str());
        i = i + 1;
    }
    assert(texts(shown@).take(i as int) =~= texts(shown@));
    line
}

} // verus!
