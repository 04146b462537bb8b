use vstd::prelude::*;

verus! {

/// The text of an input line without its line ending: a final `"\n"` is
/// dropped, and then a `"\r"` that stood before it.
pub open spec fn content_of(raw: Seq<char>) -> Seq<char> {
    if raw.len() > 0 && raw.last() == '\n' {
        let t = raw.drop_last();
        if t.len() > 0 && t.last() == '\r' {
            t.drop_last()
        } else {
            t
        }
    } else {
        raw
    }
}

/// What parsing a text as an absolute URL gives: the URL in its serialized
/// form, or nothing where the text is no URL.
pub uninterp spec fn parsed_url(text: Seq<char>) -> Option<Seq<char>>;

/// The URL that an input line asks to probe: none for an empty line or one
/// that does not parse.
pub open spec fn line_target(raw: Seq<char>) -> Option<Seq<char>> {
    let t = content_of(raw);
    if t.len() == 0 {
        None
    } else {
        parsed_url(t)
    }
}

/// Relies on `url::Url::parse` (re-exported as `reqwest::Url`), which either
/// fails or gives a URL that depends on the text alone; the URL is handed on
/// in its serialization (`From<Url> for String`).
#[verifier::external_body]
fn parse_url(text: &str) -> (r: Option<String>)
    ensures
        r.deep_view() == parsed_url(text@),
{
    match reqwest::Url::parse(text) {
        Ok(u) => Some(String::from(u)),
        Err(_) => None,
    }
}

/// The line as `BufRead::lines` hands it out: without its line ending.
pub fn line_content(raw: &str) -> (r: &str)
    ensures
        r@ == content_of(raw@),
{
    let len = raw.unicode_len();
    if len > 0 && raw.get_char(len - 1) == '\n' {
        if len > 1 && raw.get_char(len - 2) == '\r' {
            raw.substring_char(0, len - 2)
        } else {
            raw.substring_char(0, len - 1)
        }
    } else {
        raw
    }
}

/// The URL to request for an input line, if the line names one.
pub fn probe_target(raw: &str) -> (r: Option<String>)
    ensures
        r.deep_view() == line_target(raw@),
{
    let t = line_content(raw);
    if t.unicode_len() == 0 {
        None
    } else {
        parse_url(t)
    }
}

} // verus!
