//! What this library has from the `url` crate. A URL is held as its text; each
//! function here reads the text with `Url::parse` and asks one thing of the
//! parsed URL.

use vstd::prelude::*;
use crate::text::split_on;

verus! {

/// The path of the URL that `Url::parse` reads from `text`, as `Url::path`
/// gives it; `None` where `text` is no absolute URL.
pub uninterp spec fn url_path(text: Seq<char>) -> Option<Seq<char>>;

/// The serialization (`Url::as_str`) of the URL that `Url::parse` reads from
/// `text`; `None` where `text` is no absolute URL.
pub uninterp spec fn url_normal_form(text: Seq<char>) -> Option<Seq<char>>;

/// The serialization of the URL that `Url::parse` reads from `text`, after
/// `Url::set_path` with `path`; `None` where `text` is no absolute URL.
pub uninterp spec fn url_after_set_path(text: Seq<char>, path: Seq<char>) -> Option<Seq<char>>;

/// What a URL text has for path segments.
pub enum UrlSegments {
    /// The text is no absolute URL.
    Invalid,
    /// The URL cannot be a base: its path is one opaque string.
    Opaque,
    /// The `/`-separated segments of the path. There is always at least one.
    Segments(Vec<String>),
}

/// The mathematical reading of [`UrlSegments`].
pub enum UrlSegmentsView {
    Invalid,
    Opaque,
    Segments(Seq<Seq<char>>),
}

impl View for UrlSegments {
    type V = UrlSegmentsView;

    open spec fn view(&self) -> UrlSegmentsView {
        match self {
            UrlSegments::Invalid => UrlSegmentsView::Invalid,
            UrlSegments::Opaque => UrlSegmentsView::Opaque,
            UrlSegments::Segments(parts) => UrlSegmentsView::Segments(crate::text::texts(parts@)),
        }
    }
}

/// The segments of a path as `Url::path_segments` cuts them: a path that
/// starts with `/` is cut at every `/` behind the first; any other path has
/// none.
pub open spec fn segments_of_path(path: Option<Seq<char>>) -> UrlSegmentsView {
    match path {
        None => UrlSegmentsView::Invalid,
        Some(p) => if p.len() > 0 && p[0] == '/' {
            UrlSegmentsView::Segments(split_on(p.skip(1), '/'))
        } else {
            UrlSegmentsView::Opaque
        },
    }
}

/// The longest URL text and the longest path, in bytes, that [`with_path`]
/// takes. The `url` crate keeps positions within a URL as `u32`, and reading
/// a text can make it three times as long, by percent-encoding: with this
/// bound a URL and a new path together stay far below that limit.
pub const MAX_URL_BYTES: usize = 0x0FFF_FFFF;

/// `Url::parse`, then `Url::path`.
#[verifier::external_body]
pub(crate) fn path_of(url: &str) -> (r: Option<String>)
    ensures
        r.is_some() == url_path(url@).is_some(),
        r matches Some(p) ==> Some(p@) == url_path(url@),
{
    match ::url::Url::parse(url) {
        Ok(parsed) => Some(parsed.path().to_string()),
        Err(_) => None,
    }
}

/// `Url::parse`, then `Url::as_str`.
#[verifier::external_body]
pub(crate) fn normal_form(url: &str) -> (r: Option<String>)
    ensures
        r.is_some() == url_normal_form(url@).is_some(),
        r matches Some(p) ==> Some(p@) == url_normal_form(url@),
{
    match ::url::Url::parse(url) {
        Ok(parsed) => Some(parsed.as_str().to_string()),
        Err(_) => None,
    }
}

/// `Url::parse`, then `Url::path_segments`: the path without its leading `/`,
/// cut at every `/`; nothing for a URL whose path does not start with `/`.
#[verifier::external_body]
pub(crate) fn path_segments(url: &str) -> (r: UrlSegments)
    ensures
        r@ == segments_of_path(url_path(url@)),
{
    match ::url::Url::parse(url) {
        Err(_) => UrlSegments::Invalid,
        Ok(parsed) => match parsed.path_segments() {
            None => UrlSegments::Opaque,
            Some(parts) => UrlSegments::Segments(parts.map(|p| p.to_string()).collect()),
        },
    }
}

/// `Url::parse`, then `Url::set_path`, then `Url::as_str`. The bound keeps the
/// new serialization within the `u32` positions of the `url` crate, outside
/// of which `set_path` panics.
#[verifier::external_body]
pub(crate) fn with_path(url: &str, path: &str) -> (r: Option<String>)
    requires
        url.len() <= MAX_URL_BYTES,
        path.len() <= MAX_URL_BYTES,
    ensures
        r.is_some() == url_after_set_path(url@, path@).is_some(),
        r matches Some(p) ==> Some(p@) == url_after_set_path(url@, path@),
{
    match ::url::Url::parse(url) {
        Ok(mut parsed) => {
            parsed.set_path(path);
            Some(parsed.as_str().to_string())
        },
        Err(_) => None,
    }
}

} // verus!
