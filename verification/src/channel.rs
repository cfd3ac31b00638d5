//! The channel resolver: from the download URL of a binary package to the
//! URL of the channel that it came from.
//!
//! A package lies at `<channel>/<subdir>/<file name>`, so the channel is the
//! URL without the last two segments of its path.

use vstd::prelude::*;
use crate::text::{
    byte_len, ends_with, ends_with_char, join_prefix, joined, ok_text, some_text, split_on,
};
use crate::url::{
    normal_form, path_of, path_segments, url_after_set_path, url_normal_form, url_path,
    segments_of_path, with_path, UrlSegments, UrlSegmentsView, MAX_URL_BYTES,
};

verus! {

/// Why a URL names no channel.
#[derive(Debug, Clone, Copy, PartialEq, Eq, Structural)]
pub enum ChannelError {
    /// The text is no absolute URL.
    InvalidUrl,
    /// The URL is not hierarchical: it cannot be a base.
    NotHierarchical,
    /// The path has fewer than two segments.
    TooFewSegments,
    /// The URL or its channel path is longer than [`MAX_URL_BYTES`].
    TooLong,
}

/// The separator of path segments, as a sequence.
pub open spec fn slash() -> Seq<char> {
    seq!['/']
}

/// The segments of the channel: all but the last two.
pub open spec fn channel_segments(segments: Seq<Seq<char>>) -> Seq<Seq<char>> {
    segments.take(segments.len() - 2)
}

/// The path of the channel of a package whose URL has `segments`.
pub open spec fn channel_path(segments: UrlSegmentsView) -> Result<Seq<char>, ChannelError> {
    match segments {
        UrlSegmentsView::Invalid => Err(ChannelError::InvalidUrl),
        UrlSegmentsView::Opaque => Err(ChannelError::NotHierarchical),
        UrlSegmentsView::Segments(parts) => if parts.len() >= 2 {
            Ok(joined(channel_segments(parts), slash()))
        } else {
            Err(ChannelError::TooFewSegments)
        },
    }
}

/// The URL of `text` without the last two segments of its path.
pub open spec fn without_last_two_segments(text: Seq<char>) -> Result<Seq<char>, ChannelError> {
    match channel_path(segments_of_path(url_path(text))) {
        Err(e) => Err(e),
        Ok(path) => if byte_len(text) > MAX_URL_BYTES || byte_len(path) > MAX_URL_BYTES {
            Err(ChannelError::TooLong)
        } else {
            match url_after_set_path(text, path) {
                Some(base) => Ok(base),
                None => Err(ChannelError::InvalidUrl),
            }
        },
    }
}

/// The URL of `text` with a path that ends in `/`: unchanged where it does
/// so already, else with `/` added to the path.
pub open spec fn with_trailing_slash(text: Seq<char>) -> Option<Seq<char>> {
    match url_path(text) {
        None => None,
        Some(path) => if ends_with(path, '/') {
            url_normal_form(text)
        } else {
            url_after_set_path(text, path.push('/'))
        },
    }
}

/// The channel that the package at `text` came from.
pub open spec fn channel_of_package(text: Seq<char>) -> Option<Seq<char>> {
    match without_last_two_segments(text) {
        Err(_) => None,
        Ok(base) => if byte_len(base) > MAX_URL_BYTES {
            None
        } else {
            with_trailing_slash(base)
        },
    }
}

/// `ChannelUrl::from` on the URL that `Url::parse` reads from `url`, then
/// `ChannelUrl::as_str`: the URL itself where its path ends in `/`, else the
/// URL after `set_path` with the path and a `/` behind it. The bound is that
/// of `set_path`.
#[verifier::external_body]
fn channel_url(url: &str) -> (r: Option<String>)
    requires
        url.len() <= MAX_URL_BYTES,
    ensures
        some_text(r) == with_trailing_slash(url@),
{
    match ::url::Url::parse(url) {
        Ok(parsed) => Some(rattler_conda_types::ChannelUrl::from(parsed).as_str().to_string()),
        Err(_) => None,
    }
}

/// The path of the channel, from the path segments of a package's URL.
pub fn parent_path(segments: &UrlSegments) -> (r: Result<String, ChannelError>)
    ensures
        ok_text(r) == channel_path(segments@),
{
    match segments {
        UrlSegments::Invalid => Err(ChannelError::InvalidUrl),
        UrlSegments::Opaque => Err(ChannelError::NotHierarchical),
        UrlSegments::Segments(parts) => {
            if parts.len() >= 2 {
                proof {
                    reveal_strlit("/");
                    assert("/"@ =~= slash());
                }
                Ok(join_prefix(parts, parts.len() - 2, "/"))
            } else {
                Err(ChannelError::TooFewSegments)
            }
        },
    }
}

/// Removes the last two segments of the path of a URL.
///
/// Fails where the text is no URL, where the URL is not hierarchical, where
/// its path has fewer than two segments, and where it is too long for the
/// path to be set.
pub fn remove_last_two_segments(url: &str) -> (r: Result<String, ChannelError>)
    ensures
        ok_text(r) == without_last_two_segments(url@),
{
    let segments = path_segments(url);
    match parent_path(&segments) {
        Err(e) => Err(e),
        Ok(path) => {
            if url.len() > MAX_URL_BYTES || path.as_str().len() > MAX_URL_BYTES {
                Err(ChannelError::TooLong)
            } else {
                match with_path(url, path.as_str()) {
                    Some(base) => Ok(base),
                    None => Err(ChannelError::InvalidUrl),
                }
            }
        },
    }
}

/// The URL of the channel that a package came from, or `None` where its URL
/// names none. A channel URL always ends in `/`.
pub fn get_channel_url_from_package_url(url: &str) -> (r: Option<String>)
    ensures
        some_text(r) == channel_of_package(url@),
{
    match remove_last_two_segments(url) {
        Err(_) => None,
        Ok(base) => {
            if base.as_str().len() > MAX_URL_BYTES {
                None
            } else {
                channel_url(base.as_str())
            }
        },
    }
}

/// The URL of a package index with a path that ends in `/`: `None` where
/// the text is no absolute URL, or where the text or the longer path would
/// pass [`MAX_URL_BYTES`].
pub open spec fn normalized_index_url(text: Seq<char>) -> Option<Seq<char>> {
    if byte_len(text) > MAX_URL_BYTES {
        None
    } else {
        match url_path(text) {
            None => None,
            Some(path) => if ends_with(path, '/') {
                url_normal_form(text)
            } else if byte_len(path.push('/')) > MAX_URL_BYTES {
                None
            } else {
                url_after_set_path(text, path.push('/'))
            },
        }
    }
}

/// Gives the URL of a package index a path that ends in `/`, as pip does.
pub fn normalize_index_url(url: &str) -> (r: Option<String>)
    ensures
        some_text(r) == normalized_index_url(url@),
{
    if url.len() > MAX_URL_BYTES {
        return None;
    }
    match path_of(url) {
        None => None,
        Some(path) => {
            if ends_with_char(path.as_str(), '/') {
                normal_form(url)
            } else {
                let ghost short = path@;
                let mut longer = path;
                longer.append("/");
                proof {
                    reveal_strlit("/");
                    assert(longer@ =~= short.push('/'));
                }
                if longer.as_str().len() > MAX_URL_BYTES {
                    None
                } else {
                    with_path(url, longer.as_str())
                }
            }
        },
    }
}

/// Joining more parts only adds to the end: the join of the first `k` parts
/// is a prefix of the join of all of them.
pub proof fn lemma_joined_prefix(parts: Seq<Seq<char>>, sep: Seq<char>, k: int)
    requires
        0 <= k <= parts.len(),
    ensures
        joined(parts.take(k), sep).is_prefix_of(joined(parts, sep)),
        k < parts.len() && k >= 1 ==> joined(parts.take(k), sep).len() + sep.len() <= joined(
            parts,
            sep,
        ).len(),
    decreases parts.len() - k,
{
    if k == parts.len() {
        assert(parts.take(k) =~= parts);
    } else if parts.len() == 1 {
        assert(parts.take(0).len() == 0);
    } else {
        let init = parts.drop_last();
        assert(init.take(k) =~= parts.take(k));
        lemma_joined_prefix(init, sep, k);
        let whole = joined(parts, sep);
        assert(whole == joined(init, sep) + sep + parts.last());
        assert(joined(init, sep).is_prefix_of(whole));
    }
}

/// Cutting a text at every separator and joining the pieces with the
/// separator gives the text back.
pub proof fn lemma_joined_split(s: Seq<char>, sep: char)
    ensures
        split_on(s, sep).len() >= 1,
        joined(split_on(s, sep), seq![sep]) == s,
    decreases s.len(),
{
    if s.len() == 0 {
    } else {
        let init = split_on(s.drop_last(), sep);
        lemma_joined_split(s.drop_last(), sep);
        if s.last() == sep {
            let all = init.push(Seq::empty());
            assert(all.drop_last() =~= init);
            assert(joined(all, seq![sep]) =~= joined(init, seq![sep]) + seq![sep] + Seq::<char>::empty());
            assert(s =~= s.drop_last() + seq![sep]);
        } else {
            let all = init.update(init.len() - 1, init.last().push(s.last()));
            if init.len() == 1 {
                assert(joined(init, seq![sep]) == init[0]);
                assert(joined(all, seq![sep]) == all[0]);
                assert(s =~= s.drop_last().push(s.last()));
            } else {
                assert(all.drop_last() =~= init.drop_last());
                assert(joined(all, seq![sep]) == joined(init.drop_last(), seq![sep]) + seq![sep]
                    + all.last());
                assert(joined(init, seq![sep]) == joined(init.drop_last(), seq![sep]) + seq![sep]
                    + init.last());
                assert(s =~= s.drop_last().push(s.last()));
                assert(joined(all, seq![sep]) =~= joined(init, seq![sep]).push(s.last()));
            }
        }
    }
}

/// A URL whose path has two segments or more has a channel path, and the
/// segments of that path are those of the package without the last two: a
/// strict prefix, shorter by exactly two.
pub proof fn lemma_channel_segments_are_a_strict_prefix(parts: Seq<Seq<char>>)
    requires
        parts.len() >= 2,
    ensures
        channel_path(UrlSegmentsView::Segments(parts)) == Ok::<Seq<char>, ChannelError>(
            joined(channel_segments(parts), slash()),
        ),
        channel_segments(parts).len() + 2 == parts.len(),
        channel_segments(parts).is_prefix_of(parts),
{
}

/// The path of the channel is a strict prefix of the path of the package.
pub proof fn lemma_channel_path_is_a_strict_prefix(parts: Seq<Seq<char>>)
    requires
        parts.len() >= 2,
    ensures
        joined(channel_segments(parts), slash()).is_prefix_of(joined(parts, slash())),
        joined(channel_segments(parts), slash()).len() < joined(parts, slash()).len(),
{
    let k = parts.len() - 2;
    lemma_joined_prefix(parts, slash(), k);
    if k == 0 {
        assert(joined(parts.take(0), slash()).len() == 0);
        assert(joined(parts, slash()) == joined(parts.drop_last(), slash()) + slash()
            + parts.last());
    }
}

/// For a URL whose path has two segments or more, the path of the channel is
/// a strict prefix of the path of the package (each without the leading `/`).
pub proof fn lemma_channel_path_within_package_path(path: Seq<char>)
    requires
        segments_of_path(Some(path)) matches UrlSegmentsView::Segments(parts) && parts.len() >= 2,
    ensures
        channel_path(segments_of_path(Some(path))) matches Ok(channel) && channel.is_prefix_of(
            path.skip(1),
        ) && channel.len() < path.skip(1).len(),
{
    let parts = split_on(path.skip(1), '/');
    lemma_joined_split(path.skip(1), '/');
    lemma_channel_path_is_a_strict_prefix(parts);
}

/// A URL whose path has fewer than two segments, or none at all, has no
/// channel: resolution reports that the channel is unknown.
pub proof fn lemma_short_paths_have_no_channel(text: Seq<char>)
    requires
        segments_of_path(url_path(text)) matches UrlSegmentsView::Segments(parts) ==> parts.len()
            < 2,
    ensures
        without_last_two_segments(text) is Err,
        channel_of_package(text) is None,
{
}

} // verus!
