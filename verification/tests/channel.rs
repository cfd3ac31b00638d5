use conda_rlock::channel::{
    get_channel_url_from_package_url, normalize_index_url, parent_path, remove_last_two_segments,
    ChannelError,
};
use conda_rlock::text::join_prefix;
use conda_rlock::url::UrlSegments;

fn owned(parts: &[&str]) -> Vec<String> {
    parts.iter().map(|p| p.to_string()).collect()
}

#[test]
fn test_normalize_index_url() {
    let normalized_url = normalize_index_url("https://pypi.org").unwrap();
    assert_eq!(normalized_url.as_str(), "https://pypi.org/");
}

#[test]
fn normalize_index_url_adds_the_slash() {
    assert_eq!(
        normalize_index_url("https://pypi.org/simple").unwrap(),
        "https://pypi.org/simple/"
    );
    assert_eq!(
        normalize_index_url("https://pypi.org/simple/").unwrap(),
        "https://pypi.org/simple/"
    );
}

#[test]
fn normalize_index_url_keeps_query() {
    assert_eq!(
        normalize_index_url("https://example.org/simple?x=1").unwrap(),
        "https://example.org/simple/?x=1"
    );
}

#[test]
fn normalize_index_url_rejects_what_is_no_url() {
    assert_eq!(normalize_index_url("not a url"), None);
}

#[test]
fn join_prefix_joins_the_first_parts() {
    let parts = owned(&["a", "b", "c"]);
    assert_eq!(join_prefix(&parts, 0, "/"), "");
    assert_eq!(join_prefix(&parts, 1, "/"), "a");
    assert_eq!(join_prefix(&parts, 2, "/"), "a/b");
    assert_eq!(join_prefix(&parts, 3, "/"), "a/b/c");
}

#[test]
fn parent_path_drops_two_segments() {
    let segments = UrlSegments::Segments(owned(&["conda-forge", "linux-64", "python.conda"]));
    assert_eq!(parent_path(&segments), Ok("conda-forge".to_string()));
    let segments = UrlSegments::Segments(owned(&["a", "b", "linux-64", "python.conda"]));
    assert_eq!(parent_path(&segments), Ok("a/b".to_string()));
    let segments = UrlSegments::Segments(owned(&["linux-64", "python.conda"]));
    assert_eq!(parent_path(&segments), Ok(String::new()));
}

#[test]
fn parent_path_reports_each_failure() {
    assert_eq!(parent_path(&UrlSegments::Invalid), Err(ChannelError::InvalidUrl));
    assert_eq!(parent_path(&UrlSegments::Opaque), Err(ChannelError::NotHierarchical));
    assert_eq!(
        parent_path(&UrlSegments::Segments(owned(&["only"]))),
        Err(ChannelError::TooFewSegments)
    );
    assert_eq!(
        parent_path(&UrlSegments::Segments(Vec::new())),
        Err(ChannelError::TooFewSegments)
    );
}

#[test]
fn remove_last_two_segments_of_a_package_url() {
    assert_eq!(
        remove_last_two_segments(
            "https://conda.anaconda.org/conda-forge/linux-64/python-3.11.4.conda"
        ),
        Ok("https://conda.anaconda.org/conda-forge".to_string())
    );
    assert_eq!(
        remove_last_two_segments("https://repo.example/linux-64/python-3.11.4.conda"),
        Ok("https://repo.example/".to_string())
    );
}

#[test]
fn remove_last_two_segments_fails_on_short_paths() {
    assert_eq!(
        remove_last_two_segments("https://repo.example/python-3.11.4.conda"),
        Err(ChannelError::TooFewSegments)
    );
    assert_eq!(
        remove_last_two_segments("https://repo.example"),
        Err(ChannelError::TooFewSegments)
    );
}

#[test]
fn remove_last_two_segments_fails_on_opaque_urls() {
    assert_eq!(
        remove_last_two_segments("data:text/plain,HelloWorld"),
        Err(ChannelError::NotHierarchical)
    );
    assert_eq!(
        remove_last_two_segments("mailto:someone@example.org"),
        Err(ChannelError::NotHierarchical)
    );
}

#[test]
fn remove_last_two_segments_fails_on_what_is_no_url() {
    assert_eq!(remove_last_two_segments("linux-64/python.conda"), Err(ChannelError::InvalidUrl));
    assert_eq!(remove_last_two_segments(""), Err(ChannelError::InvalidUrl));
}

#[test]
fn channel_url_ends_in_a_slash() {
    assert_eq!(
        get_channel_url_from_package_url(
            "https://conda.anaconda.org/conda-forge/linux-64/python-3.11.4.conda"
        ),
        Some("https://conda.anaconda.org/conda-forge/".to_string())
    );
    assert_eq!(
        get_channel_url_from_package_url("https://repo.example/linux-64/python-3.11.4.conda"),
        Some("https://repo.example/".to_string())
    );
}

#[test]
fn channel_url_is_unknown_for_short_or_opaque_urls() {
    assert_eq!(get_channel_url_from_package_url("https://repo.example/python.conda"), None);
    assert_eq!(get_channel_url_from_package_url("data:text/plain,HelloWorld"), None);
    assert_eq!(get_channel_url_from_package_url("no url at all"), None);
}

#[test]
fn channel_url_keeps_what_follows_the_path() {
    assert_eq!(
        get_channel_url_from_package_url("https://repo.example/c/linux-64/p.conda?token=1"),
        Some("https://repo.example/c/?token=1".to_string())
    );
}
