use std::str::FromStr;

use conda_rlock::error::LockError;
use conda_rlock::package::{
    ArtifactKind, InstalledWheelDistribution, PythonPackage, RemoteArtifact, WheelMetadata,
};
use conda_rlock::reconcile::{
    get_available_artifacts, match_distribution_with_artifact, select_wheel, ArtifactListing,
    ArtifactTable, IndexResponse,
};
use pep440_rs::Version;

fn artifact(url: &str, kind: ArtifactKind) -> RemoteArtifact {
    RemoteArtifact { url: url.to_string(), sha256: None, requires_python: None, kind }
}

fn distribution(name: &str, version: &str) -> InstalledWheelDistribution {
    InstalledWheelDistribution {
        name: name.to_string(),
        version: version.to_string(),
        dist_info: format!("lib/python3.13/site-packages/{name}-{version}.dist-info"),
        installer: Some("pip".to_string()),
    }
}

fn python_package(name: &str, version: &str) -> PythonPackage {
    PythonPackage {
        distribution: distribution(name, version),
        metadata: WheelMetadata { requires_dist: Vec::new(), requires_python: None },
    }
}

fn listing(entries: Vec<(&str, bool, Vec<RemoteArtifact>)>) -> ArtifactListing {
    let mut listing = ArtifactListing::new();
    for (version, prerelease, artifacts) in entries {
        listing.insert((Version::from_str(version).unwrap(), prerelease), artifacts);
    }
    listing
}

#[test]
fn select_wheel_takes_the_first_wheel() {
    let artifacts = vec![
        artifact("https://files.example/p-1.0.tar.gz", ArtifactKind::SourceDistribution),
        artifact("https://files.example/p-1.0-py3-none-any.whl", ArtifactKind::Wheel),
        artifact("https://files.example/p-1.0-cp313-linux.whl", ArtifactKind::Wheel),
    ];
    let chosen = select_wheel(Some(&artifacts)).unwrap();
    assert_eq!(chosen.url, "https://files.example/p-1.0-py3-none-any.whl");
    assert_eq!(chosen.kind, ArtifactKind::Wheel);
}

#[test]
fn select_wheel_never_takes_a_source_distribution() {
    let artifacts = vec![
        artifact("https://files.example/p-1.0.tar.gz", ArtifactKind::SourceDistribution),
        artifact("https://files.example/p-1.0.zip", ArtifactKind::Other),
    ];
    assert_eq!(select_wheel(Some(&artifacts)).unwrap_err(), LockError::ArtifactNotFound);
}

#[test]
fn select_wheel_fails_without_files() {
    assert_eq!(select_wheel(Some(&Vec::new())).unwrap_err(), LockError::ArtifactNotFound);
    assert_eq!(select_wheel(None).unwrap_err(), LockError::ArtifactNotFound);
}

#[test]
fn select_wheel_copies_the_artifact() {
    let artifacts = vec![RemoteArtifact {
        url: "https://files.example/p-1.0-py3-none-any.whl".to_string(),
        sha256: Some("abc123".to_string()),
        requires_python: Some(">=3.8".to_string()),
        kind: ArtifactKind::Wheel,
    }];
    let chosen = select_wheel(Some(&artifacts)).unwrap();
    assert_eq!(chosen.sha256.as_deref(), Some("abc123"));
    assert_eq!(chosen.requires_python.as_deref(), Some(">=3.8"));
}

#[test]
fn match_finds_the_installed_version() {
    let listing = listing(vec![
        ("2.30.0", false, vec![artifact("https://files.example/requests-2.30.0.whl", ArtifactKind::Wheel)]),
        ("2.31.0", false, vec![artifact("https://files.example/requests-2.31.0.whl", ArtifactKind::Wheel)]),
    ]);
    let chosen =
        match_distribution_with_artifact(&distribution("requests", "2.31.0"), &listing).unwrap();
    assert_eq!(chosen.url, "https://files.example/requests-2.31.0.whl");
}

#[test]
fn match_fails_for_a_version_that_is_not_listed() {
    let listing = listing(vec![(
        "2.30.0",
        false,
        vec![artifact("https://files.example/requests-2.30.0.whl", ArtifactKind::Wheel)],
    )]);
    assert_eq!(
        match_distribution_with_artifact(&distribution("requests", "2.31.0"), &listing)
            .unwrap_err(),
        LockError::ArtifactNotFound
    );
}

#[test]
fn match_fails_for_a_version_with_source_distributions_only() {
    let listing = listing(vec![(
        "2.31.0",
        false,
        vec![artifact("https://files.example/requests-2.31.0.tar.gz", ArtifactKind::SourceDistribution)],
    )]);
    assert_eq!(
        match_distribution_with_artifact(&distribution("requests", "2.31.0"), &listing)
            .unwrap_err(),
        LockError::ArtifactNotFound
    );
}

#[test]
fn match_compares_versions_and_not_their_text() {
    let listing = listing(vec![(
        "1.0.0",
        false,
        vec![artifact("https://files.example/p-1.0.0.whl", ArtifactKind::Wheel)],
    )]);
    let chosen = match_distribution_with_artifact(&distribution("p", "1.0"), &listing).unwrap();
    assert_eq!(chosen.url, "https://files.example/p-1.0.0.whl");
    let chosen = match_distribution_with_artifact(&distribution("p", "v1.0.0"), &listing).unwrap();
    assert_eq!(chosen.url, "https://files.example/p-1.0.0.whl");
}

#[test]
fn match_accepts_prereleases_where_the_installed_version_is_one() {
    let listing = listing(vec![
        ("1.0rc1", true, vec![artifact("https://files.example/p-1.0rc1.whl", ArtifactKind::Wheel)]),
        ("1.0", false, vec![artifact("https://files.example/p-1.0.whl", ArtifactKind::Wheel)]),
    ]);
    let chosen = match_distribution_with_artifact(&distribution("p", "1.0rc1"), &listing).unwrap();
    assert_eq!(chosen.url, "https://files.example/p-1.0rc1.whl");
    let chosen = match_distribution_with_artifact(&distribution("p", "1.0"), &listing).unwrap();
    assert_eq!(chosen.url, "https://files.example/p-1.0.whl");
}

#[test]
fn match_fails_where_the_flag_differs() {
    let stable_listed_as_prerelease = listing(vec![(
        "1.0",
        true,
        vec![artifact("https://files.example/p-1.0.whl", ArtifactKind::Wheel)],
    )]);
    assert_eq!(
        match_distribution_with_artifact(&distribution("p", "1.0"), &stable_listed_as_prerelease)
            .unwrap_err(),
        LockError::ArtifactNotFound
    );
    let prerelease_listed_as_stable = listing(vec![(
        "1.0.dev1",
        false,
        vec![artifact("https://files.example/p-1.0.dev1.whl", ArtifactKind::Wheel)],
    )]);
    assert_eq!(
        match_distribution_with_artifact(&distribution("p", "1.0.dev1"), &prerelease_listed_as_stable)
            .unwrap_err(),
        LockError::ArtifactNotFound
    );
}

#[test]
fn match_fails_for_what_is_no_version() {
    let listing = listing(vec![(
        "1.0",
        false,
        vec![artifact("https://files.example/p-1.0.whl", ArtifactKind::Wheel)],
    )]);
    assert_eq!(
        match_distribution_with_artifact(&distribution("p", "not a version"), &listing)
            .unwrap_err(),
        LockError::ArtifactNotFound
    );
}

#[test]
fn artifact_table_gives_what_was_entered_last() {
    let mut table = ArtifactTable::new();
    assert!(table.get("requests").is_none());
    table.insert("requests".to_string(), artifact("https://files.example/a.whl", ArtifactKind::Wheel));
    table.insert("idna".to_string(), artifact("https://files.example/b.whl", ArtifactKind::Wheel));
    assert_eq!(table.get("requests").unwrap().url, "https://files.example/a.whl");
    assert_eq!(table.get("idna").unwrap().url, "https://files.example/b.whl");
    table.insert("requests".to_string(), artifact("https://files.example/c.whl", ArtifactKind::Wheel));
    assert_eq!(table.get("requests").unwrap().url, "https://files.example/c.whl");
    assert!(table.get("urllib3").is_none());
}

#[test]
fn available_artifacts_of_every_package() {
    let packages = vec![python_package("requests", "2.31.0"), python_package("idna", "3.4")];
    let responses = vec![
        IndexResponse::Listing(listing(vec![(
            "2.31.0",
            false,
            vec![artifact("https://files.example/requests-2.31.0.whl", ArtifactKind::Wheel)],
        )])),
        IndexResponse::Listing(listing(vec![(
            "3.4",
            false,
            vec![artifact("https://files.example/idna-3.4.whl", ArtifactKind::Wheel)],
        )])),
    ];
    let table = get_available_artifacts(&packages, &responses).unwrap();
    assert_eq!(table.get("requests").unwrap().url, "https://files.example/requests-2.31.0.whl");
    assert_eq!(table.get("idna").unwrap().url, "https://files.example/idna-3.4.whl");
}

#[test]
fn available_artifacts_of_no_package() {
    let table = get_available_artifacts(&Vec::new(), &Vec::new()).unwrap();
    assert!(table.get("requests").is_none());
}

#[test]
fn available_artifacts_fail_on_a_failed_query() {
    let packages = vec![python_package("requests", "2.31.0")];
    assert_eq!(
        get_available_artifacts(&packages, &vec![IndexResponse::Failed]).err(),
        Some(LockError::IndexQueryFailure)
    );
    assert_eq!(
        get_available_artifacts(&packages, &Vec::new()).err(),
        Some(LockError::IndexQueryFailure)
    );
}

#[test]
fn available_artifacts_fail_on_a_version_that_is_not_listed() {
    let packages = vec![python_package("requests", "2.31.0")];
    let responses = vec![IndexResponse::Listing(listing(vec![(
        "2.30.0",
        false,
        vec![artifact("https://files.example/requests-2.30.0.whl", ArtifactKind::Wheel)],
    )]))];
    assert_eq!(
        get_available_artifacts(&packages, &responses).err(),
        Some(LockError::ArtifactNotFound)
    );
}

#[test]
fn available_artifacts_fail_with_the_first_failure() {
    let packages = vec![python_package("requests", "2.31.0"), python_package("idna", "3.4")];
    let responses = vec![
        IndexResponse::Listing(listing(vec![])),
        IndexResponse::Failed,
    ];
    assert_eq!(
        get_available_artifacts(&packages, &responses).err(),
        Some(LockError::ArtifactNotFound)
    );
    let responses = vec![
        IndexResponse::Failed,
        IndexResponse::Listing(listing(vec![])),
    ];
    assert_eq!(
        get_available_artifacts(&packages, &responses).err(),
        Some(LockError::IndexQueryFailure)
    );
}
