use std::str::FromStr;

use conda_rlock::error::LockError;
use conda_rlock::metadata::{MetadataFile, ScannedDistribution};
use conda_rlock::model::{PackageEntry, Phase};
use conda_rlock::package::{
    ArtifactKind, InstalledBinaryPackage, InstalledWheelDistribution, RemoteArtifact,
    WheelMetadata,
};
use conda_rlock::prefix::{
    conda_channels, get_python_package, lock_prefix, python_layout_version, venv_python_version,
    VenvScan, DEFAULT_ENVIRONMENT, DEFAULT_INDEX_URL,
};
use conda_rlock::reconcile::{ArtifactListing, IndexResponse};
use conda_rlock::render::render_lock_file;
use conda_rlock::text::trim_trailing;
use rattler_conda_types::{PackageName, PackageRecord, Version};

fn binary(name: &str, version: &str, subdir: &str, url: &str) -> InstalledBinaryPackage {
    let mut record = PackageRecord::new(
        PackageName::new_unchecked(name),
        Version::from_str(version).unwrap(),
        "h0_0".to_string(),
    );
    record.subdir = subdir.to_string();
    InstalledBinaryPackage {
        name: name.to_string(),
        version: version.to_string(),
        subdir: subdir.to_string(),
        url: url.to_string(),
        file_name: url.rsplit('/').next().unwrap().to_string(),
        record,
    }
}

fn python() -> InstalledBinaryPackage {
    binary("python", "3.11.4", "linux-64", "https://repo.example/linux-64/python-3.11.4.conda")
}

fn scanned(name: &str, version: &str, file: MetadataFile) -> ScannedDistribution {
    ScannedDistribution {
        distribution: InstalledWheelDistribution {
            name: name.to_string(),
            version: version.to_string(),
            dist_info: format!("lib/python3.11/site-packages/{name}-{version}.dist-info"),
            installer: Some("pip".to_string()),
        },
        metadata: file,
    }
}

fn parsed(requires_dist: &[&str]) -> MetadataFile {
    MetadataFile::Parsed(WheelMetadata {
        requires_dist: requires_dist.iter().map(|r| r.to_string()).collect(),
        requires_python: None,
    })
}

fn listing(version: &str, artifacts: Vec<RemoteArtifact>) -> IndexResponse {
    let mut listing = ArtifactListing::new();
    listing.insert((pep440_rs::Version::from_str(version).unwrap(), false), artifacts);
    IndexResponse::Listing(listing)
}

fn wheel_artifact(url: &str, sha256: Option<&str>) -> RemoteArtifact {
    RemoteArtifact {
        url: url.to_string(),
        sha256: sha256.map(|h| h.to_string()),
        requires_python: None,
        kind: ArtifactKind::Wheel,
    }
}

#[test]
fn trim_trailing_takes_every_slash_at_the_end() {
    assert_eq!(trim_trailing("https://repo.example/", '/'), "https://repo.example");
    assert_eq!(trim_trailing("https://repo.example/c//", '/'), "https://repo.example/c");
    assert_eq!(trim_trailing("https://repo.example", '/'), "https://repo.example");
    assert_eq!(trim_trailing("///", '/'), "");
    assert_eq!(trim_trailing("", '/'), "");
}

#[test]
fn get_python_package_finds_python() {
    let packages = vec![
        binary("openssl", "3.1", "linux-64", "https://repo.example/linux-64/openssl-3.1.conda"),
        python(),
        binary("pip", "23.0", "noarch", "https://repo.example/noarch/pip-23.0.conda"),
    ];
    assert_eq!(get_python_package(&packages).unwrap().version, "3.11.4");
    let others = vec![clone_package(&packages[0]), clone_package(&packages[2])];
    assert!(get_python_package(&others).is_none());
    assert!(get_python_package(&Vec::new()).is_none());
}

fn clone_package(package: &InstalledBinaryPackage) -> InstalledBinaryPackage {
    InstalledBinaryPackage {
        name: package.name.clone(),
        version: package.version.clone(),
        subdir: package.subdir.clone(),
        url: package.url.clone(),
        file_name: package.file_name.clone(),
        record: package.record.clone(),
    }
}

#[test]
fn venv_python_version_has_a_patch_of_zero() {
    assert_eq!(venv_python_version(Some((3, 13))), Some((3, 13, 0)));
    assert_eq!(venv_python_version(Some((0, 0))), Some((0, 0, 0)));
    assert_eq!(venv_python_version(None), None);
}

#[test]
fn venv_python_version_takes_numbers_of_32_bits() {
    assert_eq!(venv_python_version(Some((4294967295, 4294967295))), Some((4294967295, 4294967295, 0)));
    assert_eq!(venv_python_version(Some((4294967296, 11))), None);
    assert_eq!(venv_python_version(Some((3, 4294967296))), None);
    assert_eq!(venv_python_version(Some((4294967296 + 3, 4294967295))), None);
}

#[test]
fn python_layout_version_reads_the_version_of_python() {
    assert_eq!(python_layout_version(&python()), Some((3, 11, 0)));
    let odd = binary("python", "3", "linux-64", "https://repo.example/linux-64/python-3.conda");
    assert_eq!(python_layout_version(&odd), None);
    let mut broken = python();
    broken.version = "not a version!".to_string();
    assert_eq!(python_layout_version(&broken), None);
}

#[test]
fn conda_channels_are_the_channels_of_the_urls() {
    let packages = vec![
        python(),
        binary("pip", "23.0", "noarch", "https://conda.anaconda.org/conda-forge/noarch/pip-23.0.conda"),
        binary("odd", "1.0", "noarch", "https://repo.example/odd-1.0.conda"),
        binary("openssl", "3.1", "linux-64", "https://repo.example/linux-64/openssl-3.1.conda"),
    ];
    assert_eq!(
        conda_channels(&packages),
        vec![
            "https://repo.example".to_string(),
            "https://conda.anaconda.org/conda-forge".to_string(),
            "https://repo.example".to_string(),
        ]
    );
}

#[test]
fn the_defaults_are_the_default_environment_and_pypi() {
    assert_eq!(DEFAULT_ENVIRONMENT, "default");
    assert_eq!(DEFAULT_INDEX_URL, "https://pypi.org/simple/");
}

#[test]
fn an_environment_with_one_binary_package() {
    let packages = vec![python()];
    let model = lock_prefix(
        DEFAULT_ENVIRONMENT,
        DEFAULT_INDEX_URL,
        &packages,
        &VenvScan::Found(Vec::new()),
        &Vec::new(),
    )
    .unwrap();
    assert_eq!(model.phase(), Phase::Finalized);
    assert_eq!(model.environments().len(), 1);
    assert_eq!(model.environments()[0].name, "default");
    assert_eq!(model.environments()[0].channels, vec!["https://repo.example".to_string()]);
    assert!(model.environments()[0].indexes.is_empty());
    assert_eq!(model.packages().len(), 1);
    assert_eq!(model.packages()[0].platform, "linux-64");
    assert_eq!(model.packages()[0].environment, "default");
    match &model.packages()[0].entry {
        PackageEntry::Binary(entry) => {
            assert_eq!(entry.name, "python");
            assert_eq!(entry.version, "3.11.4");
            assert_eq!(entry.url, "https://repo.example/linux-64/python-3.11.4.conda");
        },
        PackageEntry::Wheel(_) => panic!("the environment has no wheel"),
    }
}

#[test]
fn an_environment_with_a_wheel() {
    let packages = vec![python()];
    let venv = VenvScan::Found(vec![scanned(
        "requests",
        "2.31.0",
        parsed(&["urllib3>=1.21.1", "certifi>=2017.4.17"]),
    )]);
    let responses = vec![listing(
        "2.31.0",
        vec![wheel_artifact("https://files.example/requests-2.31.0-py3-none-any.whl", Some("abc123"))],
    )];
    let model =
        lock_prefix(DEFAULT_ENVIRONMENT, DEFAULT_INDEX_URL, &packages, &venv, &responses).unwrap();
    assert_eq!(model.environments()[0].indexes, vec!["https://pypi.org/simple/".to_string()]);
    assert_eq!(model.packages().len(), 2);
    match &model.packages()[1].entry {
        PackageEntry::Wheel(entry) => {
            assert_eq!(entry.name, "requests");
            assert_eq!(entry.version, "2.31.0");
            assert_eq!(entry.sha256.as_deref(), Some("abc123"));
            assert_eq!(
                entry.requires_dist,
                vec!["urllib3>=1.21.1".to_string(), "certifi>=2017.4.17".to_string()]
            );
            assert_eq!(entry.url, "https://files.example/requests-2.31.0-py3-none-any.whl");
            assert!(!entry.editable);
        },
        PackageEntry::Binary(_) => panic!("the second package is the wheel"),
    }
    assert_eq!(model.packages()[1].platform, "linux-64");
}

#[test]
fn truncated_metadata_ends_the_operation() {
    let packages = vec![python()];
    let venv = VenvScan::Found(vec![
        scanned("click", "8.1.7", parsed(&[])),
        scanned("blinker", "1.9.0", MetadataFile::Malformed),
    ]);
    let responses = vec![
        listing("8.1.7", vec![wheel_artifact("https://files.example/click-8.1.7.whl", None)]),
        listing("1.9.0", vec![wheel_artifact("https://files.example/blinker-1.9.0.whl", None)]),
    ];
    let result = lock_prefix(DEFAULT_ENVIRONMENT, DEFAULT_INDEX_URL, &packages, &venv, &responses);
    assert_eq!(result.err(), Some(LockError::MetadataMalformed));
}

#[test]
fn unreadable_metadata_ends_the_operation() {
    let packages = vec![python()];
    let venv = VenvScan::Found(vec![scanned("blinker", "1.9.0", MetadataFile::Unreadable)]);
    let result = lock_prefix(DEFAULT_ENVIRONMENT, DEFAULT_INDEX_URL, &packages, &venv, &Vec::new());
    assert_eq!(result.err(), Some(LockError::MetadataUnreadable));
}

#[test]
fn a_version_that_the_index_does_not_have_ends_the_operation() {
    let packages = vec![python()];
    let venv = VenvScan::Found(vec![scanned("requests", "2.31.0", parsed(&[]))]);
    let responses = vec![listing(
        "2.30.0",
        vec![wheel_artifact("https://files.example/requests-2.30.0-py3-none-any.whl", None)],
    )];
    let result = lock_prefix(DEFAULT_ENVIRONMENT, DEFAULT_INDEX_URL, &packages, &venv, &responses);
    assert_eq!(result.err(), Some(LockError::ArtifactNotFound));
}

#[test]
fn a_version_with_a_source_distribution_only_ends_the_operation() {
    let packages = vec![python()];
    let venv = VenvScan::Found(vec![scanned("requests", "2.31.0", parsed(&[]))]);
    let responses = vec![listing(
        "2.31.0",
        vec![RemoteArtifact {
            url: "https://files.example/requests-2.31.0.tar.gz".to_string(),
            sha256: None,
            requires_python: None,
            kind: ArtifactKind::SourceDistribution,
        }],
    )];
    let result = lock_prefix(DEFAULT_ENVIRONMENT, DEFAULT_INDEX_URL, &packages, &venv, &responses);
    assert_eq!(result.err(), Some(LockError::ArtifactNotFound));
}

#[test]
fn a_failed_query_ends_the_operation() {
    let packages = vec![python()];
    let venv = VenvScan::Found(vec![scanned("requests", "2.31.0", parsed(&[]))]);
    let result = lock_prefix(
        DEFAULT_ENVIRONMENT,
        DEFAULT_INDEX_URL,
        &packages,
        &venv,
        &vec![IndexResponse::Failed],
    );
    assert_eq!(result.err(), Some(LockError::IndexQueryFailure));
}

#[test]
fn an_index_that_is_no_url_ends_the_operation() {
    let packages = vec![python()];
    let result =
        lock_prefix(DEFAULT_ENVIRONMENT, "no url", &packages, &VenvScan::Found(Vec::new()), &Vec::new());
    assert_eq!(result.err(), Some(LockError::IndexQueryFailure));
}

#[test]
fn a_failed_scan_ends_the_operation() {
    let packages = vec![python()];
    let result =
        lock_prefix(DEFAULT_ENVIRONMENT, DEFAULT_INDEX_URL, &packages, &VenvScan::Failed, &Vec::new());
    assert_eq!(result.err(), Some(LockError::ScanFailure));
}

#[test]
fn a_python_with_a_version_beyond_32_bits_ends_the_operation() {
    let packages = vec![binary(
        "python",
        "4294967296.1",
        "linux-64",
        "https://repo.example/linux-64/python-4294967296.1.conda",
    )];
    assert_eq!(python_layout_version(&packages[0]), None);
    let result = lock_prefix(
        DEFAULT_ENVIRONMENT,
        DEFAULT_INDEX_URL,
        &packages,
        &VenvScan::Found(Vec::new()),
        &Vec::new(),
    );
    assert_eq!(result.err(), Some(LockError::ScanFailure));
}

#[test]
fn a_python_without_major_and_minor_version_ends_the_operation() {
    let packages =
        vec![binary("python", "3", "linux-64", "https://repo.example/linux-64/python-3.conda")];
    let result = lock_prefix(
        DEFAULT_ENVIRONMENT,
        DEFAULT_INDEX_URL,
        &packages,
        &VenvScan::Found(Vec::new()),
        &Vec::new(),
    );
    assert_eq!(result.err(), Some(LockError::ScanFailure));
}

#[test]
fn without_python_the_scan_is_of_no_account() {
    let packages = vec![binary(
        "openssl",
        "3.1",
        "osx-arm64",
        "https://repo.example/osx-arm64/openssl-3.1.conda",
    )];
    let model =
        lock_prefix(DEFAULT_ENVIRONMENT, "no url", &packages, &VenvScan::Failed, &Vec::new()).unwrap();
    assert_eq!(model.packages().len(), 1);
    assert_eq!(model.packages()[0].platform, "osx-arm64");
}

#[test]
fn an_empty_prefix_gives_an_empty_environment() {
    let model = lock_prefix(
        DEFAULT_ENVIRONMENT,
        DEFAULT_INDEX_URL,
        &Vec::new(),
        &VenvScan::Found(Vec::new()),
        &Vec::new(),
    )
    .unwrap();
    assert_eq!(model.environments().len(), 1);
    assert!(model.environments()[0].channels.is_empty());
    assert!(model.packages().is_empty());
    assert_eq!(model.phase(), Phase::Finalized);
}

#[test]
fn noarch_packages_are_locked_for_the_platform_of_the_environment() {
    let packages = vec![
        binary("pip", "23.0", "noarch", "https://repo.example/noarch/pip-23.0.conda"),
        binary("openssl", "3.1", "win-64", "https://repo.example/win-64/openssl-3.1.conda"),
    ];
    let model = lock_prefix(
        DEFAULT_ENVIRONMENT,
        DEFAULT_INDEX_URL,
        &packages,
        &VenvScan::Found(Vec::new()),
        &Vec::new(),
    )
    .unwrap();
    assert_eq!(model.packages()[0].platform, "win-64");
    assert_eq!(model.packages()[1].platform, "win-64");
    assert_eq!(model.environments()[0].channels, vec!["https://repo.example".to_string()]);
}

#[test]
fn a_frozen_model_renders_as_a_lock_file() {
    let packages = vec![python()];
    let venv = VenvScan::Found(vec![scanned("requests", "2.31.0", parsed(&["idna<4,>=2.5"]))]);
    let digest = "58cd2187c01e70e6e26505bca751777aa9f2ee0b7f4300988b709f44e013003f";
    let responses = vec![listing(
        "2.31.0",
        vec![wheel_artifact("https://files.example/requests-2.31.0-py3-none-any.whl", Some(digest))],
    )];
    let model =
        lock_prefix(DEFAULT_ENVIRONMENT, DEFAULT_INDEX_URL, &packages, &venv, &responses).unwrap();
    let text = render_lock_file(&model).unwrap();
    assert!(text.contains("default:"));
    assert!(text.contains("https://repo.example"));
    assert!(text.contains("linux-64"));
    assert!(text.contains("https://repo.example/linux-64/python-3.11.4.conda"));
    assert!(text.contains("https://pypi.org/simple"));
    assert!(text.contains("https://files.example/requests-2.31.0-py3-none-any.whl"));
    assert!(text.contains(digest));
    assert!(text.contains("idna"));
    let read_back = rattler_lock::LockFile::from_str(&text).unwrap();
    let environment = read_back.default_environment().unwrap();
    assert_eq!(environment.channels().len(), 1);
    assert_eq!(environment.channels()[0].url, "https://repo.example");
    assert_eq!(environment.platforms().count(), 1);
    assert_eq!(
        environment.packages(rattler_conda_types::Platform::Linux64).unwrap().count(),
        2
    );
}

#[test]
fn a_digest_that_is_no_digest_does_not_render() {
    let packages = vec![python()];
    let venv = VenvScan::Found(vec![scanned("requests", "2.31.0", parsed(&[]))]);
    let responses = vec![listing(
        "2.31.0",
        vec![wheel_artifact("https://files.example/requests-2.31.0-py3-none-any.whl", Some("abc123"))],
    )];
    let model =
        lock_prefix(DEFAULT_ENVIRONMENT, DEFAULT_INDEX_URL, &packages, &venv, &responses).unwrap();
    assert_eq!(render_lock_file(&model).err(), Some(LockError::SerializationFailure));
}

#[test]
fn an_empty_model_renders() {
    let model = lock_prefix(
        DEFAULT_ENVIRONMENT,
        DEFAULT_INDEX_URL,
        &Vec::new(),
        &VenvScan::Found(Vec::new()),
        &Vec::new(),
    )
    .unwrap();
    let text = render_lock_file(&model).unwrap();
    assert!(text.contains("default"));
}
