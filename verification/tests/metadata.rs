use conda_rlock::error::LockError;
use conda_rlock::metadata::{
    get_pypi_packages, is_installed_by_pip, metadata_path, MetadataFile, ScannedDistribution,
};
use conda_rlock::package::{InstalledWheelDistribution, PythonPackage, WheelMetadata};

fn distribution(name: &str, version: &str, installer: Option<&str>) -> InstalledWheelDistribution {
    InstalledWheelDistribution {
        name: name.to_string(),
        version: version.to_string(),
        dist_info: format!("lib/python3.13/site-packages/{name}-{version}.dist-info"),
        installer: installer.map(|i| i.to_string()),
    }
}

fn metadata(requires_dist: &[&str], requires_python: Option<&str>) -> WheelMetadata {
    WheelMetadata {
        requires_dist: requires_dist.iter().map(|r| r.to_string()).collect(),
        requires_python: requires_python.map(|r| r.to_string()),
    }
}

fn scanned(name: &str, installer: Option<&str>, file: MetadataFile) -> ScannedDistribution {
    ScannedDistribution { distribution: distribution(name, "1.0", installer), metadata: file }
}

#[test]
fn test_python_package() {
    let distribution = distribution("blinker", "1.9.0", Some("pip"));
    let python_package =
        PythonPackage::new(&distribution, MetadataFile::Parsed(metadata(&[], Some(">=3.9"))))
            .unwrap();
    assert_eq!(python_package.distribution.name, "blinker");
    assert_eq!(python_package.distribution.version, "1.9.0");
    assert_eq!(
        python_package.distribution.dist_info,
        "lib/python3.13/site-packages/blinker-1.9.0.dist-info"
    );
    assert_eq!(python_package.distribution.installer.as_deref(), Some("pip"));
    assert_eq!(python_package.metadata.requires_python.as_deref(), Some(">=3.9"));
}

#[test]
fn python_package_keeps_the_declared_dependencies() {
    let package = PythonPackage::new(
        &distribution("requests", "2.31.0", Some("pip")),
        MetadataFile::Parsed(metadata(&["urllib3>=1.21.1", "certifi>=2017.4.17"], None)),
    )
    .unwrap();
    assert_eq!(package.metadata.requires_dist, vec!["urllib3>=1.21.1", "certifi>=2017.4.17"]);
    assert_eq!(package.metadata.requires_python, None);
}

#[test]
fn python_package_fails_without_readable_metadata() {
    let result = PythonPackage::new(&distribution("blinker", "1.9.0", Some("pip")), MetadataFile::Unreadable);
    assert_eq!(result.err(), Some(LockError::MetadataUnreadable));
}

#[test]
fn python_package_fails_on_malformed_metadata() {
    let result = PythonPackage::new(&distribution("blinker", "1.9.0", Some("pip")), MetadataFile::Malformed);
    assert_eq!(result.err(), Some(LockError::MetadataMalformed));
}

#[test]
fn loading_twice_gives_the_same_package() {
    let distribution = distribution("requests", "2.31.0", Some("pip"));
    let file = MetadataFile::Parsed(metadata(&["idna<4,>=2.5"], Some(">=3.7")));
    let first = PythonPackage::new(&distribution, file.duplicate()).unwrap();
    let second = PythonPackage::new(&distribution, file.duplicate()).unwrap();
    assert_eq!(first.distribution.name, second.distribution.name);
    assert_eq!(first.distribution.version, second.distribution.version);
    assert_eq!(first.distribution.dist_info, second.distribution.dist_info);
    assert_eq!(first.distribution.installer, second.distribution.installer);
    assert_eq!(first.metadata.requires_dist, second.metadata.requires_dist);
    assert_eq!(first.metadata.requires_python, second.metadata.requires_python);
}

#[test]
fn metadata_path_is_inside_the_dist_info_directory() {
    assert_eq!(
        metadata_path("lib/python3.13/site-packages/blinker-1.9.0.dist-info"),
        "lib/python3.13/site-packages/blinker-1.9.0.dist-info/METADATA"
    );
    assert_eq!(metadata_path(""), "/METADATA");
}

#[test]
fn installed_by_pip_goes_by_the_installer() {
    assert!(is_installed_by_pip(&distribution("a", "1", Some("pip"))));
    assert!(!is_installed_by_pip(&distribution("a", "1", Some("uv"))));
    assert!(!is_installed_by_pip(&distribution("a", "1", Some("conda"))));
    assert!(!is_installed_by_pip(&distribution("a", "1", Some("Pip"))));
    assert!(!is_installed_by_pip(&distribution("a", "1", Some(""))));
    assert!(!is_installed_by_pip(&distribution("a", "1", None)));
}

#[test]
fn get_pypi_packages_keeps_what_pip_installed() {
    let found = vec![
        scanned("blinker", Some("pip"), MetadataFile::Parsed(metadata(&[], None))),
        scanned("numpy", Some("conda"), MetadataFile::Parsed(metadata(&[], None))),
        scanned("setuptools", None, MetadataFile::Parsed(metadata(&[], None))),
        scanned("requests", Some("pip"), MetadataFile::Parsed(metadata(&["idna"], None))),
    ];
    let packages = get_pypi_packages(&found).unwrap();
    let names: Vec<&str> = packages.iter().map(|p| p.distribution.name.as_str()).collect();
    assert_eq!(names, vec!["blinker", "requests"]);
    assert_eq!(packages[1].metadata.requires_dist, vec!["idna"]);
}

#[test]
fn get_pypi_packages_of_an_empty_environment() {
    assert!(get_pypi_packages(&Vec::new()).unwrap().is_empty());
}

#[test]
fn get_pypi_packages_fails_on_malformed_metadata() {
    let found = vec![
        scanned("click", Some("pip"), MetadataFile::Parsed(metadata(&[], None))),
        scanned("blinker", Some("pip"), MetadataFile::Malformed),
    ];
    assert_eq!(get_pypi_packages(&found).err(), Some(LockError::MetadataMalformed));
}

#[test]
fn get_pypi_packages_fails_on_unreadable_metadata() {
    let found = vec![scanned("blinker", Some("pip"), MetadataFile::Unreadable)];
    assert_eq!(get_pypi_packages(&found).err(), Some(LockError::MetadataUnreadable));
}

#[test]
fn get_pypi_packages_fails_with_the_first_failure() {
    let found = vec![
        scanned("a", Some("pip"), MetadataFile::Unreadable),
        scanned("b", Some("pip"), MetadataFile::Malformed),
    ];
    assert_eq!(get_pypi_packages(&found).err(), Some(LockError::MetadataUnreadable));
    let found = vec![
        scanned("a", Some("pip"), MetadataFile::Malformed),
        scanned("b", Some("pip"), MetadataFile::Unreadable),
    ];
    assert_eq!(get_pypi_packages(&found).err(), Some(LockError::MetadataMalformed));
}

#[test]
fn get_pypi_packages_passes_over_the_metadata_of_other_installers() {
    let found = vec![
        scanned("numpy", Some("conda"), MetadataFile::Malformed),
        scanned("scipy", None, MetadataFile::Unreadable),
        scanned("blinker", Some("pip"), MetadataFile::Parsed(metadata(&[], None))),
    ];
    let packages = get_pypi_packages(&found).unwrap();
    assert_eq!(packages.len(), 1);
    assert_eq!(packages[0].distribution.name, "blinker");
}

#[test]
fn test_get_pypi_packages() {
    let found = vec![
        scanned("blinker", Some("pip"), MetadataFile::Parsed(metadata(&[], Some(">=3.9")))),
        scanned("python-dateutil", Some("conda"), MetadataFile::Parsed(metadata(&["six>=1.5"], None))),
        scanned("click", Some("pip"), MetadataFile::Parsed(metadata(&["colorama"], Some(">=3.7")))),
    ];
    let packages = get_pypi_packages(&found).unwrap();
    let distributions: Vec<(&str, &str, &str, Option<&str>)> = packages
        .iter()
        .map(|p| {
            (
                p.distribution.name.as_str(),
                p.distribution.version.as_str(),
                p.distribution.dist_info.as_str(),
                p.distribution.installer.as_deref(),
            )
        })
        .collect();
    assert_eq!(
        distributions,
        vec![
            ("blinker", "1.0", "lib/python3.13/site-packages/blinker-1.0.dist-info", Some("pip")),
            ("click", "1.0", "lib/python3.13/site-packages/click-1.0.dist-info", Some("pip")),
        ]
    );
}

#[test]
#[should_panic(expected = "MetadataMalformed")]
fn test_get_pypi_packages_with_errors() {
    let found = vec![
        scanned("click", Some("pip"), MetadataFile::Parsed(metadata(&[], None))),
        scanned("blinker", Some("pip"), MetadataFile::Malformed),
    ];
    let _ = get_pypi_packages(&found).unwrap();
}

#[test]
fn every_error_has_its_message() {
    assert_eq!(LockError::MetadataUnreadable.message(), "failed to read metadata file");
    assert_eq!(LockError::MetadataMalformed.message(), "failed to parse metadata");
    assert_eq!(
        LockError::ScanFailure.message(),
        "failed to find distributions in the environment"
    );
    assert_eq!(LockError::IndexQueryFailure.message(), "failed to ask the package index");
    assert!(LockError::ArtifactNotFound.message().contains("most likely corrupted"));
    assert_eq!(LockError::SerializationFailure.message(), "failed to render the lock file");
}
