//! The metadata loader: from the distributions that were found in the
//! environment to the packages that are locked, each with what its
//! `METADATA` file declares.
//!
//! Only distributions that pip installed are locked. Every one of them must
//! have metadata that could be read and parsed: a distribution without is a
//! sign of a corrupted environment, and ends the whole operation.

use vstd::prelude::*;
use crate::error::LockError;
use crate::package::{
    package_views, InstalledWheelDistribution, InstalledWheelDistributionView, PythonPackage,
    PythonPackageView, WheelMetadata, WheelMetadataView,
};
use crate::text::same_text;

verus! {

/// What reading and parsing the `METADATA` file of a distribution gave.
pub enum MetadataFile {
    /// The file is missing or could not be read.
    Unreadable,
    /// The file was read, but it is no valid wheel metadata.
    Malformed,
    /// What the file declares.
    Parsed(WheelMetadata),
}

/// The mathematical reading of a [`MetadataFile`].
pub enum MetadataFileView {
    Unreadable,
    Malformed,
    Parsed(WheelMetadataView),
}

impl View for MetadataFile {
    type V = MetadataFileView;

    open spec fn view(&self) -> MetadataFileView {
        match self {
            MetadataFile::Unreadable => MetadataFileView::Unreadable,
            MetadataFile::Malformed => MetadataFileView::Malformed,
            MetadataFile::Parsed(metadata) => MetadataFileView::Parsed(metadata@),
        }
    }
}

/// A distribution as it was found, with what became of its metadata file.
pub struct ScannedDistribution {
    /// The distribution.
    pub distribution: InstalledWheelDistribution,
    /// Its metadata file.
    pub metadata: MetadataFile,
}

/// The mathematical reading of a [`ScannedDistribution`].
pub struct ScannedDistributionView {
    pub distribution: InstalledWheelDistributionView,
    pub metadata: MetadataFileView,
}

impl View for ScannedDistribution {
    type V = ScannedDistributionView;

    open spec fn view(&self) -> ScannedDistributionView {
        ScannedDistributionView { distribution: self.distribution@, metadata: self.metadata@ }
    }
}

/// The readings of a sequence of scanned distributions.
pub open spec fn scanned_views(scanned: Seq<ScannedDistribution>) -> Seq<ScannedDistributionView> {
    scanned.map_values(|s: ScannedDistribution| s@)
}

/// The name of the metadata file inside a `.dist-info` directory.
pub open spec fn metadata_file_name() -> Seq<char> {
    "/METADATA"@
}

/// The package of a distribution whose metadata file gave `metadata`.
pub open spec fn loaded_package(
    distribution: InstalledWheelDistributionView,
    metadata: MetadataFileView,
) -> Result<PythonPackageView, LockError> {
    match metadata {
        MetadataFileView::Unreadable => Err(LockError::MetadataUnreadable),
        MetadataFileView::Malformed => Err(LockError::MetadataMalformed),
        MetadataFileView::Parsed(parsed) => Ok(
            PythonPackageView { distribution: distribution, metadata: parsed },
        ),
    }
}

/// Whether pip installed the distribution.
pub open spec fn installed_by_pip(distribution: InstalledWheelDistributionView) -> bool {
    distribution.installer == Some("pip"@)
}

/// The packages of the first `n` scanned distributions: those that pip
/// installed, in their order; the first failure among them where there is
/// one.
pub open spec fn loaded_packages(scanned: Seq<ScannedDistributionView>, n: int) -> Result<
    Seq<PythonPackageView>,
    LockError,
>
    decreases n,
{
    if n <= 0 {
        Ok(Seq::empty())
    } else {
        match loaded_packages(scanned, n - 1) {
            Err(e) => Err(e),
            Ok(done) => if !installed_by_pip(scanned[n - 1].distribution) {
                Ok(done)
            } else {
                match loaded_package(scanned[n - 1].distribution, scanned[n - 1].metadata) {
                    Err(e) => Err(e),
                    Ok(package) => Ok(done.push(package)),
                }
            },
        }
    }
}

/// The reading of a package, or the error.
pub open spec fn ok_package(r: Result<PythonPackage, LockError>) -> Result<
    PythonPackageView,
    LockError,
> {
    match r {
        Ok(p) => Ok(p@),
        Err(e) => Err(e),
    }
}

/// The readings of the packages, or the error.
pub open spec fn ok_packages(r: Result<Vec<PythonPackage>, LockError>) -> Result<
    Seq<PythonPackageView>,
    LockError,
> {
    match r {
        Ok(p) => Ok(package_views(p@)),
        Err(e) => Err(e),
    }
}

/// The path of the metadata file of a distribution, relative to the prefix:
/// the file `METADATA` inside its `.dist-info` directory.
pub fn metadata_path(dist_info: &str) -> (r: String)
    ensures
        r@ == dist_info@ + metadata_file_name(),
{
    let mut path = dist_info.to_owned();
    path.append("/METADATA");
    path
}

impl PythonPackage {
    /// The package of a distribution, from what reading and parsing its
    /// metadata file gave.
    ///
    /// Fails with `MetadataUnreadable` where the file could not be read, and
    /// with `MetadataMalformed` where it could not be parsed.
    pub fn new(distribution: &InstalledWheelDistribution, metadata: MetadataFile) -> (r: Result<
        PythonPackage,
        LockError,
    >)
        ensures
            ok_package(r) == loaded_package(distribution@, metadata@),
    {
        match metadata {
            MetadataFile::Unreadable => Err(LockError::MetadataUnreadable),
            MetadataFile::Malformed => Err(LockError::MetadataMalformed),
            MetadataFile::Parsed(parsed) => Ok(
                PythonPackage { distribution: distribution.duplicate(), metadata: parsed },
            ),
        }
    }
}

impl MetadataFile {
    /// A second outcome with the same contents.
    pub fn duplicate(&self) -> (r: MetadataFile)
        ensures
            r@ == self@,
    {
        match self {
            MetadataFile::Unreadable => MetadataFile::Unreadable,
            MetadataFile::Malformed => MetadataFile::Malformed,
            MetadataFile::Parsed(parsed) => MetadataFile::Parsed(parsed.duplicate()),
        }
    }
}

/// Whether pip installed the distribution: whether its `INSTALLER` file
/// names `pip`.
pub fn is_installed_by_pip(distribution: &InstalledWheelDistribution) -> (r: bool)
    ensures
        r == installed_by_pip(distribution@),
{
    match &distribution.installer {
        Some(installer) => same_text(installer.as_str(), "pip"),
        None => false,
    }
}

/// Once a distribution has failed, the failure stands whatever follows.
pub proof fn lemma_loading_failure_stays(scanned: Seq<ScannedDistributionView>, failed: int, n: int)
    requires
        0 <= failed <= n,
        loaded_packages(scanned, failed) is Err,
    ensures
        loaded_packages(scanned, n) == loaded_packages(scanned, failed),
    decreases n - failed,
{
    if failed < n {
        lemma_loading_failure_stays(scanned, failed, n - 1);
    }
}

/// The packages of an environment, from the distributions that were found in
/// it: those that pip installed, in the order in which they were found.
///
/// Stops at the first of them, in that order, whose metadata could not be
/// read (`MetadataUnreadable`) or parsed (`MetadataMalformed`). What became
/// of the metadata of a distribution that pip did not install is of no
/// account.
pub fn get_pypi_packages(scanned: &Vec<ScannedDistribution>) -> (r: Result<
    Vec<PythonPackage>,
    LockError,
>)
    ensures
        ok_packages(r) == loaded_packages(scanned_views(scanned@), scanned.len() as int),
{
    let mut packages: Vec<PythonPackage> = Vec::new();
    let ghost views = scanned_views(scanned@);
    let mut i: usize = 0;
    assert(package_views(packages@) =~= Seq::empty());
    while i < scanned.len()
        invariant
            i <= scanned.len(),
            views == scanned_views(scanned@),
            loaded_packages(views, i as int) == Ok::<Seq<PythonPackageView>, LockError>(
                package_views(packages@),
            ),
        decreases scanned.len() - i,
    {
        assert(views[i as int] == scanned@[i as int]@);
        if is_installed_by_pip(&scanned[i].distribution) {
            match PythonPackage::new(&scanned[i].distribution, scanned[i].metadata.duplicate()) {
                Ok(package) => {
                    let ghost before = package_views(packages@);
                    packages.push(package);
                    assert(package_views(packages@) =~= before.push(package@));
                },
                Err(e) => {
                    proof {
                        lemma_loading_failure_stays(views, i + 1, scanned.len() as int);
                    }
                    return Err(e);
                },
            }
        }
        i = i + 1;
    }
    Ok(packages)
}

/// Loading depends on nothing but the distribution and its metadata file:
/// loading the same twice gives the same package, or the same failure.
pub proof fn lemma_loading_is_repeatable(
    first: ScannedDistributionView,
    second: ScannedDistributionView,
)
    requires
        first == second,
    ensures
        loaded_package(first.distribution, first.metadata) == loaded_package(
            second.distribution,
            second.metadata,
        ),
        loaded_packages(seq![first], 1) == loaded_packages(seq![second], 1),
{
}

/// A truncated or otherwise malformed metadata file fails the whole load,
/// wherever the distribution stands among those that pip installed.
pub proof fn lemma_malformed_metadata_is_fatal(scanned: Seq<ScannedDistributionView>, i: int)
    requires
        0 <= i < scanned.len(),
        installed_by_pip(scanned[i].distribution),
        scanned[i].metadata is Malformed || scanned[i].metadata is Unreadable,
    ensures
        loaded_packages(scanned, scanned.len() as int) is Err,
{
    if loaded_packages(scanned, i) is Err {
        lemma_loading_failure_stays(scanned, i, scanned.len() as int);
    } else {
        lemma_loading_failure_stays(scanned, i + 1, scanned.len() as int);
    }
}

} // verus!
