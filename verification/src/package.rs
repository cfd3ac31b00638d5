//! What is found installed in an environment: the binary packages of the
//! prefix, and the distributions that pip installed into it.

use vstd::prelude::*;
use crate::text::{some_text, texts};

verus! {

/// The record of a conda package, `rattler_conda_types::PackageRecord`. It is
/// carried through as it is: nothing here reads it.
#[verifier::external_type_specification]
#[verifier::external_body]
pub struct ExPackageRecord(rattler_conda_types::PackageRecord);

/// One binary package found in the prefix.
pub struct InstalledBinaryPackage {
    /// The normalized name of the package.
    pub name: String,
    /// Its exact version.
    pub version: String,
    /// The subdirectory of the channel that it lies in: the name of a
    /// platform, or `noarch`.
    pub subdir: String,
    /// The URL that it was downloaded from.
    pub url: String,
    /// The name of its file.
    pub file_name: String,
    /// The rest of its record, which is carried into the lock as it is.
    pub record: rattler_conda_types::PackageRecord,
}

/// The mathematical reading of an [`InstalledBinaryPackage`]: its texts, and
/// the record as it is.
pub struct InstalledBinaryPackageView {
    pub name: Seq<char>,
    pub version: Seq<char>,
    pub subdir: Seq<char>,
    pub url: Seq<char>,
    pub file_name: Seq<char>,
    pub record: rattler_conda_types::PackageRecord,
}

impl View for InstalledBinaryPackage {
    type V = InstalledBinaryPackageView;

    open spec fn view(&self) -> InstalledBinaryPackageView {
        InstalledBinaryPackageView {
            name: self.name@,
            version: self.version@,
            subdir: self.subdir@,
            url: self.url@,
            file_name: self.file_name@,
            record: self.record,
        }
    }
}

/// The subdirectories of the packages, in their order.
pub open spec fn subdirs(packages: Seq<InstalledBinaryPackage>) -> Seq<Seq<char>> {
    packages.map_values(|p: InstalledBinaryPackage| p.subdir@)
}

/// One distribution found in the site-packages directory of the environment.
pub struct InstalledWheelDistribution {
    /// The normalized name of the distribution.
    pub name: String,
    /// Its exact version.
    pub version: String,
    /// The path of its `.dist-info` directory, relative to the prefix.
    pub dist_info: String,
    /// The installer that its `INSTALLER` file names, if it has one.
    pub installer: Option<String>,
}

/// The mathematical reading of an [`InstalledWheelDistribution`].
pub struct InstalledWheelDistributionView {
    pub name: Seq<char>,
    pub version: Seq<char>,
    pub dist_info: Seq<char>,
    pub installer: Option<Seq<char>>,
}

impl View for InstalledWheelDistribution {
    type V = InstalledWheelDistributionView;

    open spec fn view(&self) -> InstalledWheelDistributionView {
        InstalledWheelDistributionView {
            name: self.name@,
            version: self.version@,
            dist_info: self.dist_info@,
            installer: some_text(self.installer),
        }
    }
}

/// What the `METADATA` file of a wheel declares, as far as a lock needs it.
pub struct WheelMetadata {
    /// The dependencies of the distribution, each as it is written.
    pub requires_dist: Vec<String>,
    /// The versions of Python that the distribution runs on.
    pub requires_python: Option<String>,
}

/// The mathematical reading of a [`WheelMetadata`].
pub struct WheelMetadataView {
    pub requires_dist: Seq<Seq<char>>,
    pub requires_python: Option<Seq<char>>,
}

impl View for WheelMetadata {
    type V = WheelMetadataView;

    open spec fn view(&self) -> WheelMetadataView {
        WheelMetadataView {
            requires_dist: texts(self.requires_dist@),
            requires_python: some_text(self.requires_python),
        }
    }
}

/// The kind of a file that a package index offers.
#[derive(Debug, Clone, Copy, PartialEq, Eq, Structural)]
pub enum ArtifactKind {
    /// A built distribution.
    Wheel,
    /// A source distribution.
    SourceDistribution,
    /// Anything else.
    Other,
}

/// One file that the index reports for a version of a package.
#[derive(Debug)]
pub struct RemoteArtifact {
    /// Where the file can be downloaded.
    pub url: String,
    /// The SHA-256 digest of the file, in hexadecimal, where the index gives
    /// one.
    pub sha256: Option<String>,
    /// The versions of Python that the file is for, where the index says.
    pub requires_python: Option<String>,
    /// The kind of the file.
    pub kind: ArtifactKind,
}

/// The mathematical reading of a [`RemoteArtifact`].
pub struct RemoteArtifactView {
    pub url: Seq<char>,
    pub sha256: Option<Seq<char>>,
    pub requires_python: Option<Seq<char>>,
    pub kind: ArtifactKind,
}

impl View for RemoteArtifact {
    type V = RemoteArtifactView;

    open spec fn view(&self) -> RemoteArtifactView {
        RemoteArtifactView {
            url: self.url@,
            sha256: some_text(self.sha256),
            requires_python: some_text(self.requires_python),
            kind: self.kind,
        }
    }
}

/// The readings of a sequence of artifacts.
pub open spec fn artifact_views(artifacts: Seq<RemoteArtifact>) -> Seq<RemoteArtifactView> {
    artifacts.map_values(|a: RemoteArtifact| a@)
}

/// A copy of an optional string.
pub fn copy_optional_text(text: &Option<String>) -> (r: Option<String>)
    ensures
        some_text(r) == some_text(*text),
{
    match text {
        Some(s) => Some(s.clone()),
        None => None,
    }
}

/// A copy of a vector of strings.
pub fn copy_texts(items: &Vec<String>) -> (r: Vec<String>)
    ensures
        texts(r@) == texts(items@),
{
    let mut out: Vec<String> = Vec::new();
    let mut i: usize = 0;
    while i < items.len()
        invariant
            i <= items.len(),
            out.len() == i,
            forall|k: int| 0 <= k < i ==> out@[k]@ == items@[k]@,
        decreases items.len() - i,
    {
        out.push(items[i].clone());
        i = i + 1;
    }
    assert(texts(out@) =~= texts(items@));
    out
}

impl InstalledWheelDistribution {
    /// A second distribution with the same contents.
    pub fn duplicate(&self) -> (r: InstalledWheelDistribution)
        ensures
            r@ == self@,
    {
        InstalledWheelDistribution {
            name: self.name.clone(),
            version: self.version.clone(),
            dist_info: self.dist_info.clone(),
            installer: copy_optional_text(&self.installer),
        }
    }
}

impl WheelMetadata {
    /// A second record with the same contents.
    pub fn duplicate(&self) -> (r: WheelMetadata)
        ensures
            r@ == self@,
    {
        WheelMetadata {
            requires_dist: copy_texts(&self.requires_dist),
            requires_python: copy_optional_text(&self.requires_python),
        }
    }
}

impl RemoteArtifact {
    /// A second artifact with the same contents.
    pub fn duplicate(&self) -> (r: RemoteArtifact)
        ensures
            r@ == self@,
    {
        RemoteArtifact {
            url: self.url.clone(),
            sha256: copy_optional_text(&self.sha256),
            requires_python: copy_optional_text(&self.requires_python),
            kind: self.kind,
        }
    }
}

/// A distribution together with what its `METADATA` file declares.
pub struct PythonPackage {
    /// The distribution as it was found.
    pub distribution: InstalledWheelDistribution,
    /// The metadata of the wheel, from the `METADATA` file of the package.
    pub metadata: WheelMetadata,
}

/// The mathematical reading of a [`PythonPackage`].
pub struct PythonPackageView {
    pub distribution: InstalledWheelDistributionView,
    pub metadata: WheelMetadataView,
}

impl View for PythonPackage {
    type V = PythonPackageView;

    open spec fn view(&self) -> PythonPackageView {
        PythonPackageView { distribution: self.distribution@, metadata: self.metadata@ }
    }
}

/// The readings of a sequence of packages.
pub open spec fn package_views(packages: Seq<PythonPackage>) -> Seq<PythonPackageView> {
    packages.map_values(|p: PythonPackage| p@)
}

} // verus!
