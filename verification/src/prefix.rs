//! Locking a prefix: from what was found installed, and from what the
//! package index answered, to the frozen lock model.
//!
//! The binary packages give the channels and the platform of the
//! environment, and are recorded first. Where Python is among them, the
//! distributions that pip installed are loaded, reconciled with the index,
//! and recorded as wheels. Any failure on the way ends the operation: no
//! model comes out, and so no lock file is written.

use vstd::prelude::*;
use crate::channel::{channel_of_package, get_channel_url_from_package_url, normalize_index_url, normalized_index_url};
use crate::dedup::deduplicated;
use crate::error::LockError;
use crate::lock::{
    add_conda_packages, add_pypi_packages, binary_views, empty_model, wheels_outcome,
    with_binary_packages, with_wheels, LockModel,
};
use crate::metadata::{
    get_pypi_packages, loaded_packages, ScannedDistribution, ScannedDistributionView, scanned_views,
};
use crate::model::{LockModelView, Phase};
use crate::package::{
    package_views, subdirs, InstalledBinaryPackage, InstalledBinaryPackageView, PythonPackageView,
};
use crate::platform::{infer_platform, inferred_platform};
use crate::reconcile::{
    get_available_artifacts, reconciled, response_views, IndexResponse, IndexResponseView,
};
use crate::search::{first_match, lemma_first_match, lemma_first_match_is};
use crate::text::{same_text, texts, trim_trailing, without_trailing};
use crate::url::url_normal_form;

verus! {

/// The name of the environment where none is given.
pub const DEFAULT_ENVIRONMENT: &'static str = "default";

/// The package index where none is given.
pub const DEFAULT_INDEX_URL: &'static str = "https://pypi.org/simple/";

/// `Version::as_major_minor` of the conda version that `Version::from_str`
/// reads from the text: the first two numbers of the version, where it
/// starts with two. `None` where the text is no version, too.
pub uninterp spec fn conda_major_minor(version: Seq<char>) -> Option<(u64, u64)>;

/// `Version::from_str` of `rattler_conda_types`, then
/// `Version::as_major_minor`.
#[verifier::external_body]
fn major_minor(version: &str) -> (r: Option<(u64, u64)>)
    ensures
        r == conda_major_minor(version@),
{
    match version.parse::<rattler_conda_types::Version>() {
        Ok(parsed) => parsed.as_major_minor(),
        Err(_) => None,
    }
}

/// The position of the package `python`, or the number of packages where it
/// is not among them.
pub open spec fn python_index(packages: Seq<InstalledBinaryPackageView>) -> int {
    first_match(packages, |p: InstalledBinaryPackageView| p.name == "python"@)
}

/// The Python interpreter of the environment: the first package of the name
/// `python`, if there is one.
pub fn get_python_package(packages: &Vec<InstalledBinaryPackage>) -> (r: Option<
    &InstalledBinaryPackage,
>)
    ensures
        r is Some == (python_index(binary_views(packages@)) < packages.len()),
        r matches Some(python) ==> python == packages@[python_index(binary_views(packages@))],
{
    let ghost views = binary_views(packages@);
    let ghost wanted = |p: InstalledBinaryPackageView| p.name == "python"@;
    let mut i: usize = 0;
    while i < packages.len()
        invariant
            i <= packages.len(),
            views == binary_views(packages@),
            wanted == (|p: InstalledBinaryPackageView| p.name == "python"@),
            forall|k: int| 0 <= k < i ==> !wanted(#[trigger] views[k]),
        decreases packages.len() - i,
    {
        assert(views[i as int] == packages@[i as int]@);
        if same_text(packages[i].name.as_str(), "python") {
            proof {
                lemma_first_match_is(views, wanted, i as int);
            }
            return Some(&packages[i]);
        }
        i = i + 1;
    }
    proof {
        lemma_first_match_is(views, wanted, i as int);
    }
    None
}

/// The version of Python that the layout of the environment goes by: the
/// first two numbers of the version of the interpreter and a patch number of
/// zero. There is none where one of the two numbers does not fit in 32 bits.
pub open spec fn layout_version(major_minor: Option<(u64, u64)>) -> Option<(u32, u32, u32)> {
    match major_minor {
        Some((major, minor)) => if major <= u32::MAX && minor <= u32::MAX {
            Some((major as u32, minor as u32, 0u32))
        } else {
            None
        },
        None => None,
    }
}

/// The version of Python by which the distributions of an environment are
/// looked for, from the first two numbers of the version of the interpreter.
pub fn venv_python_version(major_minor: Option<(u64, u64)>) -> (r: Option<(u32, u32, u32)>)
    ensures
        r == layout_version(major_minor),
{
    match major_minor {
        Some((major, minor)) => {
            if major <= 0xFFFF_FFFF && minor <= 0xFFFF_FFFF {
                Some((major as u32, minor as u32, 0))
            } else {
                None
            }
        },
        None => None,
    }
}

/// The version of Python by which the distributions of an environment are
/// looked for, from the version of the package `python`. `None` where the
/// version does not start with two numbers that fit in 32 bits.
pub fn python_layout_version(python: &InstalledBinaryPackage) -> (r: Option<(u32, u32, u32)>)
    ensures
        r == layout_version(conda_major_minor(python.version@)),
{
    venv_python_version(major_minor(python.version.as_str()))
}

/// The channels of the first `n` packages, in their order: for each package
/// whose URL names a channel, the URL of that channel without the `/` at
/// its end. A channel occurs as often as it has packages.
pub open spec fn package_channels(packages: Seq<InstalledBinaryPackageView>, n: int) -> Seq<
    Seq<char>,
>
    decreases n,
{
    if n <= 0 {
        Seq::empty()
    } else {
        match channel_of_package(packages[n - 1].url) {
            Some(channel) => package_channels(packages, n - 1).push(
                without_trailing(channel, '/'),
            ),
            None => package_channels(packages, n - 1),
        }
    }
}

/// The channels that the packages came from, one for each package whose URL
/// names one, in the order of the packages.
pub fn conda_channels(packages: &Vec<InstalledBinaryPackage>) -> (r: Vec<String>)
    ensures
        texts(r@) == package_channels(binary_views(packages@), packages.len() as int),
{
    let mut channels: Vec<String> = Vec::new();
    let mut i: usize = 0;
    assert(texts(channels@) =~= Seq::empty());
    while i < packages.len()
        invariant
            i <= packages.len(),
            texts(channels@) == package_channels(binary_views(packages@), i as int),
        decreases packages.len() - i,
    {
        assert(binary_views(packages@)[i as int] == packages@[i as int]@);
        match get_channel_url_from_package_url(packages[i].url.as_str()) {
            Some(channel) => {
                let ghost before = texts(channels@);
                let trimmed = trim_trailing(channel.as_str(), '/');
                channels.push(trimmed);
                assert(texts(channels@) =~= before.push(trimmed@));
            },
            None => {},
        }
        i = i + 1;
    }
    channels
}

/// What looking for distributions in the environment gave.
pub enum VenvScan {
    /// The environment could not be enumerated.
    Failed,
    /// The distributions that were found, each with what became of its
    /// metadata file.
    Found(Vec<ScannedDistribution>),
}

/// The mathematical reading of a [`VenvScan`].
pub enum VenvScanView {
    Failed,
    Found(Seq<ScannedDistributionView>),
}

impl View for VenvScan {
    type V = VenvScanView;

    open spec fn view(&self) -> VenvScanView {
        match self {
            VenvScan::Failed => VenvScanView::Failed,
            VenvScan::Found(scanned) => VenvScanView::Found(scanned_views(scanned@)),
        }
    }
}

/// The model of an environment with its binary packages: the channels that
/// the packages came from, each once, and every package for the platform
/// that is inferred from them all.
pub open spec fn binary_model(
    environment: Seq<char>,
    packages: Seq<InstalledBinaryPackage>,
) -> LockModelView {
    let views = binary_views(packages);
    with_binary_packages(
        empty_model().with_channels(
            environment,
            deduplicated(package_channels(views, views.len() as int)),
        ).in_phase(Phase::ChannelsSet),
        environment,
        inferred_platform(subdirs(packages)),
        views,
        views.len() as int,
    )
}

/// The frozen model of an environment, or the failure that ends the
/// operation.
///
/// Without a package `python` the binary packages are all there is. With
/// one, the distributions that pip installed are loaded, reconciled with the
/// responses of the index, and added as wheels; the first step that fails
/// decides the error.
pub open spec fn locked_prefix(
    environment: Seq<char>,
    index_url: Seq<char>,
    packages: Seq<InstalledBinaryPackage>,
    venv: VenvScanView,
    responses: Seq<IndexResponseView>,
) -> Result<LockModelView, LockError> {
    let base = binary_model(environment, packages);
    let views = binary_views(packages);
    if python_index(views) >= views.len() {
        Ok(base.in_phase(Phase::Finalized))
    } else if layout_version(conda_major_minor(views[python_index(views)].version)) is None {
        Err(LockError::ScanFailure)
    } else {
        match venv {
            VenvScanView::Failed => Err(LockError::ScanFailure),
            VenvScanView::Found(scanned) => match loaded_packages(scanned, scanned.len() as int) {
                Err(e) => Err(e),
                Ok(wheels) => if normalized_index_url(index_url) is None {
                    Err(LockError::IndexQueryFailure)
                } else {
                    match reconciled(wheels, responses, wheels.len() as int) {
                        Err(e) => Err(e),
                        Ok(table) => match wheels_outcome(wheels, table, url_normal_form(index_url)) {
                            Err(e) => Err(e),
                            Ok(_) => Ok(
                                with_wheels(
                                    base,
                                    environment,
                                    inferred_platform(subdirs(packages)),
                                    wheels,
                                    table,
                                    url_normal_form(index_url)->0,
                                    wheels.len() as int,
                                ).in_phase(Phase::Finalized),
                            ),
                        },
                    }
                },
            },
        }
    }
}

/// The reading of a model, or the error.
pub open spec fn ok_model(r: Result<LockModel, LockError>) -> Result<LockModelView, LockError> {
    match r {
        Ok(model) => Ok(model@),
        Err(e) => Err(e),
    }
}

/// Locks an environment: from the binary packages of the prefix, from what
/// was found of distributions in it, and from what the index answered for
/// each distribution that pip installed (`responses[i]` for the `i`-th of
/// them), to the frozen lock model.
///
/// The scan and the responses are of no account where Python is not among
/// the binary packages. Fails with `ScanFailure` where the version of
/// Python does not start with two numbers or the environment could not be
/// enumerated, with `MetadataUnreadable` or `MetadataMalformed` where
/// loading does, with `IndexQueryFailure` where `index_url` is no URL or a
/// query failed, and with `ArtifactNotFound` where reconciliation does.
pub fn lock_prefix(
    environment: &str,
    index_url: &str,
    conda_packages: &Vec<InstalledBinaryPackage>,
    venv: &VenvScan,
    responses: &Vec<IndexResponse>,
) -> (r: Result<LockModel, LockError>)
    ensures
        ok_model(r) == locked_prefix(
            environment@,
            index_url@,
            conda_packages@,
            venv@,
            response_views(responses@),
        ),
        r matches Ok(model) ==> model.wf(),
{
    let channels = conda_channels(conda_packages);
    let platform = infer_platform(conda_packages);
    let mut lock_file = LockModel::new();
    lock_file.set_channels(environment, &channels);
    let _ = add_conda_packages(&mut lock_file, environment, conda_packages, &platform);
    match get_python_package(conda_packages) {
        None => Ok(lock_file.finish()),
        Some(python) => {
            proof {
                let views = binary_views(conda_packages@);
                lemma_first_match(views, |p: InstalledBinaryPackageView| p.name == "python"@);
                assert(views[python_index(views)] == python@);
            }
            if python_layout_version(python).is_none() {
                return Err(LockError::ScanFailure);
            }
            let scanned = match venv {
                VenvScan::Failed => {
                    return Err(LockError::ScanFailure);
                },
                VenvScan::Found(scanned) => scanned,
            };
            let wheels = match get_pypi_packages(scanned) {
                Err(e) => {
                    return Err(e);
                },
                Ok(wheels) => wheels,
            };
            if normalize_index_url(index_url).is_none() {
                return Err(LockError::IndexQueryFailure);
            }
            let artifacts = match get_available_artifacts(&wheels, responses) {
                Err(e) => {
                    return Err(e);
                },
                Ok(artifacts) => artifacts,
            };
            match add_pypi_packages(
                &mut lock_file,
                environment,
                &wheels,
                &artifacts,
                index_url,
                &platform,
            ) {
                Err(e) => Err(e),
                Ok(()) => {
                    proof {
                        lemma_first_match(
                            package_views(wheels@),
                            |p: PythonPackageView| !artifacts@.dom().contains(p.distribution.name),
                        );
                    }
                    Ok(lock_file.finish())
                },
            }
        },
    }
}

} // verus!
