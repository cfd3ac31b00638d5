//! The index reconciler: from a distribution that is installed, known by its
//! name and exact version, to the one file of the package index that is its
//! canonical remote copy.
//!
//! The index lists, for every version of a package, the files that it has.
//! The installed version is looked up in that listing, and the first wheel
//! among its files is taken. Source distributions and other files are never
//! taken: where the version has no wheel, the environment cannot be locked.

use vstd::prelude::*;
use crate::error::LockError;
use crate::package::{
    artifact_views, package_views, ArtifactKind, InstalledWheelDistribution, PythonPackage,
    PythonPackageView, RemoteArtifact, RemoteArtifactView,
};
use crate::search::{first_match, lemma_first_match};
use crate::text::same_text;

verus! {

/// A version of a Python package, `pep440_rs::Version`: the key of a
/// listing. Nothing here reads it.
#[verifier::external_type_specification]
#[verifier::external_body]
pub struct ExVersion(pep440_rs::Version);

/// The insertion-ordered map of the `indexmap` crate, `IndexMap`. What one
/// holds is read through [`listing_contents`] only.
#[verifier::external_type_specification]
#[verifier::external_body]
#[verifier::reject_recursive_types(K)]
#[verifier::reject_recursive_types(V)]
#[verifier::reject_recursive_types(S)]
pub struct ExIndexMap<K, V, S>(indexmap::IndexMap<K, V, S>);

/// What the index reports for one package: the files of each version. A key
/// is a version and the flag that says whether prereleases are accepted.
pub type ArtifactListing = indexmap::IndexMap<(pep440_rs::Version, bool), Vec<RemoteArtifact>>;

/// What a listing holds, as the lookup that it answers. A version text and a
/// flag are in the domain where `Version::from_str` reads the text and the
/// listing has a key of that flag whose version equals the one read; the
/// value is what the listing has under that key.
pub uninterp spec fn listing_contents(listing: ArtifactListing) -> Map<
    (Seq<char>, bool),
    Seq<RemoteArtifactView>,
>;

/// `Version::any_prerelease` of the version that `Version::from_str` reads
/// from the text: whether it is an alpha, beta, release candidate or
/// development version. `None` where the text is no version.
pub uninterp spec fn pep440_any_prerelease(version: Seq<char>) -> Option<bool>;

/// `Version::from_str`, then `Version::any_prerelease`.
#[verifier::external_body]
pub(crate) fn any_prerelease(version: &str) -> (r: Option<bool>)
    ensures
        r == pep440_any_prerelease(version@),
{
    match version.parse::<pep440_rs::Version>() {
        Ok(parsed) => Some(parsed.any_prerelease()),
        Err(_) => None,
    }
}

/// `IndexMap::get` with the key that is made of the version that
/// `Version::from_str` reads from the text and of the flag: the value under
/// the key of the listing that equals it, if there is one.
#[verifier::external_body]
fn listing_get<'a>(listing: &'a ArtifactListing, version: &str, allows_prerelease: bool) -> (r:
    Option<&'a Vec<RemoteArtifact>>)
    ensures
        r is Some == listing_contents(*listing).dom().contains((version@, allows_prerelease)),
        r matches Some(found) ==> artifact_views(found@) == listing_contents(*listing)[(
            version@,
            allows_prerelease,
        )],
{
    match version.parse::<pep440_rs::Version>() {
        Ok(parsed) => listing.get(&(parsed, allows_prerelease)),
        Err(_) => None,
    }
}

/// The files that a listing has for a version, looked up with the given
/// flag. There are none where the version could not be read.
pub open spec fn matching_artifacts(
    contents: Map<(Seq<char>, bool), Seq<RemoteArtifactView>>,
    version: Seq<char>,
    prerelease: Option<bool>,
) -> Option<Seq<RemoteArtifactView>> {
    match prerelease {
        None => None,
        Some(flag) => if contents.dom().contains((version, flag)) {
            Some(contents[(version, flag)])
        } else {
            None
        },
    }
}

/// The position of the first wheel among the files, or their number where
/// none of them is a wheel.
pub open spec fn first_wheel_index(artifacts: Seq<RemoteArtifactView>) -> int {
    first_match(artifacts, |a: RemoteArtifactView| a.kind == ArtifactKind::Wheel)
}

/// The file that is chosen among those of the matched version: the first
/// wheel. Without a matched version, or without a wheel among its files,
/// nothing is chosen.
pub open spec fn chosen_artifact(matching: Option<Seq<RemoteArtifactView>>) -> Result<
    RemoteArtifactView,
    LockError,
> {
    match matching {
        None => Err(LockError::ArtifactNotFound),
        Some(artifacts) => if first_wheel_index(artifacts) < artifacts.len() {
            Ok(artifacts[first_wheel_index(artifacts)])
        } else {
            Err(LockError::ArtifactNotFound)
        },
    }
}

/// The reading of a chosen artifact, or the error.
pub open spec fn ok_artifact(r: Result<RemoteArtifact, LockError>) -> Result<
    RemoteArtifactView,
    LockError,
> {
    match r {
        Ok(a) => Ok(a@),
        Err(e) => Err(e),
    }
}

/// The readings of the files that were found, if any were.
pub open spec fn found_views(found: Option<&Vec<RemoteArtifact>>) -> Option<
    Seq<RemoteArtifactView>,
> {
    match found {
        Some(artifacts) => Some(artifact_views(artifacts@)),
        None => None,
    }
}

/// The first wheel is where [`first_wheel_index`] says, and nothing before it
/// is a wheel.
pub proof fn lemma_first_wheel_index(artifacts: Seq<RemoteArtifactView>)
    ensures
        0 <= first_wheel_index(artifacts) <= artifacts.len(),
        first_wheel_index(artifacts) < artifacts.len() ==> artifacts[first_wheel_index(
            artifacts,
        )].kind == ArtifactKind::Wheel,
        forall|k: int|
            0 <= k < first_wheel_index(artifacts) ==> (#[trigger] artifacts[k]).kind
                != ArtifactKind::Wheel,
{
    lemma_first_match(artifacts, |a: RemoteArtifactView| a.kind == ArtifactKind::Wheel);
}

/// Chooses among the files of the matched version: the first wheel.
///
/// Fails with `ArtifactNotFound` where no version matched, and where the
/// matched version has no wheel.
pub fn select_wheel(found: Option<&Vec<RemoteArtifact>>) -> (r: Result<RemoteArtifact, LockError>)
    ensures
        ok_artifact(r) == chosen_artifact(found_views(found)),
        r matches Ok(artifact) ==> artifact.kind == ArtifactKind::Wheel,
{
    match found {
        None => Err(LockError::ArtifactNotFound),
        Some(artifacts) => {
            let ghost views = artifact_views(artifacts@);
            proof {
                lemma_first_wheel_index(views);
            }
            let mut i: usize = 0;
            while i < artifacts.len()
                invariant
                    i <= artifacts.len(),
                    found == Some(artifacts),
                    views == artifact_views(artifacts@),
                    i <= first_wheel_index(views) <= views.len(),
                    first_wheel_index(views) < views.len() ==> views[first_wheel_index(
                        views,
                    )].kind == ArtifactKind::Wheel,
                    forall|k: int|
                        0 <= k < first_wheel_index(views) ==> (#[trigger] views[k]).kind
                            != ArtifactKind::Wheel,
                decreases artifacts.len() - i,
            {
                assert(views[i as int] == artifacts@[i as int]@);
                match artifacts[i].kind {
                    ArtifactKind::Wheel => {
                        assert(first_wheel_index(views) == i);
                        return Ok(artifacts[i].duplicate());
                    },
                    _ => {},
                }
                i = i + 1;
            }
            Err(LockError::ArtifactNotFound)
        },
    }
}

/// Matches a distribution that was found installed with what the index
/// reports for its name: the first wheel of the installed version.
///
/// The version is looked up as it is installed, and with prereleases
/// accepted exactly where the installed version is one itself. Fails with
/// `ArtifactNotFound` where the version is not listed, where it is listed
/// without a wheel, and where the version of the distribution is no version.
pub fn match_distribution_with_artifact(
    distribution: &InstalledWheelDistribution,
    artifacts: &ArtifactListing,
) -> (r: Result<RemoteArtifact, LockError>)
    ensures
        ok_artifact(r) == chosen_artifact(
            matching_artifacts(
                listing_contents(*artifacts),
                distribution.version@,
                pep440_any_prerelease(distribution.version@),
            ),
        ),
        r matches Ok(artifact) ==> artifact.kind == ArtifactKind::Wheel,
{
    match any_prerelease(distribution.version.as_str()) {
        None => Err(LockError::ArtifactNotFound),
        Some(allows_prerelease) => {
            let found = listing_get(artifacts, distribution.version.as_str(), allows_prerelease);
            select_wheel(found)
        },
    }
}

/// Whatever is chosen is a wheel, and it is one of the files of the matched
/// version. A version that has only source distributions and other files
/// gives `ArtifactNotFound`.
pub proof fn lemma_only_wheels_are_chosen(artifacts: Seq<RemoteArtifactView>)
    ensures
        chosen_artifact(Some(artifacts)) matches Ok(chosen) ==> chosen.kind == ArtifactKind::Wheel
            && artifacts.contains(chosen),
        (forall|k: int| 0 <= k < artifacts.len() ==> (#[trigger] artifacts[k]).kind
            != ArtifactKind::Wheel) ==> chosen_artifact(Some(artifacts)) == Err::<
            RemoteArtifactView,
            LockError,
        >(LockError::ArtifactNotFound),
        chosen_artifact(None) == Err::<RemoteArtifactView, LockError>(LockError::ArtifactNotFound),
{
    lemma_first_wheel_index(artifacts);
}

/// What came back when the index was asked for one package.
pub enum IndexResponse {
    /// The index could not be reached, or did not answer.
    Failed,
    /// The files of each version of the package.
    Listing(ArtifactListing),
}

/// The mathematical reading of an [`IndexResponse`].
pub enum IndexResponseView {
    Failed,
    Listing(Map<(Seq<char>, bool), Seq<RemoteArtifactView>>),
}

impl View for IndexResponse {
    type V = IndexResponseView;

    open spec fn view(&self) -> IndexResponseView {
        match self {
            IndexResponse::Failed => IndexResponseView::Failed,
            IndexResponse::Listing(listing) => IndexResponseView::Listing(
                listing_contents(*listing),
            ),
        }
    }
}

/// The readings of a sequence of responses.
pub open spec fn response_views(responses: Seq<IndexResponse>) -> Seq<IndexResponseView> {
    responses.map_values(|r: IndexResponse| r@)
}

/// The remote artifact of each package, by the name of the package. A name
/// that is entered again takes the place of the earlier entry.
pub struct ArtifactTable {
    entries: Vec<(String, RemoteArtifact)>,
}

/// The map that a sequence of entries stands for: a later entry wins.
pub open spec fn entries_map(entries: Seq<(String, RemoteArtifact)>) -> Map<
    Seq<char>,
    RemoteArtifactView,
>
    decreases entries.len(),
{
    if entries.len() == 0 {
        Map::empty()
    } else {
        entries_map(entries.drop_last()).insert(entries.last().0@, entries.last().1@)
    }
}

impl View for ArtifactTable {
    type V = Map<Seq<char>, RemoteArtifactView>;

    closed spec fn view(&self) -> Map<Seq<char>, RemoteArtifactView> {
        entries_map(self.entries@)
    }
}

impl ArtifactTable {
    /// A table without entries.
    pub fn new() -> (r: ArtifactTable)
        ensures
            r@ == Map::<Seq<char>, RemoteArtifactView>::empty(),
    {
        ArtifactTable { entries: Vec::new() }
    }

    /// Enters the artifact of a package under its name.
    pub fn insert(&mut self, name: String, artifact: RemoteArtifact)
        ensures
            final(self)@ == old(self)@.insert(name@, artifact@),
    {
        let ghost before = self.entries@;
        self.entries.push((name, artifact));
        assert(self.entries@.drop_last() =~= before);
    }

    /// The artifact that was entered last under the name, if any was.
    pub fn get(&self, name: &str) -> (r: Option<&RemoteArtifact>)
        ensures
            r is Some == self@.dom().contains(name@),
            r matches Some(artifact) ==> artifact@ == self@[name@],
    {
        let mut i: usize = self.entries.len();
        assert(self.entries@.take(i as int) =~= self.entries@);
        while i > 0
            invariant
                i <= self.entries.len(),
                self@.dom().contains(name@) == entries_map(self.entries@.take(i as int)).dom().contains(
                    name@,
                ),
                self@.dom().contains(name@) ==> self@[name@] == entries_map(
                    self.entries@.take(i as int),
                )[name@],
            decreases i,
        {
            let ghost upto = self.entries@.take(i as int);
            proof {
                assert(upto.drop_last() =~= self.entries@.take(i - 1));
                assert(upto.last() == self.entries@[i - 1]);
            }
            i = i - 1;
            if same_text(self.entries[i].0.as_str(), name) {
                return Some(&self.entries[i].1);
            }
        }
        None
    }
}

/// What the response to the query for one package gives: the chosen wheel of
/// the installed version. A query that failed, or that was never answered,
/// is an `IndexQueryFailure`.
pub open spec fn reconciled_one(
    package: PythonPackageView,
    responses: Seq<IndexResponseView>,
    i: int,
) -> Result<RemoteArtifactView, LockError> {
    if i >= responses.len() {
        Err(LockError::IndexQueryFailure)
    } else {
        match responses[i] {
            IndexResponseView::Failed => Err(LockError::IndexQueryFailure),
            IndexResponseView::Listing(contents) => chosen_artifact(
                matching_artifacts(
                    contents,
                    package.distribution.version,
                    pep440_any_prerelease(package.distribution.version),
                ),
            ),
        }
    }
}

/// The table of the first `n` packages, each with the response of the same
/// position; the first failure among them, in their order, where there is
/// one.
pub open spec fn reconciled(
    packages: Seq<PythonPackageView>,
    responses: Seq<IndexResponseView>,
    n: int,
) -> Result<Map<Seq<char>, RemoteArtifactView>, LockError>
    decreases n,
{
    if n <= 0 {
        Ok(Map::empty())
    } else {
        match reconciled(packages, responses, n - 1) {
            Err(e) => Err(e),
            Ok(table) => match reconciled_one(packages[n - 1], responses, n - 1) {
                Err(e) => Err(e),
                Ok(artifact) => Ok(table.insert(packages[n - 1].distribution.name, artifact)),
            },
        }
    }
}

/// Once a package has failed, the failure stands whatever follows.
pub proof fn lemma_reconciled_failure_stays(
    packages: Seq<PythonPackageView>,
    responses: Seq<IndexResponseView>,
    failed: int,
    n: int,
)
    requires
        0 <= failed <= n,
        reconciled(packages, responses, failed) is Err,
    ensures
        reconciled(packages, responses, n) == reconciled(packages, responses, failed),
    decreases n - failed,
{
    if failed < n {
        lemma_reconciled_failure_stays(packages, responses, failed, n - 1);
    }
}

/// The reading of a table, or the error.
pub open spec fn ok_table(r: Result<ArtifactTable, LockError>) -> Result<
    Map<Seq<char>, RemoteArtifactView>,
    LockError,
> {
    match r {
        Ok(table) => Ok(table@),
        Err(e) => Err(e),
    }
}

/// Finds the remote artifact of every package, from the responses of the
/// index: `responses[i]` is what came back for `packages[i]`.
///
/// Stops at the first package, in their order, that has no artifact: with
/// `IndexQueryFailure` where its query failed or has no response, with
/// `ArtifactNotFound` where the index has no wheel of the installed version.
pub fn get_available_artifacts(packages: &Vec<PythonPackage>, responses: &Vec<IndexResponse>) -> (r:
    Result<ArtifactTable, LockError>)
    ensures
        ok_table(r) == reconciled(
            package_views(packages@),
            response_views(responses@),
            packages.len() as int,
        ),
{
    let mut artifacts = ArtifactTable::new();
    let mut i: usize = 0;
    while i < packages.len()
        invariant
            i <= packages.len(),
            reconciled(package_views(packages@), response_views(responses@), i as int) == Ok::<
                Map<Seq<char>, RemoteArtifactView>,
                LockError,
            >(artifacts@),
        decreases packages.len() - i,
    {
        let package = &packages[i];
        assert(package_views(packages@)[i as int] == package@);
        let ghost views = package_views(packages@);
        let ghost answers = response_views(responses@);
        if i >= responses.len() {
            proof {
                lemma_reconciled_failure_stays(views, answers, i + 1, packages.len() as int);
            }
            return Err(LockError::IndexQueryFailure);
        }
        assert(response_views(responses@)[i as int] == responses@[i as int]@);
        match &responses[i] {
            IndexResponse::Failed => {
                proof {
                    lemma_reconciled_failure_stays(views, answers, i + 1, packages.len() as int);
                }
                return Err(LockError::IndexQueryFailure);
            },
            IndexResponse::Listing(listing) => {
                match match_distribution_with_artifact(&package.distribution, listing) {
                    Ok(artifact) => {
                        artifacts.insert(package.distribution.name.clone(), artifact);
                    },
                    Err(_) => {
                        proof {
                            lemma_reconciled_failure_stays(
                                views,
                                answers,
                                i + 1,
                                packages.len() as int,
                            );
                        }
                        return Err(LockError::ArtifactNotFound);
                    },
                }
            },
        }
        i = i + 1;
    }
    Ok(artifacts)
}

} // verus!
