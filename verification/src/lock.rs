//! The lock assembler: it owns the lock model while it is put together.
//!
//! A model starts empty. Channels are set first, binary packages are added
//! next, wheels after them, and at the end the model is frozen. It never
//! moves back: once wheels are added no binary package is, and a frozen
//! model takes nothing more.

use vstd::prelude::*;
use crate::channel::{channel_of_package, get_channel_url_from_package_url};
use crate::dedup::{deduplicated, lemma_deduplicated, unique_texts};
use crate::model::{
    empty_environment, environment_index, environment_views, lemma_with_channels,
    lemma_with_environment, lemma_with_indexes, lemma_with_package, locked_views, same_slot,
    slot_index, with_environment, BinaryEntry, BinaryEntryView, LockEnvironment,
    LockEnvironmentView, LockModelView, LockedPackage, LockedPackageView, PackageEntry,
    PackageEntryView, Phase, WheelEntry, WheelEntryView,
};
use crate::package::{
    copy_optional_text, copy_texts, package_views, InstalledBinaryPackage, InstalledBinaryPackageView,
    PythonPackage, PythonPackageView, RemoteArtifact, RemoteArtifactView,
};
use crate::platform::Platform;
use crate::error::LockError;
use crate::reconcile::ArtifactTable;
use crate::search::{first_match, lemma_first_match, lemma_first_match_is};
use crate::url::{normal_form, url_normal_form};
use crate::text::{same_text, texts};

verus! {

/// A lock model that is being put together.
pub struct LockModel {
    phase: Phase,
    environments: Vec<LockEnvironment>,
    packages: Vec<LockedPackage>,
}

impl View for LockModel {
    type V = LockModelView;

    closed spec fn view(&self) -> LockModelView {
        LockModelView {
            phase: self.phase,
            environments: environment_views(self.environments@),
            packages: locked_views(self.packages@),
        }
    }
}

/// The model that nothing has been recorded in.
pub open spec fn empty_model() -> LockModelView {
    LockModelView { phase: Phase::Empty, environments: Seq::empty(), packages: Seq::empty() }
}

/// Whether channels can be set in this phase: before any package is added.
pub open spec fn takes_channels(phase: Phase) -> bool {
    phase == Phase::Empty || phase == Phase::ChannelsSet
}

/// Whether binary packages can be added in this phase: once channels are
/// set, and before any wheel is added.
pub open spec fn takes_binary_packages(phase: Phase) -> bool {
    phase == Phase::ChannelsSet || phase == Phase::BinaryPackagesAdded
}

/// Whether wheels can be added in this phase: once channels are set, and
/// before the model is frozen.
pub open spec fn takes_wheels(phase: Phase) -> bool {
    phase == Phase::ChannelsSet || phase == Phase::BinaryPackagesAdded || phase
        == Phase::PypiPackagesAdded
}

/// The place of a phase in the order of the phases.
pub open spec fn phase_rank(phase: Phase) -> nat {
    match phase {
        Phase::Empty => 0,
        Phase::ChannelsSet => 1,
        Phase::BinaryPackagesAdded => 2,
        Phase::PypiPackagesAdded => 3,
        Phase::Finalized => 4,
    }
}

/// A model only moves forward: whatever can be done in a phase leads to a
/// phase that comes no earlier, and freezing leads to the last one, in which
/// nothing can be done.
pub proof fn lemma_phases_move_forward(phase: Phase)
    ensures
        takes_channels(phase) ==> phase_rank(phase) <= phase_rank(Phase::ChannelsSet),
        takes_binary_packages(phase) ==> phase_rank(phase) <= phase_rank(
            Phase::BinaryPackagesAdded,
        ),
        takes_wheels(phase) ==> phase_rank(phase) <= phase_rank(Phase::PypiPackagesAdded),
        phase != Phase::Finalized ==> phase_rank(phase) < phase_rank(Phase::Finalized),
        !takes_channels(Phase::Finalized) && !takes_binary_packages(Phase::Finalized)
            && !takes_wheels(Phase::Finalized),
{
}

/// The entry of a binary package that was found installed: the package,
/// with its record as it is, and the channel that its URL names.
pub open spec fn binary_entry(package: InstalledBinaryPackageView) -> BinaryEntryView {
    BinaryEntryView {
        name: package.name,
        version: package.version,
        subdir: package.subdir,
        url: package.url,
        file_name: package.file_name,
        channel: channel_of_package(package.url),
        record: package.record,
    }
}

/// The entry of a wheel: the name and version of the installed distribution
/// and the dependencies that it declares, with the URL, the digest and the
/// Python versions of the artifact of the index. It is never editable.
pub open spec fn wheel_entry(package: PythonPackageView, artifact: RemoteArtifactView) -> WheelEntryView {
    WheelEntryView {
        name: package.distribution.name,
        version: package.distribution.version,
        url: artifact.url,
        sha256: artifact.sha256,
        requires_dist: package.metadata.requires_dist,
        requires_python: artifact.requires_python,
        editable: false,
    }
}

/// `PackageRecord::clone`, which `derive` wrote: a second record, equal to
/// the first in every field.
#[verifier::external_body]
fn copy_record(record: &rattler_conda_types::PackageRecord) -> (r:
    rattler_conda_types::PackageRecord)
    ensures
        r == *record,
{
    record.clone()
}

impl LockModel {
    /// The invariant of the model, which every operation keeps.
    pub open spec fn wf(&self) -> bool {
        self@.wf()
    }

    /// A model in which nothing is recorded.
    pub fn new() -> (r: LockModel)
        ensures
            r@ == empty_model(),
            r.wf(),
    {
        let r = LockModel { phase: Phase::Empty, environments: Vec::new(), packages: Vec::new() };
        assert(r@.environments =~= Seq::empty());
        assert(r@.packages =~= Seq::empty());
        r
    }

    /// How far the assembly has come.
    pub fn phase(&self) -> (r: Phase)
        ensures
            r == self@.phase,
    {
        self.phase
    }

    /// The environments of the model, in the order in which they came.
    pub fn environments(&self) -> (r: &Vec<LockEnvironment>)
        ensures
            environment_views(r@) == self@.environments,
    {
        &self.environments
    }

    /// The packages of the model, each in its place, in the order in which
    /// they were first added.
    pub fn packages(&self) -> (r: &Vec<LockedPackage>)
        ensures
            locked_views(r@) == self@.packages,
    {
        &self.packages
    }

    /// The position of the environment of that name, or the number of
    /// environments where there is none.
    fn find_environment(&self, name: &str) -> (r: usize)
        ensures
            r == environment_index(self@.environments, name@),
            r <= self.environments.len(),
    {
        let ghost views = environment_views(self.environments@);
        let ghost wanted = |e: LockEnvironmentView| e.name == name@;
        let mut i: usize = 0;
        while i < self.environments.len()
            invariant
                i <= self.environments.len(),
                views == environment_views(self.environments@),
                wanted == (|e: LockEnvironmentView| e.name == name@),
                forall|k: int| 0 <= k < i ==> !wanted(#[trigger] views[k]),
            decreases self.environments.len() - i,
        {
            assert(views[i as int] == self.environments@[i as int]@);
            if same_text(self.environments[i].name.as_str(), name) {
                proof {
                    lemma_first_match_is(views, wanted, i as int);
                }
                return i;
            }
            i = i + 1;
        }
        proof {
            lemma_first_match_is(views, wanted, i as int);
        }
        i
    }

    /// The position of the environment of that name, which the model gets
    /// where it has none.
    fn ensure_environment(&mut self, name: &str) -> (r: usize)
        ensures
            final(self)@ == (LockModelView {
                environments: with_environment(old(self)@.environments, name@),
                ..old(self)@
            }),
            r == environment_index(final(self)@.environments, name@),
            r < final(self).environments.len(),
    {
        let at = self.find_environment(name);
        proof {
            lemma_with_environment(self@.environments, name@);
        }
        if at == self.environments.len() {
            let ghost before = environment_views(self.environments@);
            self.environments.push(
                LockEnvironment { name: name.to_owned(), channels: Vec::new(), indexes: Vec::new() },
            );
            proof {
                let added = self.environments@[at as int]@;
                assert(added.channels =~= Seq::empty());
                assert(added.indexes =~= Seq::empty());
                assert(added == empty_environment(name@));
                assert(environment_views(self.environments@) =~= before.push(added));
            }
        }
        at
    }

    /// Records the channels of an environment, each of them once. Channels
    /// that were recorded for it before are replaced.
    ///
    /// Channels are set before any package is added.
    pub fn set_channels(&mut self, environment: &str, channels: &Vec<String>)
        requires
            old(self).wf(),
            takes_channels(old(self)@.phase),
        ensures
            final(self).wf(),
            final(self)@ == old(self)@.with_channels(
                environment@,
                deduplicated(texts(channels@)),
            ).in_phase(Phase::ChannelsSet),
    {
        proof {
            lemma_deduplicated(texts(channels@));
            lemma_with_channels(self@, environment@, deduplicated(texts(channels@)));
        }
        let at = self.ensure_environment(environment);
        let ghost grown = environment_views(self.environments@);
        let replaced = LockEnvironment {
            name: self.environments[at].name.clone(),
            channels: unique_texts(channels),
            indexes: copy_texts(&self.environments[at].indexes),
        };
        assert(grown[at as int] == self.environments@[at as int]@);
        self.environments.set(at, replaced);
        self.phase = Phase::ChannelsSet;
        assert(environment_views(self.environments@) =~= grown.update(
            at as int,
            LockEnvironmentView { channels: deduplicated(texts(channels@)), ..grown[at as int] },
        ));
    }

    /// Records the package indexes of an environment, each of them once.
    /// Indexes that were recorded for it before are replaced.
    fn set_pypi_indexes(&mut self, environment: &str, indexes: &Vec<String>)
        requires
            old(self).wf(),
        ensures
            final(self).wf(),
            final(self)@ == old(self)@.with_indexes(environment@, deduplicated(texts(indexes@))),
    {
        proof {
            lemma_deduplicated(texts(indexes@));
            lemma_with_indexes(self@, environment@, deduplicated(texts(indexes@)));
        }
        let at = self.ensure_environment(environment);
        let ghost grown = environment_views(self.environments@);
        let replaced = LockEnvironment {
            name: self.environments[at].name.clone(),
            channels: copy_texts(&self.environments[at].channels),
            indexes: unique_texts(indexes),
        };
        assert(grown[at as int] == self.environments@[at as int]@);
        self.environments.set(at, replaced);
        assert(environment_views(self.environments@) =~= grown.update(
            at as int,
            LockEnvironmentView { indexes: deduplicated(texts(indexes@)), ..grown[at as int] },
        ));
    }

    /// The position of the package that stands in the place of `entry`, or
    /// the number of packages where there is none.
    fn find_slot(&self, environment: &str, platform: &str, entry: &PackageEntry) -> (r: usize)
        ensures
            r == slot_index(self@.packages, environment@, platform@, entry@),
            r <= self.packages.len(),
    {
        let ghost views = locked_views(self.packages@);
        let ghost wanted = |p: LockedPackageView| same_slot(p, environment@, platform@, entry@);
        let mut i: usize = 0;
        while i < self.packages.len()
            invariant
                i <= self.packages.len(),
                views == locked_views(self.packages@),
                wanted == (|p: LockedPackageView| same_slot(p, environment@, platform@, entry@)),
                forall|k: int| 0 <= k < i ==> !wanted(#[trigger] views[k]),
            decreases self.packages.len() - i,
        {
            assert(views[i as int] == self.packages@[i as int]@);
            let package = &self.packages[i];
            if same_text(package.environment.as_str(), environment) && same_text(
                package.platform.as_str(),
                platform,
            ) && package.entry.is_wheel() == entry.is_wheel() && same_text(
                package.entry.name(),
                entry.name(),
            ) {
                proof {
                    lemma_first_match_is(views, wanted, i as int);
                }
                return i;
            }
            i = i + 1;
        }
        proof {
            lemma_first_match_is(views, wanted, i as int);
        }
        i
    }

    /// Puts a package in its place.
    fn place(&mut self, environment: &str, platform: &str, entry: PackageEntry)
        requires
            old(self).wf(),
        ensures
            final(self).wf(),
            final(self)@ == old(self)@.with_package(environment@, platform@, entry@),
    {
        proof {
            lemma_with_package(self@, environment@, platform@, entry@);
        }
        let at = self.find_slot(environment, platform, &entry);
        let _ = self.ensure_environment(environment);
        let ghost before = locked_views(self.packages@);
        let package = LockedPackage {
            environment: environment.to_owned(),
            platform: platform.to_owned(),
            entry,
        };
        if at < self.packages.len() {
            self.packages.set(at, package);
            assert(locked_views(self.packages@) =~= before.update(at as int, package@));
        } else {
            self.packages.push(package);
            assert(locked_views(self.packages@) =~= before.push(package@));
        }
    }

    /// Whether the environment has a wheel.
    fn has_wheels(&self, environment: &str) -> (r: bool)
        ensures
            r == self@.has_wheels(environment@),
    {
        let ghost views = locked_views(self.packages@);
        let ghost wanted = |p: LockedPackageView|
            p.environment == environment@ && p.entry.is_wheel();
        let mut i: usize = 0;
        while i < self.packages.len()
            invariant
                i <= self.packages.len(),
                views == locked_views(self.packages@),
                wanted == (|p: LockedPackageView|
                    p.environment == environment@ && p.entry.is_wheel()),
                forall|k: int| 0 <= k < i ==> !wanted(#[trigger] views[k]),
            decreases self.packages.len() - i,
        {
            assert(views[i as int] == self.packages@[i as int]@);
            if same_text(self.packages[i].environment.as_str(), environment)
                && self.packages[i].entry.is_wheel() {
                proof {
                    lemma_first_match_is(views, wanted, i as int);
                }
                return true;
            }
            i = i + 1;
        }
        proof {
            lemma_first_match_is(views, wanted, i as int);
        }
        false
    }

    /// Adds a binary package to an environment, for a platform that is
    /// known. The channel of the package is resolved from its URL; a package
    /// whose URL names no channel is recorded without one. A binary package
    /// of that name that the environment already has for the platform is
    /// replaced.
    ///
    /// Binary packages are added once channels are set, and before wheels.
    pub fn add_binary_package(
        &mut self,
        environment: &str,
        platform: &Platform,
        package: &InstalledBinaryPackage,
    )
        requires
            old(self).wf(),
            takes_binary_packages(old(self)@.phase),
        ensures
            final(self).wf(),
            final(self)@ == old(self)@.with_package(
                environment@,
                platform@,
                PackageEntryView::Binary(binary_entry(package@)),
            ).in_phase(Phase::BinaryPackagesAdded),
    {
        let entry = BinaryEntry {
            name: package.name.clone(),
            version: package.version.clone(),
            subdir: package.subdir.clone(),
            url: package.url.clone(),
            file_name: package.file_name.clone(),
            channel: get_channel_url_from_package_url(package.url.as_str()),
            record: copy_record(&package.record),
        };
        self.place(environment, platform.as_str(), PackageEntry::Binary(entry));
        self.phase = Phase::BinaryPackagesAdded;
    }

    /// Adds a wheel to an environment, for a platform that is known: the
    /// installed distribution with the artifact that the index has for it.
    /// The first wheel of an environment also records the package index. A
    /// wheel of that name that the environment already has for the platform
    /// is replaced.
    ///
    /// Wheels are added once channels are set, and until the model is
    /// frozen.
    pub fn add_pypi_package(
        &mut self,
        environment: &str,
        platform: &Platform,
        package: &PythonPackage,
        artifact: &RemoteArtifact,
        index_url: &str,
    )
        requires
            old(self).wf(),
            takes_wheels(old(self)@.phase),
        ensures
            final(self).wf(),
            final(self)@ == old(self)@.with_wheel(
                environment@,
                platform@,
                wheel_entry(package@, artifact@),
                index_url@,
            ).in_phase(Phase::PypiPackagesAdded),
    {
        if !self.has_wheels(environment) {
            let mut indexes: Vec<String> = Vec::new();
            indexes.push(index_url.to_owned());
            proof {
                assert(texts(indexes@) =~= seq![index_url@]);
                assert(seq![index_url@].no_duplicates());
                crate::dedup::lemma_deduplicated_is_idempotent(seq![index_url@]);
            }
            self.set_pypi_indexes(environment, &indexes);
        }
        let entry = WheelEntry {
            name: package.distribution.name.clone(),
            version: package.distribution.version.clone(),
            url: artifact.url.clone(),
            sha256: copy_optional_text(&artifact.sha256),
            requires_dist: copy_texts(&package.metadata.requires_dist),
            requires_python: copy_optional_text(&artifact.requires_python),
            editable: false,
        };
        self.place(environment, platform.as_str(), PackageEntry::Wheel(entry));
        self.phase = Phase::PypiPackagesAdded;
    }

    /// Freezes the model. Nothing can be recorded in a frozen model.
    pub fn finish(self) -> (r: LockModel)
        requires
            self.wf(),
            self@.phase != Phase::Finalized,
        ensures
            r.wf(),
            r@ == self@.in_phase(Phase::Finalized),
    {
        LockModel { phase: Phase::Finalized, environments: self.environments, packages: self.packages }
    }
}

/// The readings of a sequence of binary packages.
pub open spec fn binary_views(packages: Seq<InstalledBinaryPackage>) -> Seq<
    InstalledBinaryPackageView,
> {
    packages.map_values(|p: InstalledBinaryPackage| p@)
}

/// The model after the first `n` of the binary packages have been added to
/// it, one after the other.
pub open spec fn with_binary_packages(
    model: LockModelView,
    environment: Seq<char>,
    platform: Seq<char>,
    packages: Seq<InstalledBinaryPackageView>,
    n: int,
) -> LockModelView
    decreases n,
{
    if n <= 0 {
        model
    } else {
        with_binary_packages(model, environment, platform, packages, n - 1).with_package(
            environment,
            platform,
            PackageEntryView::Binary(binary_entry(packages[n - 1])),
        ).in_phase(Phase::BinaryPackagesAdded)
    }
}

/// However often a binary package is among those that are added, and
/// whatever else is: afterwards the invariant holds, and the model has
/// exactly one binary package of its name in that environment and platform.
pub proof fn lemma_binary_packages_have_one_entry(
    model: LockModelView,
    environment: Seq<char>,
    platform: Seq<char>,
    packages: Seq<InstalledBinaryPackageView>,
    n: int,
    k: int,
)
    requires
        model.wf(),
        0 <= k < n <= packages.len(),
    ensures
        ({
            let after = with_binary_packages(model, environment, platform, packages, n);
            let entry = PackageEntryView::Binary(binary_entry(packages[k]));
            let at = slot_index(after.packages, environment, platform, entry);
            &&& after.wf()
            &&& 0 <= at < after.packages.len()
            &&& same_slot(after.packages[at], environment, platform, entry)
            &&& forall|i: int|
                0 <= i < after.packages.len() && i != at ==> !same_slot(
                    #[trigger] after.packages[i],
                    environment,
                    platform,
                    entry,
                )
        }),
    decreases n,
{
    let before = with_binary_packages(model, environment, platform, packages, n - 1);
    let added = PackageEntryView::Binary(binary_entry(packages[n - 1]));
    let entry = PackageEntryView::Binary(binary_entry(packages[k]));
    let after = with_binary_packages(model, environment, platform, packages, n);
    lemma_binary_packages_keep_the_invariant(model, environment, platform, packages, n - 1);
    lemma_with_package(before, environment, platform, added);
    assert(after.packages == before.with_package(environment, platform, added).packages);
    assert(after.environments == before.with_package(environment, platform, added).environments);
    let wanted = |p: LockedPackageView| same_slot(p, environment, platform, entry);
    let wanted_added = |p: LockedPackageView| same_slot(p, environment, platform, added);
    if added.name() == entry.name() {
        assert(wanted =~= wanted_added);
    } else {
        lemma_binary_packages_have_one_entry(model, environment, platform, packages, n - 1, k);
        let at = slot_index(before.packages, environment, platform, entry);
        let at_added = slot_index(before.packages, environment, platform, added);
        lemma_first_match(before.packages, wanted);
        lemma_first_match(before.packages, wanted_added);
        assert(wanted(before.packages[at]));
        assert(!wanted_added(before.packages[at]));
        assert(at != at_added);
        assert(after.packages[at] == before.packages[at]);
        assert forall|i: int| 0 <= i < after.packages.len() && i != at implies !wanted(
            #[trigger] after.packages[i],
        ) by {
            if i != at_added {
                assert(after.packages[i] == before.packages[i]);
            }
        }
        lemma_first_match_is(after.packages, wanted, at);
    }
}

/// Adding binary packages keeps the invariant.
pub proof fn lemma_binary_packages_keep_the_invariant(
    model: LockModelView,
    environment: Seq<char>,
    platform: Seq<char>,
    packages: Seq<InstalledBinaryPackageView>,
    n: int,
)
    requires
        model.wf(),
        n <= packages.len(),
    ensures
        with_binary_packages(model, environment, platform, packages, n).wf(),
    decreases n,
{
    if n > 0 {
        lemma_binary_packages_keep_the_invariant(model, environment, platform, packages, n - 1);
        lemma_with_package(
            with_binary_packages(model, environment, platform, packages, n - 1),
            environment,
            platform,
            PackageEntryView::Binary(binary_entry(packages[n - 1])),
        );
    }
}

/// Adds the binary packages of an environment to the model, in their order,
/// all for the one platform of the environment. This never fails.
pub fn add_conda_packages(
    lock_file: &mut LockModel,
    environment: &str,
    conda_packages: &Vec<InstalledBinaryPackage>,
    platform: &Platform,
) -> (r: Result<(), LockError>)
    requires
        old(lock_file).wf(),
        takes_binary_packages(old(lock_file)@.phase),
    ensures
        r is Ok,
        final(lock_file).wf(),
        final(lock_file)@ == with_binary_packages(
            old(lock_file)@,
            environment@,
            platform@,
            binary_views(conda_packages@),
            conda_packages.len() as int,
        ),
{
    let mut i: usize = 0;
    while i < conda_packages.len()
        invariant
            i <= conda_packages.len(),
            lock_file.wf(),
            takes_binary_packages(lock_file@.phase),
            lock_file@ == with_binary_packages(
                old(lock_file)@,
                environment@,
                platform@,
                binary_views(conda_packages@),
                i as int,
            ),
        decreases conda_packages.len() - i,
    {
        assert(binary_views(conda_packages@)[i as int] == conda_packages@[i as int]@);
        lock_file.add_binary_package(environment, platform, &conda_packages[i]);
        i = i + 1;
    }
    Ok(())
}

/// The position of the first package whose name the table does not have,
/// or the number of packages where it has them all.
pub open spec fn first_without_artifact(
    packages: Seq<PythonPackageView>,
    artifacts: Map<Seq<char>, RemoteArtifactView>,
) -> int {
    first_match(
        packages,
        |p: PythonPackageView| !artifacts.dom().contains(p.distribution.name),
    )
}

/// The model after the first `n` of the wheels have been added to it, one
/// after the other, each with the artifact that the table has under its
/// name.
pub open spec fn with_wheels(
    model: LockModelView,
    environment: Seq<char>,
    platform: Seq<char>,
    packages: Seq<PythonPackageView>,
    artifacts: Map<Seq<char>, RemoteArtifactView>,
    index_url: Seq<char>,
    n: int,
) -> LockModelView
    decreases n,
{
    if n <= 0 {
        model
    } else {
        with_wheels(model, environment, platform, packages, artifacts, index_url, n - 1).with_wheel(
            environment,
            platform,
            wheel_entry(packages[n - 1], artifacts[packages[n - 1].distribution.name]),
            index_url,
        ).in_phase(Phase::PypiPackagesAdded)
    }
}

/// Adds the wheels of an environment to the model, in their order, all for
/// the one platform of the environment: each installed distribution with
/// the artifact that the table has under its name. The index is recorded,
/// as the URL that `index_url` is read as, with the first wheel of the
/// environment.
///
/// Fails with `IndexQueryFailure`, and adds nothing, where `index_url` is no
/// URL. Fails with `ArtifactNotFound` at the first package, in their order,
/// that the table has no artifact for: the packages before it are added.
pub fn add_pypi_packages(
    lock_file: &mut LockModel,
    environment: &str,
    packages: &Vec<PythonPackage>,
    artifacts: &ArtifactTable,
    index_url: &str,
    platform: &Platform,
) -> (r: Result<(), LockError>)
    requires
        old(lock_file).wf(),
        takes_wheels(old(lock_file)@.phase),
    ensures
        final(lock_file).wf(),
        r == wheels_outcome(package_views(packages@), artifacts@, url_normal_form(index_url@)),
        final(lock_file)@ == match url_normal_form(index_url@) {
            None => old(lock_file)@,
            Some(index) => with_wheels(
                old(lock_file)@,
                environment@,
                platform@,
                package_views(packages@),
                artifacts@,
                index,
                first_without_artifact(package_views(packages@), artifacts@),
            ),
        },
{
    let index = match normal_form(index_url) {
        None => {
            return Err(LockError::IndexQueryFailure);
        },
        Some(index) => index,
    };
    let ghost views = package_views(packages@);
    let ghost missing = |p: PythonPackageView| !artifacts@.dom().contains(p.distribution.name);
    let mut i: usize = 0;
    while i < packages.len()
        invariant
            i <= packages.len(),
            lock_file.wf(),
            takes_wheels(lock_file@.phase),
            views == package_views(packages@),
            url_normal_form(index_url@) == Some(index@),
            missing == (|p: PythonPackageView| !artifacts@.dom().contains(p.distribution.name)),
            forall|k: int| 0 <= k < i ==> !missing(#[trigger] views[k]),
            lock_file@ == with_wheels(
                old(lock_file)@,
                environment@,
                platform@,
                views,
                artifacts@,
                index@,
                i as int,
            ),
        decreases packages.len() - i,
    {
        assert(views[i as int] == packages@[i as int]@);
        match artifacts.get(packages[i].distribution.name.as_str()) {
            None => {
                proof {
                    assert(missing(views[i as int]));
                    lemma_first_match_is(views, missing, i as int);
                }
                return Err(LockError::ArtifactNotFound);
            },
            Some(artifact) => {
                lock_file.add_pypi_package(
                    environment,
                    platform,
                    &packages[i],
                    artifact,
                    index.as_str(),
                );
            },
        }
        i = i + 1;
    }
    proof {
        lemma_first_match_is(views, missing, i as int);
    }
    Ok(())
}

/// How adding the wheels ends: with `IndexQueryFailure` where the index URL
/// is no URL, with `ArtifactNotFound` where a package has no artifact, and
/// well otherwise.
pub open spec fn wheels_outcome(
    packages: Seq<PythonPackageView>,
    artifacts: Map<Seq<char>, RemoteArtifactView>,
    index: Option<Seq<char>>,
) -> Result<(), LockError> {
    if index is None {
        Err(LockError::IndexQueryFailure)
    } else if first_without_artifact(packages, artifacts) < packages.len() {
        Err(LockError::ArtifactNotFound)
    } else {
        Ok(())
    }
}

} // verus!
