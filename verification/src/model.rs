//! The lock model: what a lock file says, before it is rendered as text.
//!
//! A model has named environments. Each environment has its channels, its
//! package indexes, and, for each platform, the packages that are installed
//! for it, in the order in which they were added. A package is either a
//! binary package of a channel or a wheel of a package index. Within one
//! environment and platform there is at most one package of a kind and name:
//! a package that is added again takes the place of the earlier one.

use vstd::prelude::*;
use crate::search::{first_match, lemma_first_match, lemma_first_match_is};
use crate::text::{some_text, texts};

verus! {

/// A binary package as the lock records it.
pub struct BinaryEntry {
    /// The normalized name of the package.
    pub name: String,
    /// Its exact version.
    pub version: String,
    /// The subdirectory of the channel that it lies in.
    pub subdir: String,
    /// The URL that it was downloaded from.
    pub url: String,
    /// The name of its file.
    pub file_name: String,
    /// The channel that it came from, where its URL names one.
    pub channel: Option<String>,
    /// The rest of its record, as it was found.
    pub record: rattler_conda_types::PackageRecord,
}

/// The mathematical reading of a [`BinaryEntry`]: its texts, and the record
/// as it is.
pub struct BinaryEntryView {
    pub name: Seq<char>,
    pub version: Seq<char>,
    pub subdir: Seq<char>,
    pub url: Seq<char>,
    pub file_name: Seq<char>,
    pub channel: Option<Seq<char>>,
    pub record: rattler_conda_types::PackageRecord,
}

impl View for BinaryEntry {
    type V = BinaryEntryView;

    open spec fn view(&self) -> BinaryEntryView {
        BinaryEntryView {
            name: self.name@,
            version: self.version@,
            subdir: self.subdir@,
            url: self.url@,
            file_name: self.file_name@,
            channel: some_text(self.channel),
            record: self.record,
        }
    }
}

/// A wheel as the lock records it.
pub struct WheelEntry {
    /// The normalized name of the distribution.
    pub name: String,
    /// Its exact version.
    pub version: String,
    /// The URL of the wheel in the package index.
    pub url: String,
    /// The SHA-256 digest of the wheel, where the index gives one.
    pub sha256: Option<String>,
    /// The dependencies that the distribution declares, each as it is
    /// written.
    pub requires_dist: Vec<String>,
    /// The versions of Python that the wheel is for.
    pub requires_python: Option<String>,
    /// Whether the package is installed in editable mode. It never is.
    pub editable: bool,
}

/// The mathematical reading of a [`WheelEntry`].
pub struct WheelEntryView {
    pub name: Seq<char>,
    pub version: Seq<char>,
    pub url: Seq<char>,
    pub sha256: Option<Seq<char>>,
    pub requires_dist: Seq<Seq<char>>,
    pub requires_python: Option<Seq<char>>,
    pub editable: bool,
}

impl View for WheelEntry {
    type V = WheelEntryView;

    open spec fn view(&self) -> WheelEntryView {
        WheelEntryView {
            name: self.name@,
            version: self.version@,
            url: self.url@,
            sha256: some_text(self.sha256),
            requires_dist: texts(self.requires_dist@),
            requires_python: some_text(self.requires_python),
            editable: self.editable,
        }
    }
}

/// A package of either kind.
pub enum PackageEntry {
    /// A binary package of a channel.
    Binary(BinaryEntry),
    /// A wheel of a package index.
    Wheel(WheelEntry),
}

/// The mathematical reading of a [`PackageEntry`].
pub enum PackageEntryView {
    Binary(BinaryEntryView),
    Wheel(WheelEntryView),
}

impl View for PackageEntry {
    type V = PackageEntryView;

    open spec fn view(&self) -> PackageEntryView {
        match self {
            PackageEntry::Binary(entry) => PackageEntryView::Binary(entry@),
            PackageEntry::Wheel(entry) => PackageEntryView::Wheel(entry@),
        }
    }
}

impl PackageEntryView {
    /// The name of the package.
    pub open spec fn name(self) -> Seq<char> {
        match self {
            PackageEntryView::Binary(entry) => entry.name,
            PackageEntryView::Wheel(entry) => entry.name,
        }
    }

    /// Whether the package is a wheel.
    pub open spec fn is_wheel(self) -> bool {
        self is Wheel
    }
}

impl PackageEntry {
    /// The name of the package.
    pub fn name(&self) -> (r: &str)
        ensures
            r@ == self@.name(),
    {
        match self {
            PackageEntry::Binary(entry) => entry.name.as_str(),
            PackageEntry::Wheel(entry) => entry.name.as_str(),
        }
    }

    /// Whether the package is a wheel.
    pub fn is_wheel(&self) -> (r: bool)
        ensures
            r == self@.is_wheel(),
    {
        match self {
            PackageEntry::Binary(_) => false,
            PackageEntry::Wheel(_) => true,
        }
    }
}

/// A package in its place: the environment and the platform that it is
/// installed for.
pub struct LockedPackage {
    /// The name of the environment.
    pub environment: String,
    /// The name of the platform.
    pub platform: String,
    /// The package.
    pub entry: PackageEntry,
}

/// The mathematical reading of a [`LockedPackage`].
pub struct LockedPackageView {
    pub environment: Seq<char>,
    pub platform: Seq<char>,
    pub entry: PackageEntryView,
}

impl View for LockedPackage {
    type V = LockedPackageView;

    open spec fn view(&self) -> LockedPackageView {
        LockedPackageView {
            environment: self.environment@,
            platform: self.platform@,
            entry: self.entry@,
        }
    }
}

/// One environment of a lock: its name, its channels and its package
/// indexes.
pub struct LockEnvironment {
    /// The name of the environment.
    pub name: String,
    /// The channels of its binary packages. None occurs twice.
    pub channels: Vec<String>,
    /// The package indexes of its wheels. None occurs twice.
    pub indexes: Vec<String>,
}

/// The mathematical reading of a [`LockEnvironment`].
pub struct LockEnvironmentView {
    pub name: Seq<char>,
    pub channels: Seq<Seq<char>>,
    pub indexes: Seq<Seq<char>>,
}

impl View for LockEnvironment {
    type V = LockEnvironmentView;

    open spec fn view(&self) -> LockEnvironmentView {
        LockEnvironmentView {
            name: self.name@,
            channels: texts(self.channels@),
            indexes: texts(self.indexes@),
        }
    }
}

/// How far the assembly of a lock has come. A model only ever moves forward
/// through these.
#[derive(Debug, Clone, Copy, PartialEq, Eq, Structural)]
pub enum Phase {
    /// Nothing has been recorded.
    Empty,
    /// Channels have been set, and no package has been added.
    ChannelsSet,
    /// Binary packages have been added, and no wheel.
    BinaryPackagesAdded,
    /// Wheels have been added.
    PypiPackagesAdded,
    /// The model is frozen: nothing more is recorded.
    Finalized,
}

/// The readings of a sequence of environments.
pub open spec fn environment_views(environments: Seq<LockEnvironment>) -> Seq<LockEnvironmentView> {
    environments.map_values(|e: LockEnvironment| e@)
}

/// The readings of a sequence of packages.
pub open spec fn locked_views(packages: Seq<LockedPackage>) -> Seq<LockedPackageView> {
    packages.map_values(|p: LockedPackage| p@)
}

/// Whether a package stands in the place of `entry` in `environment` and
/// `platform`: whether it is of the same kind and name there.
pub open spec fn same_slot(
    package: LockedPackageView,
    environment: Seq<char>,
    platform: Seq<char>,
    entry: PackageEntryView,
) -> bool {
    &&& package.environment == environment
    &&& package.platform == platform
    &&& package.entry.is_wheel() == entry.is_wheel()
    &&& package.entry.name() == entry.name()
}

/// The position of the environment of that name, or the number of
/// environments where there is none.
pub open spec fn environment_index(environments: Seq<LockEnvironmentView>, name: Seq<char>) -> int {
    first_match(environments, |e: LockEnvironmentView| e.name == name)
}

/// The position of the package that stands in the place of `entry`, or the
/// number of packages where there is none.
pub open spec fn slot_index(
    packages: Seq<LockedPackageView>,
    environment: Seq<char>,
    platform: Seq<char>,
    entry: PackageEntryView,
) -> int {
    first_match(packages, |p: LockedPackageView| same_slot(p, environment, platform, entry))
}

/// The position of the first wheel of the environment, or the number of
/// packages where it has none.
pub open spec fn first_wheel_of(packages: Seq<LockedPackageView>, environment: Seq<char>) -> int {
    first_match(
        packages,
        |p: LockedPackageView| p.environment == environment && p.entry.is_wheel(),
    )
}

/// An environment of that name without channels and indexes.
pub open spec fn empty_environment(name: Seq<char>) -> LockEnvironmentView {
    LockEnvironmentView { name: name, channels: Seq::empty(), indexes: Seq::empty() }
}

/// The environments with one of that name among them: as they are where
/// they have one, else with an empty one at the end.
pub open spec fn with_environment(
    environments: Seq<LockEnvironmentView>,
    name: Seq<char>,
) -> Seq<LockEnvironmentView> {
    if environment_index(environments, name) < environments.len() {
        environments
    } else {
        environments.push(empty_environment(name))
    }
}

/// The mathematical reading of a lock model.
pub struct LockModelView {
    pub phase: Phase,
    pub environments: Seq<LockEnvironmentView>,
    pub packages: Seq<LockedPackageView>,
}

impl LockModelView {
    /// The invariant of a lock model: no two environments have the same
    /// name; no channel and no index occurs twice in an environment; every
    /// package belongs to an environment of the model; and no two packages
    /// stand in the same place.
    pub open spec fn wf(self) -> bool {
        &&& forall|i: int, j: int|
            0 <= i < j < self.environments.len() ==> (#[trigger] self.environments[i]).name != (
            #[trigger] self.environments[j]).name
        &&& forall|i: int|
            0 <= i < self.environments.len() ==> (#[trigger] self.environments[i]).channels.no_duplicates()
                && self.environments[i].indexes.no_duplicates()
        &&& forall|i: int|
            0 <= i < self.packages.len() ==> environment_index(
                self.environments,
                (#[trigger] self.packages[i]).environment,
            ) < self.environments.len()
        &&& forall|i: int, j: int|
            0 <= i < self.packages.len() && 0 <= j < self.packages.len() && i != j ==> !same_slot(
                #[trigger] self.packages[i],
                (#[trigger] self.packages[j]).environment,
                self.packages[j].platform,
                self.packages[j].entry,
            )
    }

    /// Whether the model has an environment of that name.
    pub open spec fn has_environment(self, name: Seq<char>) -> bool {
        environment_index(self.environments, name) < self.environments.len()
    }

    /// The channels of an environment; none where the model has no such
    /// environment.
    pub open spec fn channels_of(self, name: Seq<char>) -> Seq<Seq<char>> {
        if self.has_environment(name) {
            self.environments[environment_index(self.environments, name)].channels
        } else {
            Seq::empty()
        }
    }

    /// The package indexes of an environment; none where the model has no
    /// such environment.
    pub open spec fn indexes_of(self, name: Seq<char>) -> Seq<Seq<char>> {
        if self.has_environment(name) {
            self.environments[environment_index(self.environments, name)].indexes
        } else {
            Seq::empty()
        }
    }

    /// Whether the environment has a wheel.
    pub open spec fn has_wheels(self, environment: Seq<char>) -> bool {
        first_wheel_of(self.packages, environment) < self.packages.len()
    }

    /// The model with a wheel in its place. The first wheel of an
    /// environment also records the package index that was asked: it
    /// becomes the one index of the environment.
    pub open spec fn with_wheel(
        self,
        environment: Seq<char>,
        platform: Seq<char>,
        entry: WheelEntryView,
        index_url: Seq<char>,
    ) -> LockModelView {
        let indexed = if self.has_wheels(environment) {
            self
        } else {
            self.with_indexes(environment, seq![index_url])
        };
        indexed.with_package(environment, platform, PackageEntryView::Wheel(entry))
    }

    /// The model in another phase.
    pub open spec fn in_phase(self, phase: Phase) -> LockModelView {
        LockModelView { phase: phase, ..self }
    }

    /// The model with `channels` as the channels of the environment, which
    /// it gets where it has none of that name.
    pub open spec fn with_channels(self, name: Seq<char>, channels: Seq<Seq<char>>) -> LockModelView {
        let environments = with_environment(self.environments, name);
        let at = environment_index(environments, name);
        LockModelView {
            environments: environments.update(
                at,
                LockEnvironmentView { channels: channels, ..environments[at] },
            ),
            ..self
        }
    }

    /// The model with `indexes` as the package indexes of the environment,
    /// which it gets where it has none of that name.
    pub open spec fn with_indexes(self, name: Seq<char>, indexes: Seq<Seq<char>>) -> LockModelView {
        let environments = with_environment(self.environments, name);
        let at = environment_index(environments, name);
        LockModelView {
            environments: environments.update(
                at,
                LockEnvironmentView { indexes: indexes, ..environments[at] },
            ),
            ..self
        }
    }

    /// The model with the package in its place: in the place of the package
    /// of the same kind and name in that environment and platform where
    /// there is one, else behind all others. The model gets the environment
    /// where it has none of that name.
    pub open spec fn with_package(
        self,
        environment: Seq<char>,
        platform: Seq<char>,
        entry: PackageEntryView,
    ) -> LockModelView {
        let at = slot_index(self.packages, environment, platform, entry);
        let package = LockedPackageView {
            environment: environment,
            platform: platform,
            entry: entry,
        };
        LockModelView {
            environments: with_environment(self.environments, environment),
            packages: if at < self.packages.len() {
                self.packages.update(at, package)
            } else {
                self.packages.push(package)
            },
            ..self
        }
    }
}

/// An environment that is found in a list is found at the same position in
/// any list that has the same names at the same positions up to there.
pub proof fn lemma_environment_index_by_names(
    before: Seq<LockEnvironmentView>,
    after: Seq<LockEnvironmentView>,
    name: Seq<char>,
)
    requires
        before.len() <= after.len(),
        forall|i: int| 0 <= i < before.len() ==> (#[trigger] before[i]).name == after[i].name,
    ensures
        environment_index(before, name) < before.len() ==> environment_index(after, name)
            == environment_index(before, name),
        before.len() == after.len() ==> environment_index(after, name) == environment_index(
            before,
            name,
        ),
        environment_index(before, name) >= before.len() ==> environment_index(after, name)
            >= before.len(),
{
    let wanted = |e: LockEnvironmentView| e.name == name;
    lemma_first_match(before, wanted);
    lemma_first_match(after, wanted);
    let b = first_match(before, wanted);
    let a = first_match(after, wanted);
    if b < before.len() {
        assert(wanted(before[b]));
        assert(wanted(after[b]));
        if a < b {
            assert(!wanted(before[a]));
        }
        if b < a {
            assert(!wanted(after[b]));
        }
    } else {
        if a < before.len() {
            assert(!wanted(before[a]));
        }
    }
}

/// After [`with_environment`] there is an environment of that name, the
/// environments that were there are unchanged, and no name occurs twice
/// where none did.
pub proof fn lemma_with_environment(environments: Seq<LockEnvironmentView>, name: Seq<char>)
    ensures
        environment_index(with_environment(environments, name), name) < with_environment(
            environments,
            name,
        ).len(),
        environments.len() <= with_environment(environments, name).len(),
        forall|i: int|
            0 <= i < environments.len() ==> with_environment(environments, name)[i]
                == #[trigger] environments[i],
        environment_index(environments, name) >= environments.len() ==> with_environment(
            environments,
            name,
        ) == environments.push(empty_environment(name)) && environment_index(
            with_environment(environments, name),
            name,
        ) == environments.len(),
        (forall|i: int, j: int|
            0 <= i < j < environments.len() ==> (#[trigger] environments[i]).name != (
            #[trigger] environments[j]).name) ==> (forall|i: int, j: int|
            0 <= i < j < with_environment(environments, name).len() ==> (#[trigger] with_environment(
                environments,
                name,
            )[i]).name != (#[trigger] with_environment(environments, name)[j]).name),
{
    let wanted = |e: LockEnvironmentView| e.name == name;
    lemma_first_match(environments, wanted);
    let after = with_environment(environments, name);
    if environment_index(environments, name) >= environments.len() {
        assert(wanted(after[environments.len() as int]));
        assert forall|k: int| 0 <= k < environments.len() implies !wanted(#[trigger] after[k]) by {
            assert(after[k] == environments[k]);
        }
        lemma_first_match_is(after, wanted, environments.len() as int);
        assert forall|i: int, j: int|
            (forall|i: int, j: int|
                0 <= i < j < environments.len() ==> (#[trigger] environments[i]).name != (
                #[trigger] environments[j]).name) && 0 <= i < j < after.len() implies (
        #[trigger] after[i]).name != (#[trigger] after[j]).name by {
            if j == environments.len() {
                assert(after[i] == environments[i]);
                assert(!wanted(environments[i]));
            } else {
                assert(after[i] == environments[i]);
                assert(after[j] == environments[j]);
            }
        }
    }
}

/// The model with `replacement` in the place of the environment of that
/// name, which the model gets where it has none.
pub open spec fn with_environment_replaced(
    model: LockModelView,
    name: Seq<char>,
    replacement: LockEnvironmentView,
) -> LockModelView {
    let environments = with_environment(model.environments, name);
    LockModelView {
        environments: environments.update(environment_index(environments, name), replacement),
        ..model
    }
}

/// Replacing the environment of a name by one of the same name, in which no
/// channel and no index occurs twice, keeps the invariant, and leaves every
/// other environment and every package as it was.
pub proof fn lemma_environment_replaced(
    model: LockModelView,
    name: Seq<char>,
    replacement: LockEnvironmentView,
)
    requires
        model.wf(),
        replacement.name == name,
        replacement.channels.no_duplicates(),
        replacement.indexes.no_duplicates(),
    ensures
        with_environment_replaced(model, name, replacement).wf(),
        with_environment_replaced(model, name, replacement).has_environment(name),
        with_environment_replaced(model, name, replacement).channels_of(name)
            == replacement.channels,
        with_environment_replaced(model, name, replacement).indexes_of(name)
            == replacement.indexes,
        with_environment_replaced(model, name, replacement).packages == model.packages,
        ({
            let grown = with_environment(model.environments, name);
            let replaced = grown[environment_index(grown, name)];
            &&& environment_index(grown, name) < grown.len()
            &&& replaced.name == name
            &&& replaced.channels == model.channels_of(name)
            &&& replaced.indexes == model.indexes_of(name)
        }),
        forall|other: Seq<char>|
            other != name ==> with_environment_replaced(model, name, replacement).channels_of(other)
                == model.channels_of(other) && with_environment_replaced(
                model,
                name,
                replacement,
            ).indexes_of(other) == model.indexes_of(other) && with_environment_replaced(
                model,
                name,
                replacement,
            ).has_environment(other) == model.has_environment(other),
{
    let grown = with_environment(model.environments, name);
    let at = environment_index(grown, name);
    let after = with_environment_replaced(model, name, replacement);
    lemma_with_environment(model.environments, name);
    lemma_first_match(grown, |e: LockEnvironmentView| e.name == name);
    assert(after.environments.len() == grown.len());
    assert forall|i: int| 0 <= i < grown.len() implies (#[trigger] grown[i]).name
        == after.environments[i].name by {}
    lemma_environment_index_by_names(grown, after.environments, name);
    assert forall|i: int| 0 <= i < after.packages.len() implies environment_index(
        after.environments,
        (#[trigger] after.packages[i]).environment,
    ) < after.environments.len() by {
        let e = model.packages[i].environment;
        lemma_environment_index_by_names(model.environments, grown, e);
        lemma_environment_index_by_names(grown, after.environments, e);
    }
    assert forall|i: int, j: int| 0 <= i < j < after.environments.len() implies (
    #[trigger] after.environments[i]).name != (#[trigger] after.environments[j]).name by {
        assert(grown[i].name != grown[j].name);
    }
    assert forall|i: int| 0 <= i < after.environments.len() implies (
    #[trigger] after.environments[i]).channels.no_duplicates()
        && after.environments[i].indexes.no_duplicates() by {
        if i < model.environments.len() {
            assert(grown[i] == model.environments[i]);
        }
    }
    assert forall|other: Seq<char>| other != name implies after.channels_of(other)
        == model.channels_of(other) && after.indexes_of(other) == model.indexes_of(other)
        && after.has_environment(other) == model.has_environment(other) by {
        lemma_environment_index_by_names(model.environments, grown, other);
        lemma_environment_index_by_names(grown, after.environments, other);
        lemma_first_match(model.environments, |e: LockEnvironmentView| e.name == other);
        lemma_first_match(grown, |e: LockEnvironmentView| e.name == other);
        let k = environment_index(model.environments, other);
        if k < model.environments.len() {
            assert(grown[k] == model.environments[k]);
        } else {
            let g = environment_index(grown, other);
            if g < grown.len() {
                assert(grown[g].name == other);
            }
        }
    }
    lemma_first_match(model.environments, |e: LockEnvironmentView| e.name == name);
    if environment_index(model.environments, name) < model.environments.len() {
        assert(grown[at] == model.environments[at]);
    }
}

/// Setting the channels of an environment keeps the invariant, gives that
/// environment exactly those channels, and leaves every other environment
/// and every package as it was.
pub proof fn lemma_with_channels(model: LockModelView, name: Seq<char>, channels: Seq<Seq<char>>)
    requires
        model.wf(),
        channels.no_duplicates(),
    ensures
        model.with_channels(name, channels).wf(),
        model.with_channels(name, channels).has_environment(name),
        model.with_channels(name, channels).channels_of(name) == channels,
        model.with_channels(name, channels).indexes_of(name) == model.indexes_of(name),
        model.with_channels(name, channels).packages == model.packages,
        forall|other: Seq<char>|
            other != name ==> model.with_channels(name, channels).channels_of(other)
                == model.channels_of(other) && model.with_channels(name, channels).indexes_of(other)
                == model.indexes_of(other) && model.with_channels(name, channels).has_environment(
                other,
            ) == model.has_environment(other),
{
    let grown = with_environment(model.environments, name);
    let replacement = LockEnvironmentView {
        channels: channels,
        ..grown[environment_index(grown, name)]
    };
    lemma_with_environment(model.environments, name);
    lemma_first_match(grown, |e: LockEnvironmentView| e.name == name);
    lemma_first_match(model.environments, |e: LockEnvironmentView| e.name == name);
    if environment_index(model.environments, name) < model.environments.len() {
        assert(grown[environment_index(grown, name)] == model.environments[environment_index(
            grown,
            name,
        )]);
    }
    lemma_environment_replaced(model, name, replacement);
    assert(model.with_channels(name, channels) == with_environment_replaced(
        model,
        name,
        replacement,
    ));
}

/// Setting the package indexes of an environment keeps the invariant, gives
/// that environment exactly those indexes, and leaves every other
/// environment and every package as it was.
pub proof fn lemma_with_indexes(model: LockModelView, name: Seq<char>, indexes: Seq<Seq<char>>)
    requires
        model.wf(),
        indexes.no_duplicates(),
    ensures
        model.with_indexes(name, indexes).wf(),
        model.with_indexes(name, indexes).has_environment(name),
        model.with_indexes(name, indexes).indexes_of(name) == indexes,
        model.with_indexes(name, indexes).channels_of(name) == model.channels_of(name),
        model.with_indexes(name, indexes).packages == model.packages,
        forall|other: Seq<char>|
            other != name ==> model.with_indexes(name, indexes).channels_of(other)
                == model.channels_of(other) && model.with_indexes(name, indexes).indexes_of(other)
                == model.indexes_of(other) && model.with_indexes(name, indexes).has_environment(
                other,
            ) == model.has_environment(other),
{
    let grown = with_environment(model.environments, name);
    let replacement = LockEnvironmentView {
        indexes: indexes,
        ..grown[environment_index(grown, name)]
    };
    lemma_with_environment(model.environments, name);
    lemma_first_match(grown, |e: LockEnvironmentView| e.name == name);
    lemma_first_match(model.environments, |e: LockEnvironmentView| e.name == name);
    if environment_index(model.environments, name) < model.environments.len() {
        assert(grown[environment_index(grown, name)] == model.environments[environment_index(
            grown,
            name,
        )]);
    }
    lemma_environment_replaced(model, name, replacement);
    assert(model.with_indexes(name, indexes) == with_environment_replaced(
        model,
        name,
        replacement,
    ));
}

/// Adding a package keeps the invariant and puts the package in its place:
/// afterwards the model has it there and nothing else of its kind and name.
/// Where the place was taken, the number of packages stays; else it grows by
/// one. The packages in other places stay as they were.
pub proof fn lemma_with_package(
    model: LockModelView,
    environment: Seq<char>,
    platform: Seq<char>,
    entry: PackageEntryView,
)
    requires
        model.wf(),
    ensures
        model.with_package(environment, platform, entry).wf(),
        model.with_package(environment, platform, entry).has_environment(environment),
        ({
            let after = model.with_package(environment, platform, entry);
            let at = slot_index(model.packages, environment, platform, entry);
            &&& slot_index(after.packages, environment, platform, entry) == at
            &&& 0 <= at < after.packages.len()
            &&& after.packages[at] == LockedPackageView {
                environment: environment,
                platform: platform,
                entry: entry,
            }
            &&& after.packages.len() == if at < model.packages.len() {
                model.packages.len()
            } else {
                model.packages.len() + 1
            }
            &&& forall|i: int|
                0 <= i < model.packages.len() && i != at ==> after.packages[i]
                    == #[trigger] model.packages[i]
            &&& forall|i: int|
                0 <= i < after.packages.len() && i != at ==> !same_slot(
                    #[trigger] after.packages[i],
                    environment,
                    platform,
                    entry,
                )
        }),
{
    let after = model.with_package(environment, platform, entry);
    let wanted = |p: LockedPackageView| same_slot(p, environment, platform, entry);
    let at = slot_index(model.packages, environment, platform, entry);
    let package = LockedPackageView { environment: environment, platform: platform, entry: entry };
    lemma_first_match(model.packages, wanted);
    lemma_with_environment(model.environments, environment);
    assert(wanted(package));
    assert forall|k: int| 0 <= k < at implies !wanted(#[trigger] after.packages[k]) by {
        assert(after.packages[k] == model.packages[k]);
    }
    lemma_first_match_is(after.packages, wanted, at);
    assert forall|i: int| 0 <= i < after.packages.len() && i != at implies !same_slot(
        #[trigger] after.packages[i],
        environment,
        platform,
        entry,
    ) by {
        assert(after.packages[i] == model.packages[i]);
        if at < model.packages.len() {
            assert(wanted(model.packages[at]));
            assert(!same_slot(
                model.packages[i],
                model.packages[at].environment,
                model.packages[at].platform,
                model.packages[at].entry,
            ));
        } else {
            assert(!wanted(model.packages[i]));
        }
    }
    assert forall|i: int| 0 <= i < after.packages.len() implies environment_index(
        after.environments,
        (#[trigger] after.packages[i]).environment,
    ) < after.environments.len() by {
        if i != at {
            assert(after.packages[i] == model.packages[i]);
            lemma_environment_index_by_names(
                model.environments,
                after.environments,
                model.packages[i].environment,
            );
        }
    }
    assert forall|i: int, j: int|
        0 <= i < after.packages.len() && 0 <= j < after.packages.len() && i != j implies !same_slot(
        #[trigger] after.packages[i],
        (#[trigger] after.packages[j]).environment,
        after.packages[j].platform,
        after.packages[j].entry,
    ) by {
        if i != at && j != at {
            assert(after.packages[i] == model.packages[i]);
            assert(after.packages[j] == model.packages[j]);
        } else if j == at {
            assert(!wanted(after.packages[i]));
        } else {
            assert(!wanted(after.packages[j]));
        }
    }
    assert forall|i: int| 0 <= i < after.environments.len() implies (
    #[trigger] after.environments[i]).channels.no_duplicates()
        && after.environments[i].indexes.no_duplicates() by {
        if i < model.environments.len() {
            assert(after.environments[i] == model.environments[i]);
        }
    }
}

/// A package that is added a second time for the same environment and
/// platform takes the place of the first: the model has one package of that
/// kind and name there, not two, and it is the one that was added last.
pub proof fn lemma_adding_twice_gives_one_entry(
    model: LockModelView,
    environment: Seq<char>,
    platform: Seq<char>,
    first: PackageEntryView,
    second: PackageEntryView,
)
    requires
        model.wf(),
        first.name() == second.name(),
        first.is_wheel() == second.is_wheel(),
    ensures
        ({
            let once = model.with_package(environment, platform, first);
            let twice = once.with_package(environment, platform, second);
            let at = slot_index(twice.packages, environment, platform, second);
            &&& twice.wf()
            &&& twice.packages.len() == once.packages.len()
            &&& 0 <= at < twice.packages.len()
            &&& twice.packages[at].entry == second
            &&& forall|i: int|
                0 <= i < twice.packages.len() && i != at ==> !same_slot(
                    #[trigger] twice.packages[i],
                    environment,
                    platform,
                    second,
                )
        }),
{
    let once = model.with_package(environment, platform, first);
    lemma_with_package(model, environment, platform, first);
    lemma_with_package(once, environment, platform, second);
    let wanted_first = |p: LockedPackageView| same_slot(p, environment, platform, first);
    let wanted_second = |p: LockedPackageView| same_slot(p, environment, platform, second);
    assert(wanted_first =~= wanted_second);
}

} // verus!
