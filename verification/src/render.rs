//! The hand-over of a frozen lock model to `rattler_lock`, which renders it
//! as the text of a lock file.
//!
//! The model is fed to a `LockFileBuilder` environment by environment and
//! package by package, in its own order. Every text of the model is read
//! into the type that `rattler_lock` has for it; a text that cannot be read
//! fails the rendering.

use vstd::prelude::*;
use crate::error::LockError;
use crate::lock::LockModel;
use crate::model::{
    environment_views, locked_views, BinaryEntry, BinaryEntryView, LockEnvironmentView,
    LockModelView, LockedPackageView, PackageEntry, PackageEntryView, Phase, WheelEntry,
    WheelEntryView,
};
use crate::platform::is_platform_name;
use crate::reconcile::{any_prerelease, pep440_any_prerelease};
use crate::requirement::{
    are_safe_dependencies, chars_of, dependencies_are_safe, is_name, is_package_name,
};
use crate::text::{byte_len, ok_text, some_text, texts};
use crate::url::{normal_form, url_normal_form, MAX_URL_BYTES};

verus! {

/// The builder of lock files of `rattler_lock`, `LockFileBuilder`. The model
/// is fed to it; nothing is read back.
#[verifier::external_type_specification]
#[verifier::external_body]
pub struct ExLockFileBuilder(rattler_lock::LockFileBuilder);

/// A conda package as `rattler_lock` holds it, `CondaPackageData`.
#[verifier::external_type_specification]
#[verifier::external_body]
pub struct ExCondaPackageData(rattler_lock::CondaPackageData);

/// A wheel as `rattler_lock` holds it, `PypiPackageData`.
#[verifier::external_type_specification]
#[verifier::external_body]
pub struct ExPypiPackageData(rattler_lock::PypiPackageData);

/// Whether `VersionSpecifiers::from_str` of `pep440_rs` reads the text as a
/// range of versions.
pub uninterp spec fn pep440_specifiers_read(range: Seq<char>) -> bool;

/// Whether a character is a hexadecimal digit, in either case.
pub open spec fn is_hex_digit(c: char) -> bool {
    ('0' <= c && c <= '9') || ('a' <= c && c <= 'f') || ('A' <= c && c <= 'F')
}

/// Whether a text is a SHA-256 digest in hexadecimal: 64 hexadecimal digits.
pub open spec fn is_sha256_hex(digest: Seq<char>) -> bool {
    digest.len() == 64 && forall|i: int| 0 <= i < digest.len() ==> is_hex_digit(#[trigger] digest[i])
}

/// Whether every text is read as a URL.
pub open spec fn urls_read(urls: Seq<Seq<char>>) -> bool {
    forall|i: int| 0 <= i < urls.len() ==> url_normal_form(#[trigger] urls[i]) is Some
}

/// Whether the texts of a binary package are read: its URL is one, and so is
/// its channel, where it has one, which is no longer than [`MAX_URL_BYTES`].
pub open spec fn binary_entry_reads(entry: BinaryEntryView) -> bool {
    &&& url_normal_form(entry.url) is Some
    &&& entry.channel matches Some(channel) ==> byte_len(channel) <= MAX_URL_BYTES
        && url_normal_form(channel) is Some
}

/// Whether the texts of a wheel are read, as far as that depends on the
/// texts alone: its name, version and URL are read as such, its digest is
/// one, so is its range of Python versions, and its dependencies can be
/// handed over. Whether a dependency is then read is not among these: it
/// may name variables of the environment of the process, and whether it is
/// read depends on them.
pub open spec fn wheel_entry_reads(entry: WheelEntryView) -> bool {
    &&& dependencies_are_safe(entry.requires_dist)
    &&& is_package_name(entry.name)
    &&& pep440_any_prerelease(entry.version) is Some
    &&& url_normal_form(entry.url) is Some
    &&& entry.sha256 matches Some(digest) ==> is_sha256_hex(digest)
    &&& entry.requires_python matches Some(range) ==> pep440_specifiers_read(range)
}

/// Whether a package can be handed over: its platform is one that conda
/// knows, and its texts are read.
pub open spec fn package_reads(package: LockedPackageView) -> bool {
    &&& is_platform_name(package.platform)
    &&& match package.entry {
        PackageEntryView::Binary(entry) => binary_entry_reads(entry),
        PackageEntryView::Wheel(entry) => wheel_entry_reads(entry),
    }
}

/// Whether an environment can be handed over: its indexes are URLs.
pub open spec fn environment_reads(environment: LockEnvironmentView) -> bool {
    urls_read(environment.indexes)
}

/// Whether a model can be handed over to `rattler_lock`: whether all its
/// environments and packages can. A model that cannot is never rendered.
pub open spec fn renderable(model: LockModelView) -> bool {
    &&& forall|i: int|
        0 <= i < model.environments.len() ==> environment_reads(#[trigger] model.environments[i])
    &&& forall|i: int| 0 <= i < model.packages.len() ==> package_reads(#[trigger] model.packages[i])
}

/// Whether a builder is as `LockFileBuilder::new` makes it: without
/// environments and packages.
pub uninterp spec fn builder_is_empty(builder: rattler_lock::LockFileBuilder) -> bool;

/// The builder after `LockFileBuilder::set_channels` with channels of these
/// URLs: the environment, which the builder gets where it has none of that
/// name, has these channels in place of those that it had.
pub uninterp spec fn builder_with_channels(
    builder: rattler_lock::LockFileBuilder,
    environment: Seq<char>,
    channels: Seq<Seq<char>>,
) -> rattler_lock::LockFileBuilder;

/// The builder after `LockFileBuilder::set_pypi_indexes` with the URLs that
/// `Url::parse` reads from these texts.
pub uninterp spec fn builder_with_indexes(
    builder: rattler_lock::LockFileBuilder,
    environment: Seq<char>,
    indexes: Seq<Seq<char>>,
) -> rattler_lock::LockFileBuilder;

/// The binary package as `rattler_lock` holds it, made of an entry: the
/// record as it is, the URL read by `Url::parse`, the channel by
/// `Url::parse` and `ChannelUrl::from`. `None` where one of the two is no
/// URL.
pub uninterp spec fn conda_package_of(entry: BinaryEntryView) -> Option<
    rattler_lock::CondaPackageData,
>;

/// The builder after `LockFileBuilder::add_conda_package` with the platform
/// that `Platform::from_str` reads from the text.
pub uninterp spec fn builder_with_conda(
    builder: rattler_lock::LockFileBuilder,
    environment: Seq<char>,
    platform: Seq<char>,
    package: rattler_lock::CondaPackageData,
) -> rattler_lock::LockFileBuilder;

/// The builder after `LockFileBuilder::add_pypi_package`, without extras
/// and with the platform that `Platform::from_str` reads from the text.
pub uninterp spec fn builder_with_wheel(
    builder: rattler_lock::LockFileBuilder,
    environment: Seq<char>,
    platform: Seq<char>,
    package: rattler_lock::PypiPackageData,
) -> rattler_lock::LockFileBuilder;

/// The text that `LockFileBuilder::finish` and `LockFile::render_to_string`
/// make of a builder, or `None` where they make none.
pub uninterp spec fn rendered_lock(builder: rattler_lock::LockFileBuilder) -> Option<Seq<char>>;

/// `VersionSpecifiers::from_str` of `pep440_rs`: whether the text is read
/// as a range of versions.
#[verifier::external_body]
fn reads_as_specifiers(range: &str) -> (r: bool)
    ensures
        r == pep440_specifiers_read(range@),
{
    range.parse::<pep440_rs::VersionSpecifiers>().is_ok()
}

/// `LockFile::builder`: a builder without environments and packages.
#[verifier::external_body]
fn new_builder() -> (r: rattler_lock::LockFileBuilder)
    ensures
        builder_is_empty(r),
{
    rattler_lock::LockFile::builder()
}

/// `LockFileBuilder::set_channels`: the environment gets these channels in
/// place of those that it had.
#[verifier::external_body]
fn builder_set_channels(
    builder: &mut rattler_lock::LockFileBuilder,
    environment: &str,
    channels: &Vec<String>,
)
    ensures
        *final(builder) == builder_with_channels(*old(builder), environment@, texts(channels@)),
{
    builder.set_channels(environment, channels.iter().map(|c| c.as_str()));
}

/// `LockFileBuilder::set_pypi_indexes`, with each index read by
/// `Url::parse`. Returns `false`, and leaves the builder as it is, exactly
/// where one of them is no URL.
#[verifier::external_body]
fn builder_set_indexes(
    builder: &mut rattler_lock::LockFileBuilder,
    environment: &str,
    indexes: &Vec<String>,
) -> (r: bool)
    ensures
        r == urls_read(texts(indexes@)),
        *final(builder) == if r {
            builder_with_indexes(*old(builder), environment@, texts(indexes@))
        } else {
            *old(builder)
        },
{
    match indexes.iter().map(|i| ::url::Url::parse(i)).collect::<Result<Vec<_>, _>>() {
        Ok(indexes) => {
            let indexes = rattler_lock::PypiIndexes { indexes, find_links: Vec::new() };
            builder.set_pypi_indexes(environment, indexes);
            true
        },
        Err(_) => false,
    }
}

/// The binary package as `rattler_lock` holds it: the record as it is, the
/// URL read by `Url::parse`, the channel by `Url::parse` and
/// `ChannelUrl::from`. `None` exactly where one of the two is no URL. The
/// bound is that of `Url::set_path`, by which `ChannelUrl::from` gives the
/// path of a channel its `/`.
#[verifier::external_body]
fn conda_data(entry: &BinaryEntry) -> (r: Option<rattler_lock::CondaPackageData>)
    requires
        entry.channel matches Some(channel) ==> byte_len(channel@) <= MAX_URL_BYTES,
    ensures
        r == conda_package_of(entry@),
        r is Some == (url_normal_form(entry.url@) is Some && (entry.channel matches Some(channel)
            ==> url_normal_form(channel@) is Some)),
{
    let channel = match &entry.channel {
        Some(channel) => Some(rattler_conda_types::ChannelUrl::from(::url::Url::parse(channel).ok()?)),
        None => None,
    };
    Some(rattler_lock::CondaPackageData::Binary(rattler_lock::CondaBinaryData {
        package_record: entry.record.clone(),
        location: rattler_lock::UrlOrPath::Url(::url::Url::parse(&entry.url).ok()?),
        file_name: entry.file_name.clone(),
        channel,
    }))
}

/// The wheel as `rattler_lock` holds it, each text read by the `from_str` of
/// its type and the digest by `parse_digest_from_hex`. `None` where one of
/// them cannot be read. Nothing is stated of the result: whether a
/// dependency is read by `Requirement::from_str` depends on the environment
/// of the process. That reader does not come back on a dependency that
/// names `PROJECT_ROOT` where the working directory is gone, nor on one in
/// which a name ends in `-`, `_` or `.`: those are kept out.
#[verifier::external_body]
fn wheel_data(entry: &WheelEntry) -> Option<rattler_lock::PypiPackageData>
    requires
        dependencies_are_safe(texts(entry.requires_dist@)),
{
    let hash = match &entry.sha256 {
        Some(hex) => Some(rattler_digest::parse_digest_from_hex::<rattler_digest::Sha256>(hex)?),
        None => None,
    };
    Some(rattler_lock::PypiPackageData {
        name: entry.name.parse().ok()?,
        version: entry.version.parse().ok()?,
        location: rattler_lock::UrlOrPath::Url(::url::Url::parse(&entry.url).ok()?),
        hash: hash.map(rattler_lock::PackageHashes::Sha256),
        requires_dist: entry.requires_dist.iter().map(|r| r.parse()).collect::<Result<_, _>>().ok()?,
        requires_python: entry.requires_python.as_ref().map(|r| r.parse()).transpose().ok()?,
        editable: entry.editable,
    })
}

/// `LockFileBuilder::add_conda_package`, with the platform read by
/// `Platform::from_str`. Returns `false`, and leaves the builder as it is,
/// exactly where the text names no platform.
#[verifier::external_body]
fn builder_add_conda(
    builder: &mut rattler_lock::LockFileBuilder,
    environment: &str,
    platform: &str,
    package: rattler_lock::CondaPackageData,
) -> (r: bool)
    ensures
        r == is_platform_name(platform@),
        *final(builder) == if r {
            builder_with_conda(*old(builder), environment@, platform@, package)
        } else {
            *old(builder)
        },
{
    match platform.parse::<rattler_conda_types::Platform>() {
        Ok(platform) => {
            builder.add_conda_package(environment, platform, package);
            true
        },
        Err(_) => false,
    }
}

/// `LockFileBuilder::add_pypi_package`, without extras and with the platform
/// read by `Platform::from_str`. Returns `false`, and leaves the builder as
/// it is, exactly where the text names no platform.
#[verifier::external_body]
fn builder_add_wheel(
    builder: &mut rattler_lock::LockFileBuilder,
    environment: &str,
    platform: &str,
    package: rattler_lock::PypiPackageData,
) -> (r: bool)
    ensures
        r == is_platform_name(platform@),
        *final(builder) == if r {
            builder_with_wheel(*old(builder), environment@, platform@, package)
        } else {
            *old(builder)
        },
{
    match platform.parse::<rattler_conda_types::Platform>() {
        Ok(platform) => {
            builder.add_pypi_package(environment, platform, package, Default::default());
            true
        },
        Err(_) => false,
    }
}

/// `LockFileBuilder::finish`, then `LockFile::render_to_string`: the text of
/// the lock file, or `None` where it cannot be rendered.
#[verifier::external_body]
fn render_builder(builder: rattler_lock::LockFileBuilder) -> (r: Option<String>)
    ensures
        some_text(r) == rendered_lock(builder),
{
    builder.finish().render_to_string().ok()
}

/// The builder after an environment has been handed to it: with the
/// channels of the environment and, where it has any, its indexes. `None`
/// where an index is no URL.
pub open spec fn fed_environment(
    builder: rattler_lock::LockFileBuilder,
    environment: LockEnvironmentView,
) -> Option<rattler_lock::LockFileBuilder> {
    let with_channels = builder_with_channels(builder, environment.name, environment.channels);
    if environment.indexes.len() == 0 {
        Some(with_channels)
    } else if urls_read(environment.indexes) {
        Some(builder_with_indexes(with_channels, environment.name, environment.indexes))
    } else {
        None
    }
}

/// The builder after the first `n` environments have been handed to it, one
/// after the other. `None` where one of them could not be.
pub open spec fn fed_environments(
    start: rattler_lock::LockFileBuilder,
    environments: Seq<LockEnvironmentView>,
    n: int,
) -> Option<rattler_lock::LockFileBuilder>
    decreases n,
{
    if n <= 0 {
        Some(start)
    } else {
        match fed_environments(start, environments, n - 1) {
            None => None,
            Some(builder) => fed_environment(builder, environments[n - 1]),
        }
    }
}

/// The builder after a binary package has been handed to it. `None` where
/// the package cannot be handed over.
pub open spec fn fed_binary(
    builder: rattler_lock::LockFileBuilder,
    environment: Seq<char>,
    platform: Seq<char>,
    entry: BinaryEntryView,
) -> Option<rattler_lock::LockFileBuilder> {
    if !(is_platform_name(platform) && binary_entry_reads(entry)) {
        None
    } else {
        match conda_package_of(entry) {
            Some(package) => Some(builder_with_conda(builder, environment, platform, package)),
            None => None,
        }
    }
}

/// Whether all the packages are binary packages.
pub open spec fn binary_only(packages: Seq<LockedPackageView>) -> bool {
    forall|i: int| 0 <= i < packages.len() ==> (#[trigger] packages[i]).entry is Binary
}

/// The builder after the first `n` packages have been handed to it, one
/// after the other, where all of them are binary packages. `None` where
/// one of them could not be, or is a wheel.
pub open spec fn fed_packages(
    start: Option<rattler_lock::LockFileBuilder>,
    packages: Seq<LockedPackageView>,
    n: int,
) -> Option<rattler_lock::LockFileBuilder>
    decreases n,
{
    if n <= 0 {
        start
    } else {
        match fed_packages(start, packages, n - 1) {
            None => None,
            Some(builder) => match packages[n - 1].entry {
                PackageEntryView::Binary(entry) => fed_binary(
                    builder,
                    packages[n - 1].environment,
                    packages[n - 1].platform,
                    entry,
                ),
                PackageEntryView::Wheel(_) => None,
            },
        }
    }
}

/// The builder after a model of binary packages has been handed to it: its
/// environments first, then its packages, each in the order of the model.
pub open spec fn fed(start: rattler_lock::LockFileBuilder, model: LockModelView) -> Option<
    rattler_lock::LockFileBuilder,
> {
    fed_packages(
        fed_environments(start, model.environments, model.environments.len() as int),
        model.packages,
        model.packages.len() as int,
    )
}

/// Whether `after` is the builder `before` with one more package handed to
/// it. A binary package is handed over as it is made of its entry. A wheel
/// is handed over as `rattler_lock` holds it, which depends on how its
/// dependencies were read: what is known of that is that its texts are
/// read.
pub open spec fn handed_package(
    before: rattler_lock::LockFileBuilder,
    package: LockedPackageView,
    after: rattler_lock::LockFileBuilder,
) -> bool {
    match package.entry {
        PackageEntryView::Binary(entry) => fed_binary(
            before,
            package.environment,
            package.platform,
            entry,
        ) == Some(after),
        PackageEntryView::Wheel(entry) => is_platform_name(package.platform) && wheel_entry_reads(
            entry,
        ) && exists|held: rattler_lock::PypiPackageData|
            after == #[trigger] builder_with_wheel(
                before,
                package.environment,
                package.platform,
                held,
            ),
    }
}

/// Whether `end` is the builder `start` with the first `n` packages handed
/// to it, one after the other.
pub open spec fn handed_packages(
    start: rattler_lock::LockFileBuilder,
    packages: Seq<LockedPackageView>,
    n: int,
    end: rattler_lock::LockFileBuilder,
) -> bool
    decreases n,
{
    if n <= 0 {
        end == start
    } else {
        let last = packages[n - 1];
        exists|before: rattler_lock::LockFileBuilder|
            handed_packages(start, packages, n - 1, before) && #[trigger] handed_package(
                before,
                last,
                end,
            )
    }
}

/// A builder that the first `n` packages were handed to, with the next
/// package handed to it, is one that the first `n + 1` were handed to.
pub proof fn lemma_handed_one_more(
    start: rattler_lock::LockFileBuilder,
    packages: Seq<LockedPackageView>,
    n: int,
    before: rattler_lock::LockFileBuilder,
    end: rattler_lock::LockFileBuilder,
)
    requires
        0 <= n < packages.len(),
        handed_packages(start, packages, n, before),
        handed_package(before, packages[n], end),
    ensures
        handed_packages(start, packages, n + 1, end),
{
    let m = n + 1;
    assert(handed_packages(start, packages, m - 1, before) && handed_package(
        before,
        packages[m - 1],
        end,
    ));
}

/// Whether `end` is the builder `start` with the whole model handed to it:
/// its environments first, then its packages, each in the order of the
/// model.
pub open spec fn handed_over(
    start: rattler_lock::LockFileBuilder,
    model: LockModelView,
    end: rattler_lock::LockFileBuilder,
) -> bool {
    match fed_environments(start, model.environments, model.environments.len() as int) {
        Some(with_environments) => handed_packages(
            with_environments,
            model.packages,
            model.packages.len() as int,
            end,
        ),
        None => false,
    }
}

/// What rendering comes to, from the builder that the model was handed to:
/// the text that is made of it, or a `SerializationFailure` where the model
/// could not be handed over or no text is made.
pub open spec fn rendering_of(builder: Option<rattler_lock::LockFileBuilder>) -> Result<
    Seq<char>,
    LockError,
> {
    match builder {
        None => Err(LockError::SerializationFailure),
        Some(builder) => match rendered_lock(builder) {
            Some(text) => Ok(text),
            None => Err(LockError::SerializationFailure),
        },
    }
}

/// Once a step has failed, the failure stands whatever follows.
pub proof fn lemma_fed_environments_failure_stays(
    start: rattler_lock::LockFileBuilder,
    environments: Seq<LockEnvironmentView>,
    failed: int,
    n: int,
)
    requires
        0 <= failed <= n,
        fed_environments(start, environments, failed) is None,
    ensures
        fed_environments(start, environments, n) is None,
    decreases n - failed,
{
    if failed < n {
        lemma_fed_environments_failure_stays(start, environments, failed, n - 1);
    }
}

/// Once a step has failed, the failure stands whatever follows.
pub proof fn lemma_fed_packages_failure_stays(
    start: Option<rattler_lock::LockFileBuilder>,
    packages: Seq<LockedPackageView>,
    failed: int,
    n: int,
)
    requires
        0 <= failed <= n,
        fed_packages(start, packages, failed) is None,
    ensures
        fed_packages(start, packages, n) is None,
    decreases n - failed,
{
    if failed < n {
        lemma_fed_packages_failure_stays(start, packages, failed, n - 1);
    }
}

/// What rendering comes to, from what `rattler_lock` gave: the text of the
/// lock file, or a `SerializationFailure` where it gave none.
pub fn lock_file_text(rendered: Option<String>) -> (r: Result<String, LockError>)
    ensures
        r == match rendered {
            Some(text) => Ok::<String, LockError>(text),
            None => Err(LockError::SerializationFailure),
        },
{
    match rendered {
        Some(text) => Ok(text),
        None => Err(LockError::SerializationFailure),
    }
}

/// Hands a binary package over to the builder. Returns whether it was
/// taken, which it is exactly where it can be handed over; a package that
/// is not taken leaves the builder as it is.
fn hand_over_binary(
    builder: &mut rattler_lock::LockFileBuilder,
    environment: &str,
    platform: &str,
    entry: &BinaryEntry,
) -> (r: bool)
    ensures
        r == (is_platform_name(platform@) && binary_entry_reads(entry@)),
        r == fed_binary(*old(builder), environment@, platform@, entry@) is Some,
        *final(builder) == match fed_binary(*old(builder), environment@, platform@, entry@) {
            Some(fed) => fed,
            None => *old(builder),
        },
{
    let short = match &entry.channel {
        Some(channel) => channel.as_str().len() <= MAX_URL_BYTES,
        None => true,
    };
    if !short {
        return false;
    }
    match conda_data(entry) {
        Some(data) => builder_add_conda(builder, environment, platform, data),
        None => false,
    }
}

/// Whether a text is a SHA-256 digest in hexadecimal.
pub fn is_digest(digest: &str) -> (r: bool)
    ensures
        r == is_sha256_hex(digest@),
{
    let chars = chars_of(digest);
    if chars.len() != 64 {
        return false;
    }
    let mut i: usize = 0;
    while i < chars.len()
        invariant
            i <= chars.len(),
            chars@ == digest@,
            forall|k: int| 0 <= k < i ==> is_hex_digit(#[trigger] digest@[k]),
        decreases chars.len() - i,
    {
        let c = chars[i];
        if !(('0' <= c && c <= '9') || ('a' <= c && c <= 'f') || ('A' <= c && c <= 'F')) {
            return false;
        }
        i = i + 1;
    }
    true
}

/// Whether the texts of a wheel are read, as far as that depends on the
/// texts alone.
pub fn is_readable_wheel(entry: &WheelEntry) -> (r: bool)
    ensures
        r == wheel_entry_reads(entry@),
{
    let digest_reads = match &entry.sha256 {
        Some(digest) => is_digest(digest.as_str()),
        None => true,
    };
    let range_reads = match &entry.requires_python {
        Some(range) => reads_as_specifiers(range.as_str()),
        None => true,
    };
    are_safe_dependencies(&entry.requires_dist) && is_name(entry.name.as_str()) && any_prerelease(
        entry.version.as_str(),
    ).is_some() && normal_form(entry.url.as_str()).is_some() && digest_reads && range_reads
}

/// Hands a wheel over to the builder. Returns whether it was taken. It is
/// not where its texts are not read; where they are, it is taken where its
/// dependencies are read, too, and is handed over as `rattler_lock` then
/// holds it. A wheel that is not taken leaves the builder as it is.
fn hand_over_wheel(
    builder: &mut rattler_lock::LockFileBuilder,
    environment: &str,
    platform: &str,
    entry: &WheelEntry,
) -> (r: bool)
    ensures
        r ==> is_platform_name(platform@) && wheel_entry_reads(entry@),
        r ==> exists|package: rattler_lock::PypiPackageData|
            *final(builder) == #[trigger] builder_with_wheel(
                *old(builder),
                environment@,
                platform@,
                package,
            ),
        !r ==> *final(builder) == *old(builder),
{
    if !is_readable_wheel(entry) {
        return false;
    }
    match wheel_data(entry) {
        Some(data) => {
            let ghost handed = data;
            let taken = builder_add_wheel(builder, environment, platform, data);
            assert(taken ==> *builder == builder_with_wheel(
                *old(builder),
                environment@,
                platform@,
                handed,
            ));
            taken
        },
        None => false,
    }
}

/// Renders a frozen model as the text of a lock file.
///
/// The environments are handed to a builder of `rattler_lock` with their
/// channels and indexes, then the packages in their order, and the builder
/// renders the text. Fails with `SerializationFailure`, and with nothing
/// else. It does so on every model that is not [`renderable`]: where an
/// index, a URL or a channel is no URL, a platform no platform, a name, a
/// version, a digest or a range of Python versions not what it is meant to
/// be, or a dependency not fit to be handed over.
///
/// A text that comes out is what `rattler_lock` makes of a builder that the
/// whole model was handed to, step by step, from an empty one. For a model
/// of binary packages that builder, and so the result, is a matter of the
/// model alone. What a wheel is handed over as depends on how its
/// dependencies are read, which is not a matter of their texts alone.
pub fn render_lock_file(model: &LockModel) -> (r: Result<String, LockError>)
    requires
        model@.phase == Phase::Finalized,
    ensures
        r matches Err(e) ==> e == LockError::SerializationFailure,
        r is Ok ==> renderable(model@),
        binary_only(model@.packages) ==> exists|start: rattler_lock::LockFileBuilder|
            #[trigger] builder_is_empty(start) && ok_text(r) == rendering_of(fed(start, model@)),
        r matches Ok(text) ==> exists|
            start: rattler_lock::LockFileBuilder,
            end: rattler_lock::LockFileBuilder,
        |
            #![trigger builder_is_empty(start), rendered_lock(end)]
            builder_is_empty(start) && handed_over(start, model@, end) && rendered_lock(end)
                == Some(text@),
{
    let mut builder = new_builder();
    let ghost start = builder;
    let environments = model.environments();
    let ghost environment_list = environment_views(environments@);
    let mut i: usize = 0;
    while i < environments.len()
        invariant
            i <= environments.len(),
            environment_list == environment_views(environments@),
            forall|j: int| 0 <= j < i ==> environment_reads(#[trigger] environment_list[j]),
            fed_environments(start, environment_list, i as int) == Some(builder),
            builder_is_empty(start),
            environment_list == model@.environments,
        decreases environments.len() - i,
    {
        let environment = &environments[i];
        assert(environment_list[i as int] == environment@);
        builder_set_channels(&mut builder, environment.name.as_str(), &environment.channels);
        if environment.indexes.len() > 0 {
            if !builder_set_indexes(&mut builder, environment.name.as_str(), &environment.indexes) {
                proof {
                    lemma_fed_environments_failure_stays(
                        start,
                        environment_list,
                        i + 1,
                        environment_list.len() as int,
                    );
                    lemma_fed_packages_failure_stays(
                        None,
                        model@.packages,
                        0,
                        model@.packages.len() as int,
                    );
                    assert(builder_is_empty(start));
                }
                return Err(LockError::SerializationFailure);
            }
        }
        i = i + 1;
    }
    let ghost fed_with_environments = fed_environments(
        start,
        environment_list,
        environment_list.len() as int,
    );
    let ghost with_environments = builder;
    let packages = model.packages();
    let ghost package_list = locked_views(packages@);
    let mut k: usize = 0;
    while k < packages.len()
        invariant
            k <= packages.len(),
            package_list == locked_views(packages@),
            package_list == model@.packages,
            environment_list == model@.environments,
            builder_is_empty(start),
            fed_with_environments == fed_environments(
                start,
                environment_list,
                environment_list.len() as int,
            ),
            forall|j: int| 0 <= j < k ==> package_reads(#[trigger] package_list[j]),
            binary_only(package_list) ==> fed_packages(fed_with_environments, package_list, k as int)
                == Some(builder),
            fed_with_environments == Some(with_environments),
            handed_packages(with_environments, package_list, k as int, builder),
        decreases packages.len() - k,
    {
        let package = &packages[k];
        let ghost before = builder;
        assert(package_list[k as int] == package@);
        let added = match &package.entry {
            PackageEntry::Binary(entry) => hand_over_binary(
                &mut builder,
                package.environment.as_str(),
                package.platform.as_str(),
                entry,
            ),
            PackageEntry::Wheel(entry) => hand_over_wheel(
                &mut builder,
                package.environment.as_str(),
                package.platform.as_str(),
                entry,
            ),
        };
        if !added {
            proof {
                if binary_only(package_list) {
                    lemma_fed_packages_failure_stays(
                        fed_with_environments,
                        package_list,
                        k + 1,
                        package_list.len() as int,
                    );
                    assert(builder_is_empty(start));
                }
            }
            return Err(LockError::SerializationFailure);
        }
        proof {
            lemma_handed_one_more(with_environments, package_list, k as int, before, builder);
        }
        k = k + 1;
    }
    let ghost end = builder;
    let r = lock_file_text(render_builder(builder));
    proof {
        if binary_only(package_list) {
            assert(builder_is_empty(start));
            assert(ok_text(r) == rendering_of(fed(start, model@)));
        }
        if r is Ok {
            assert(handed_over(start, model@, end));
            assert(builder_is_empty(start) && rendered_lock(end) == Some(r->Ok_0@));
        }
    }
    r
}

} // verus!
