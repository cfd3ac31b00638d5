//! The platform inferencer: from the subdirectories of the installed binary
//! packages to the one platform of the environment.
//!
//! An environment normally mixes one concrete platform, such as `linux-64`,
//! with packages that are independent of the architecture (`noarch`). The
//! first concrete platform, in the order in which the packages were found,
//! is taken for the environment. Where there are several, the first one wins.

use vstd::prelude::*;
use crate::package::{subdirs, InstalledBinaryPackage};
use crate::text::{same_text, some_text};

verus! {

/// The names of the platforms that conda knows.
pub open spec fn is_platform_name(s: Seq<char>) -> bool {
    ||| s == "noarch"@
    ||| s == "linux-32"@
    ||| s == "linux-64"@
    ||| s == "linux-aarch64"@
    ||| s == "linux-armv6l"@
    ||| s == "linux-armv7l"@
    ||| s == "linux-ppc64le"@
    ||| s == "linux-ppc64"@
    ||| s == "linux-ppc"@
    ||| s == "linux-s390x"@
    ||| s == "linux-riscv32"@
    ||| s == "linux-riscv64"@
    ||| s == "osx-64"@
    ||| s == "osx-arm64"@
    ||| s == "win-32"@
    ||| s == "win-64"@
    ||| s == "win-arm64"@
    ||| s == "emscripten-wasm32"@
    ||| s == "wasi-wasm32"@
    ||| s == "zos-z"@
}

/// The name that marks a package as independent of the architecture.
pub open spec fn noarch_name() -> Seq<char> {
    "noarch"@
}

/// Whether a subdirectory names a platform other than the marker. A
/// subdirectory that names no platform at all is not concrete either.
pub open spec fn is_concrete(subdir: Seq<char>) -> bool {
    is_platform_name(subdir) && subdir != noarch_name()
}

/// The first concrete platform among the subdirectories, in their order.
pub open spec fn first_concrete(subdirs: Seq<Seq<char>>) -> Option<Seq<char>>
    decreases subdirs.len(),
{
    if subdirs.len() == 0 {
        None
    } else if is_concrete(subdirs[0]) {
        Some(subdirs[0])
    } else {
        first_concrete(subdirs.skip(1))
    }
}

/// The platform of an environment whose packages have these subdirectories:
/// the first concrete one, or the marker where there is none.
pub open spec fn inferred_platform(subdirs: Seq<Seq<char>>) -> Seq<char> {
    match first_concrete(subdirs) {
        Some(name) => name,
        None => noarch_name(),
    }
}

/// A platform that conda knows, held by its name.
#[derive(Debug)]
pub struct Platform {
    name: String,
}

impl View for Platform {
    type V = Seq<char>;

    closed spec fn view(&self) -> Seq<char> {
        self.name@
    }
}

/// The name of an optional platform.
pub open spec fn some_platform(p: Option<Platform>) -> Option<Seq<char>> {
    match p {
        Some(p) => Some(p@),
        None => None,
    }
}

/// `Platform::from_str`, then `Platform::as_str`: a name of the table of
/// platforms is read and given back as it is; any other text is refused.
#[verifier::external_body]
fn parse_platform_name(subdir: &str) -> (r: Option<String>)
    ensures
        some_text(r) == (if is_platform_name(subdir@) {
            Some(subdir@)
        } else {
            None
        }),
{
    match subdir.parse::<rattler_conda_types::Platform>() {
        Ok(platform) => Some(platform.as_str().to_string()),
        Err(_) => None,
    }
}

impl Platform {
    /// Every platform has one of the known names.
    #[verifier::type_invariant]
    spec fn known(self) -> bool {
        is_platform_name(self.name@)
    }

    /// Reads the name of a platform. `None` where conda knows no platform of
    /// that name.
    pub fn parse(subdir: &str) -> (r: Option<Platform>)
        ensures
            some_platform(r) == (if is_platform_name(subdir@) {
                Some(subdir@)
            } else {
                None
            }),
    {
        match parse_platform_name(subdir) {
            Some(name) => Some(Platform { name }),
            None => None,
        }
    }

    /// The marker of packages that are independent of the architecture.
    pub fn noarch() -> (r: Platform)
        ensures
            r@ == noarch_name(),
    {
        let name = "noarch".to_owned();
        Platform { name }
    }

    /// The name of the platform, which is one of the known names.
    pub fn as_str(&self) -> (r: &str)
        ensures
            r@ == self@,
            is_platform_name(self@),
    {
        proof {
            use_type_invariant(self);
        }
        self.name.as_str()
    }

    /// Whether this is the marker of architecture-independent packages.
    pub fn is_noarch(&self) -> (r: bool)
        ensures
            r == (self@ == noarch_name()),
    {
        same_text(self.name.as_str(), "noarch")
    }

    /// A second platform of the same name.
    pub fn duplicate(&self) -> (r: Platform)
        ensures
            r@ == self@,
    {
        proof {
            use_type_invariant(self);
        }
        Platform { name: self.name.clone() }
    }
}

/// Makes a best guess at the platform of the environment: the first platform
/// among the packages that is not `noarch`. A subdirectory that names no
/// platform is passed over, as `noarch` is. `None` where every package is
/// passed over.
pub fn get_platform(packages: &Vec<InstalledBinaryPackage>) -> (r: Option<Platform>)
    ensures
        some_platform(r) == first_concrete(subdirs(packages@)),
{
    let mut i: usize = 0;
    assert(subdirs(packages@).skip(0) =~= subdirs(packages@));
    while i < packages.len()
        invariant
            i <= packages.len(),
            first_concrete(subdirs(packages@)) == first_concrete(subdirs(packages@).skip(i as int)),
        decreases packages.len() - i,
    {
        let ghost rest = subdirs(packages@).skip(i as int);
        proof {
            assert(rest[0] == packages@[i as int].subdir@);
            assert(rest.skip(1) =~= subdirs(packages@).skip(i + 1));
        }
        match Platform::parse(packages[i].subdir.as_str()) {
            Some(platform) => {
                if !platform.is_noarch() {
                    return Some(platform);
                }
            },
            None => {},
        }
        i = i + 1;
    }
    None
}

/// The platform of the environment: what [`get_platform`] finds, or the
/// marker `noarch` where it finds none.
pub fn infer_platform(packages: &Vec<InstalledBinaryPackage>) -> (r: Platform)
    ensures
        r@ == inferred_platform(subdirs(packages@)),
{
    match get_platform(packages) {
        Some(platform) => platform,
        None => Platform::noarch(),
    }
}

/// Subdirectories without a concrete platform give none.
pub proof fn lemma_no_concrete_platform(subdirs: Seq<Seq<char>>)
    requires
        forall|j: int| 0 <= j < subdirs.len() ==> !is_concrete(#[trigger] subdirs[j]),
    ensures
        first_concrete(subdirs) is None,
        inferred_platform(subdirs) == noarch_name(),
    decreases subdirs.len(),
{
    if subdirs.len() > 0 {
        let rest = subdirs.skip(1);
        assert forall|j: int| 0 <= j < rest.len() implies !is_concrete(#[trigger] rest[j]) by {
            assert(rest[j] == subdirs[j + 1]);
        }
        lemma_no_concrete_platform(rest);
    }
}

/// Where exactly one subdirectory is concrete, it is the platform of the
/// environment, wherever it stands among the others.
pub proof fn lemma_single_concrete_platform(subdirs: Seq<Seq<char>>, i: int)
    requires
        0 <= i < subdirs.len(),
        is_concrete(subdirs[i]),
        forall|j: int| 0 <= j < subdirs.len() && j != i ==> !is_concrete(#[trigger] subdirs[j]),
    ensures
        first_concrete(subdirs) == Some(subdirs[i]),
        inferred_platform(subdirs) == subdirs[i],
    decreases subdirs.len(),
{
    if i > 0 {
        let rest = subdirs.skip(1);
        assert(!is_concrete(subdirs[0]));
        assert forall|j: int| 0 <= j < rest.len() && j != i - 1 implies !is_concrete(
            #[trigger] rest[j],
        ) by {
            assert(rest[j] == subdirs[j + 1]);
        }
        assert(rest[i - 1] == subdirs[i]);
        lemma_single_concrete_platform(rest, i - 1);
    }
}

/// Two lists of subdirectories that hold the same single concrete platform,
/// each among architecture-independent entries only, give the same platform:
/// the order of the entries does not matter.
pub proof fn lemma_platform_independent_of_order(
    first: Seq<Seq<char>>,
    i: int,
    second: Seq<Seq<char>>,
    j: int,
)
    requires
        0 <= i < first.len(),
        0 <= j < second.len(),
        is_concrete(first[i]),
        first[i] == second[j],
        forall|k: int| 0 <= k < first.len() && k != i ==> !is_concrete(#[trigger] first[k]),
        forall|k: int| 0 <= k < second.len() && k != j ==> !is_concrete(#[trigger] second[k]),
    ensures
        inferred_platform(first) == inferred_platform(second),
        inferred_platform(first) == first[i],
{
    lemma_single_concrete_platform(first, i);
    lemma_single_concrete_platform(second, j);
}

} // verus!
