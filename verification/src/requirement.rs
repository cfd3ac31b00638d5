//! The texts of dependencies and of package names, as far as this library
//! looks into them.
//!
//! A dependency is handed to `pep508_rs` to be read. Its reader does not
//! come back on three kinds of text, and those are told apart here so that
//! they are never handed over: a text that names the variable
//! `PROJECT_ROOT`, which is expanded to the working directory of the
//! process, and a text in which the name of the package, or of an extra,
//! ends in `-`, `_` or `.`.

use vstd::prelude::*;
use crate::search::{first_match, lemma_first_match, lemma_first_match_is};
use crate::text::texts;

verus! {

/// Whether a character is an ASCII letter or digit.
pub open spec fn is_alphanumeric(c: char) -> bool {
    ('0' <= c && c <= '9') || ('a' <= c && c <= 'z') || ('A' <= c && c <= 'Z')
}

/// Whether a character is one of the three that may stand inside a name
/// between letters and digits.
pub open spec fn is_name_punctuation(c: char) -> bool {
    c == '-' || c == '_' || c == '.'
}

/// Whether a character may stand in a name.
pub open spec fn is_name_char(c: char) -> bool {
    is_alphanumeric(c) || is_name_punctuation(c)
}

/// Whether a text is the name of a Python package, as
/// `PackageName::from_str` of `pep508_rs` takes it: ASCII letters, digits,
/// `-`, `_` and `.`, with none of the last three at the start or at the
/// end.
pub open spec fn is_package_name(name: Seq<char>) -> bool {
    &&& forall|i: int| 0 <= i < name.len() ==> is_name_char(#[trigger] name[i])
    &&& name.len() > 0 ==> !is_name_punctuation(name[0]) && !is_name_punctuation(name.last())
}

/// Whether a character ends the head of a dependency: the part with the
/// name and the extras. What follows it is a URL, a range of versions or a
/// marker.
pub open spec fn ends_head(c: char) -> bool {
    c == '@' || c == ';' || c == '=' || c == '<' || c == '>' || c == '!' || c == '~' || c == '('
}

/// The length of the head of a dependency.
pub open spec fn head_len(text: Seq<char>) -> int {
    first_match(text, |c: char| ends_head(c))
}

/// Whether the head of a dependency is sound: whether every `-`, `_` and
/// `.` in it is followed by a character of a name. In an unsound head a
/// name ends in one of the three.
pub open spec fn head_is_sound(text: Seq<char>) -> bool {
    forall|i: int|
        0 <= i < head_len(text) && is_name_punctuation(#[trigger] text[i]) ==> i + 1 < text.len()
            && is_name_char(text[i + 1])
}

/// The text by which a dependency names the root of the project.
pub open spec fn project_root() -> Seq<char> {
    "${PROJECT_ROOT}"@
}

/// Whether `pattern` stands in `text` at position `at`.
pub open spec fn occurs_at(pattern: Seq<char>, text: Seq<char>, at: int) -> bool {
    0 <= at && at + pattern.len() <= text.len() && text.subrange(at, at + pattern.len())
        == pattern
}

/// Whether `pattern` stands somewhere in `text`.
pub open spec fn occurs_in(pattern: Seq<char>, text: Seq<char>) -> bool {
    exists|at: int| occurs_at(pattern, text, at)
}

/// Whether a dependency can be handed to `pep508_rs`: its head is sound, and
/// it does not name the root of the project.
pub open spec fn dependency_is_safe(text: Seq<char>) -> bool {
    head_is_sound(text) && !occurs_in(project_root(), text)
}

/// Whether all dependencies can be handed to `pep508_rs`.
pub open spec fn dependencies_are_safe(dependencies: Seq<Seq<char>>) -> bool {
    forall|i: int| 0 <= i < dependencies.len() ==> dependency_is_safe(#[trigger] dependencies[i])
}

/// The characters of a string.
pub fn chars_of(text: &str) -> (r: Vec<char>)
    ensures
        r@ == text@,
{
    let n = text.unicode_len();
    let mut chars: Vec<char> = Vec::new();
    let mut i: usize = 0;
    while i < n
        invariant
            i <= n,
            n == text@.len(),
            chars@ == text@.take(i as int),
        decreases n - i,
    {
        chars.push(text.get_char(i));
        assert(chars@ =~= text@.take(i + 1));
        i = i + 1;
    }
    assert(text@.take(n as int) =~= text@);
    chars
}

/// Whether a character may stand in a name.
pub fn name_char(c: char) -> (r: bool)
    ensures
        r == is_name_char(c),
{
    ('0' <= c && c <= '9') || ('a' <= c && c <= 'z') || ('A' <= c && c <= 'Z') || c == '-' || c
        == '_' || c == '.'
}

/// Whether a text is the name of a Python package.
pub fn is_name(name: &str) -> (r: bool)
    ensures
        r == is_package_name(name@),
{
    let chars = chars_of(name);
    let mut i: usize = 0;
    while i < chars.len()
        invariant
            i <= chars.len(),
            chars@ == name@,
            forall|k: int| 0 <= k < i ==> is_name_char(#[trigger] name@[k]),
        decreases chars.len() - i,
    {
        if !name_char(chars[i]) {
            return false;
        }
        i = i + 1;
    }
    if chars.len() == 0 {
        return true;
    }
    let first = chars[0];
    let last = chars[chars.len() - 1];
    !(first == '-' || first == '_' || first == '.') && !(last == '-' || last == '_' || last == '.')
}

/// Whether the head of a dependency is sound.
pub fn has_sound_head(text: &Vec<char>) -> (r: bool)
    ensures
        r == head_is_sound(text@),
{
    let ghost ends = |c: char| ends_head(c);
    let mut i: usize = 0;
    while i < text.len()
        invariant
            i <= text.len(),
            ends == (|c: char| ends_head(c)),
            forall|k: int| 0 <= k < i ==> !ends(#[trigger] text@[k]),
            forall|k: int|
                0 <= k < i && is_name_punctuation(#[trigger] text@[k]) ==> k + 1 < text.len()
                    && is_name_char(text@[k + 1]),
        decreases text.len() - i,
    {
        let c = text[i];
        if c == '@' || c == ';' || c == '=' || c == '<' || c == '>' || c == '!' || c == '~' || c
            == '(' {
            proof {
                lemma_first_match_is(text@, ends, i as int);
            }
            return true;
        }
        if c == '-' || c == '_' || c == '.' {
            if i + 1 >= text.len() || !name_char(text[i + 1]) {
                proof {
                    lemma_first_match(text@, ends);
                    if head_len(text@) <= i {
                        assert(ends(text@[head_len(text@)]));
                    }
                }
                return false;
            }
        }
        i = i + 1;
    }
    proof {
        lemma_first_match_is(text@, ends, i as int);
    }
    true
}

/// Whether `pattern` stands in `text` at position `at`.
pub fn stands_at(pattern: &Vec<char>, text: &Vec<char>, at: usize) -> (r: bool)
    ensures
        r == occurs_at(pattern@, text@, at as int),
{
    if pattern.len() > text.len() || at > text.len() - pattern.len() {
        return false;
    }
    let mut k: usize = 0;
    while k < pattern.len()
        invariant
            k <= pattern.len(),
            at + pattern.len() <= text.len(),
            forall|j: int| 0 <= j < k ==> text@[at + j] == pattern@[j],
        decreases pattern.len() - k,
    {
        if text[at + k] != pattern[k] {
            assert(text@.subrange(at as int, at + pattern.len())[k as int] != pattern@[k as int]);
            return false;
        }
        k = k + 1;
    }
    assert(text@.subrange(at as int, at + pattern.len()) =~= pattern@);
    true
}

/// Whether `pattern` stands somewhere in `text`.
pub fn stands_in(pattern: &Vec<char>, text: &Vec<char>) -> (r: bool)
    ensures
        r == occurs_in(pattern@, text@),
{
    if pattern.len() > text.len() {
        assert forall|j: int| !occurs_at(pattern@, text@, j) by {}
        return false;
    }
    let last: usize = text.len() - pattern.len();
    let mut at: usize = 0;
    while at < last
        invariant
            at <= last,
            last + pattern.len() == text.len(),
            forall|j: int| 0 <= j < at ==> !occurs_at(pattern@, text@, j),
        decreases last - at,
    {
        if stands_at(pattern, text, at) {
            return true;
        }
        at = at + 1;
    }
    if stands_at(pattern, text, at) {
        return true;
    }
    assert forall|j: int| !occurs_at(pattern@, text@, j) by {
        if 0 <= j && j + pattern@.len() <= text@.len() {
            assert(j <= at);
        }
    }
    false
}

/// Whether a dependency can be handed to `pep508_rs`.
pub fn is_safe_dependency(text: &str) -> (r: bool)
    ensures
        r == dependency_is_safe(text@),
{
    let chars = chars_of(text);
    let pattern = chars_of("${PROJECT_ROOT}");
    has_sound_head(&chars) && !stands_in(&pattern, &chars)
}

/// Whether all dependencies can be handed to `pep508_rs`.
pub fn are_safe_dependencies(dependencies: &Vec<String>) -> (r: bool)
    ensures
        r == dependencies_are_safe(texts(dependencies@)),
{
    let mut i: usize = 0;
    while i < dependencies.len()
        invariant
            i <= dependencies.len(),
            forall|k: int| 0 <= k < i ==> dependency_is_safe(#[trigger] texts(dependencies@)[k]),
        decreases dependencies.len() - i,
    {
        assert(texts(dependencies@)[i as int] == dependencies@[i as int]@);
        if !is_safe_dependency(dependencies[i].as_str()) {
            return false;
        }
        i = i + 1;
    }
    true
}

} // verus!
