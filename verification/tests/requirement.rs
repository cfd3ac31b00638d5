use std::str::FromStr;

use conda_rlock::requirement::{
    are_safe_dependencies, chars_of, has_sound_head, is_name, is_safe_dependency, name_char,
    stands_at, stands_in,
};

fn chars(text: &str) -> Vec<char> {
    text.chars().collect()
}

#[test]
fn chars_of_gives_every_character() {
    assert_eq!(chars_of("a-b"), vec!['a', '-', 'b']);
    assert_eq!(chars_of(""), Vec::<char>::new());
    assert_eq!(chars_of("việt"), vec!['v', 'i', 'ệ', 't']);
}

#[test]
fn name_char_takes_letters_digits_and_three_more() {
    for c in ['a', 'z', 'A', 'Z', '0', '9', '-', '_', '.'] {
        assert!(name_char(c));
    }
    for c in [' ', '[', ']', ',', '@', '/', ':', '`', '{', 'é', '$'] {
        assert!(!name_char(c));
    }
}

#[test]
fn a_head_is_sound_where_no_name_ends_in_punctuation() {
    for text in ["idna", "idna>=2.5", "a_b.c-d", "a[b.c,d-e]", "  spaced  >= 1", "", "a ; b- "] {
        assert!(has_sound_head(&chars(text)));
    }
    for text in ["a-", "a- >=1", "a->=1", "a[b-]", "a[b-", "a[b_ ]", ".", "a.b_ [c]"] {
        assert!(!has_sound_head(&chars(text)));
    }
}

#[test]
fn the_head_ends_where_the_rest_begins() {
    for text in ["a>=1.*", "a==1.-", "a @ ./local-", "a; x == 'y-'", "a(<1.)", "a!=1.", "a~=1."] {
        assert!(has_sound_head(&chars(text)));
    }
}

#[test]
fn stands_at_compares_at_one_position() {
    let text = chars("abcabc");
    assert!(stands_at(&chars("abc"), &text, 0));
    assert!(stands_at(&chars("abc"), &text, 3));
    assert!(!stands_at(&chars("abc"), &text, 1));
    assert!(!stands_at(&chars("abc"), &text, 4));
    assert!(!stands_at(&chars("abc"), &text, 7));
    assert!(stands_at(&chars(""), &text, 6));
    assert!(!stands_at(&chars(""), &text, 7));
    assert!(!stands_at(&chars("abcabcabc"), &text, 0));
}

#[test]
fn stands_in_finds_a_pattern_anywhere() {
    assert!(stands_in(&chars("bc"), &chars("abcd")));
    assert!(stands_in(&chars("abcd"), &chars("abcd")));
    assert!(stands_in(&chars("d"), &chars("abcd")));
    assert!(stands_in(&chars(""), &chars("")));
    assert!(!stands_in(&chars("bd"), &chars("abcd")));
    assert!(!stands_in(&chars("abcde"), &chars("abcd")));
    assert!(!stands_in(&chars("a"), &chars("")));
}

#[test]
fn a_dependency_that_names_the_project_root_is_not_safe() {
    assert!(!is_safe_dependency("a @ file://${PROJECT_ROOT}/a.whl"));
    assert!(!is_safe_dependency("${PROJECT_ROOT}"));
    assert!(!is_safe_dependency("a ; extra == '${PROJECT_ROOT}'"));
    assert!(is_safe_dependency("a @ file://${HOME}/a.whl"));
    assert!(is_safe_dependency("a @ file://$PROJECT_ROOT/a.whl"));
    assert!(is_safe_dependency("a @ file://${PROJECT_ROOT/a.whl"));
    assert!(is_safe_dependency("a @ file://${project_root}/a.whl"));
}

#[test]
fn dependencies_are_safe_where_each_is() {
    let owned = |parts: &[&str]| parts.iter().map(|p| p.to_string()).collect::<Vec<String>>();
    assert!(are_safe_dependencies(&owned(&[])));
    assert!(are_safe_dependencies(&owned(&["idna<4,>=2.5", "numpy==1.*"])));
    assert!(!are_safe_dependencies(&owned(&["idna<4,>=2.5", "a- >=1"])));
    assert!(!are_safe_dependencies(&owned(&["a[b-]", "idna"])));
}

#[test]
fn is_name_agrees_with_the_reader_of_names() {
    let names = [
        "requests", "a", "A1", "zope.interface", "typing_extensions", "a-b.c_d", "a--b", "a._-b",
        "", "-a", "a-", ".a", "a.", "_a", "a_", "a b", "a/b", "é", "a\u{e9}b", "a+b", "-", "a.b.c",
    ];
    for name in names {
        assert_eq!(is_name(name), pep508_rs::PackageName::from_str(name).is_ok(), "{name:?}");
    }
    assert!(is_name("zope.interface"));
    assert!(!is_name("a-"));
}
