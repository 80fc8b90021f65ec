use capnez_codegen::bindings::{add_derive, annotate_bindings, replace_all, uses_serde};
use capnez_codegen::schema::CapnpStruct;

fn record(name: &str, has_serde: bool) -> CapnpStruct {
    CapnpStruct { name: name.to_string(), fields: vec![], has_serde }
}

#[test]
fn bindings_without_serde_stay_as_they_are() {
    let code = "pub struct Person {}\npub struct Room {}\n";
    let structs = vec![record("Person", false), record("Room", false)];
    assert!(!uses_serde(&structs));
    assert_eq!(annotate_bindings(code, &structs), code);
    assert_eq!(annotate_bindings(code, &vec![]), code);
}

#[test]
fn add_derive_goes_before_each_opening() {
    assert_eq!(
        add_derive("mod a { pub struct Person {} }\npub struct Person;", "Person"),
        "mod a { #[cfg_attr(feature = \"serde\", derive(Serialize, Deserialize))]\n\npub struct Person {} }\n#[cfg_attr(feature = \"serde\", derive(Serialize, Deserialize))]\n\npub struct Person;"
    );
    assert_eq!(add_derive("pub struct Room {}", "Person"), "pub struct Room {}");
}

#[test]
fn bindings_with_serde_get_import_and_derives() {
    let code = "pub struct Person {}\npub struct Room {}\n";
    let structs = vec![record("Person", true), record("Room", false)];
    assert!(uses_serde(&structs));
    assert_eq!(
        annotate_bindings(code, &structs),
        "#[cfg(feature = \"serde\")]\nuse serde::{Serialize, Deserialize};\n\n#[cfg_attr(feature = \"serde\", derive(Serialize, Deserialize))]\n\npub struct Person {}\npub struct Room {}\n"
    );
}

#[test]
fn a_name_that_starts_another_is_matched_too() {
    let code = "pub struct Person {}\npub struct PersonList {}\n";
    let structs = vec![record("Person", true)];
    assert_eq!(
        annotate_bindings(code, &structs),
        "#[cfg(feature = \"serde\")]\nuse serde::{Serialize, Deserialize};\n\n#[cfg_attr(feature = \"serde\", derive(Serialize, Deserialize))]\n\npub struct Person {}\n#[cfg_attr(feature = \"serde\", derive(Serialize, Deserialize))]\n\npub struct PersonList {}\n"
    );
}

#[test]
fn replace_all_takes_matches_from_the_left() {
    assert_eq!(replace_all("aaaa", "aa", "b"), "bb");
    assert_eq!(replace_all("aaaaa", "aa", "b"), "bba");
    assert_eq!(replace_all("abab", "aba", "x"), "xb");
    assert_eq!(replace_all("one two one", "one", "1"), "1 two 1");
    assert_eq!(replace_all("one two one", "three", "3"), "one two one");
    assert_eq!(replace_all("", "a", "b"), "");
    assert_eq!(replace_all("a", "ab", "x"), "a");
    assert_eq!(replace_all("ab", "ab", ""), "");
    assert_eq!(replace_all("xabx", "ab", "abab"), "xababx");
}

#[test]
fn replace_all_leaves_the_text_for_an_empty_pattern() {
    assert_eq!(replace_all("abc", "", "-"), "abc");
    assert_eq!(replace_all("", "", "-"), "");
}

#[test]
fn replace_all_agrees_with_the_standard_library() {
    let texts = [
        "",
        "pub struct Person {}",
        "pub struct Person {}\npub struct PersonList {}\npub  struct Person",
        "ababababa",
        "aaa",
        "grüße, größe, grüße",
        "日本語のテキスト日本",
        "pub struct pub struct pub struct",
    ];
    let patterns = ["a", "ab", "aba", "aa", "pub struct ", "pub struct Person", "ü", "ße", "日本", "x"];
    let replacements = ["", "a", "--", "pub struct ", "ä"];
    for text in texts {
        for pattern in patterns {
            for to in replacements {
                assert_eq!(
                    replace_all(text, pattern, to),
                    text.replace(pattern, to),
                    "{:?} with {:?} for {:?}",
                    text,
                    to,
                    pattern
                );
            }
        }
    }
}
