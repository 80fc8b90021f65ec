use capnez_codegen::naming::{camel_name, pascal_name, push_with_initial, split_words};
use capnez_codegen::text::{lower, push_chars, push_decimal, push_joined, same_text, upper};

#[test]
fn split_words_keeps_empty_pieces() {
    assert_eq!(split_words("hello_request"), vec!["hello".to_string(), "request".to_string()]);
    assert_eq!(split_words(""), vec![String::new()]);
    assert_eq!(split_words("_"), vec![String::new(), String::new()]);
    assert_eq!(
        split_words("a__b_"),
        vec!["a".to_string(), String::new(), "b".to_string(), String::new()]
    );
    assert_eq!(split_words("plain"), vec!["plain".to_string()]);
}

#[test]
fn push_with_initial_replaces_the_first_character() {
    let mut out = String::from(">");
    push_with_initial(&mut out, "hello", &vec!['H']);
    assert_eq!(out, ">Hello");
    push_with_initial(&mut out, "", &vec!['X']);
    assert_eq!(out, ">Hello");
    push_with_initial(&mut out, "ß", &vec!['S', 'S']);
    assert_eq!(out, ">HelloSS");
    push_with_initial(&mut out, "x", &vec![]);
    assert_eq!(out, ">HelloSS");
}

#[test]
fn pascal_name_capitalises_every_word() {
    assert_eq!(pascal_name("hello_request"), "HelloRequest");
    assert_eq!(pascal_name("HelloReply"), "HelloReply");
    assert_eq!(pascal_name("device_status_v2"), "DeviceStatusV2");
    assert_eq!(pascal_name("u8"), "U8");
}

#[test]
fn pascal_name_drops_empty_words() {
    assert_eq!(pascal_name(""), "");
    assert_eq!(pascal_name("_"), "");
    assert_eq!(pascal_name("__a__b_"), "AB");
    assert_eq!(pascal_name("_leading"), "Leading");
}

#[test]
fn pascal_name_uses_the_full_uppercase_mapping() {
    assert_eq!(pascal_name("ßeta_état"), "SSetaÉtat");
    assert_eq!(pascal_name("1st_place"), "1stPlace");
}

#[test]
fn camel_name_lowers_only_the_first_word() {
    assert_eq!(camel_name("say_hello"), "sayHello");
    assert_eq!(camel_name("Idle"), "idle");
    assert_eq!(camel_name("Error"), "error");
    assert_eq!(camel_name("battery_level"), "batteryLevel");
    assert_eq!(camel_name("sayHello"), "sayHello");
    assert_eq!(camel_name("URL_path"), "uRLPath");
}

#[test]
fn camel_name_counts_an_empty_first_word() {
    assert_eq!(camel_name(""), "");
    assert_eq!(camel_name("_x"), "X");
    assert_eq!(camel_name("_Private_field"), "PrivateField");
    assert_eq!(camel_name("Éclair_au_café"), "éclairAuCafé");
}

#[test]
fn push_decimal_writes_the_numeral() {
    let mut out = String::from("@");
    push_decimal(&mut out, 0);
    assert_eq!(out, "@0");
    push_decimal(&mut out, 7);
    push_decimal(&mut out, 10);
    push_decimal(&mut out, 1234567890);
    assert_eq!(out, "@07101234567890");
    let mut max = String::new();
    push_decimal(&mut max, usize::MAX);
    assert_eq!(max, usize::MAX.to_string());
}

#[test]
fn push_chars_appends_in_order() {
    let mut out = String::from("a");
    push_chars(&mut out, &vec!['b', 'c']);
    push_chars(&mut out, &vec![]);
    assert_eq!(out, "abc");
}

#[test]
fn push_joined_separates_the_parts() {
    let mut out = String::from("[");
    push_joined(&mut out, &vec![], ", ");
    assert_eq!(out, "[");
    push_joined(&mut out, &vec!["a".to_string()], ", ");
    assert_eq!(out, "[a");
    push_joined(&mut out, &vec!["b".to_string(), String::new(), "c".to_string()], "-");
    assert_eq!(out, "[ab--c");
}

#[test]
fn same_text_compares_characters() {
    assert!(same_text("capnp", "capnp"));
    assert!(!same_text("capnp", "capnp_bytes"));
    assert!(!same_text("serde", "Serde"));
    assert!(same_text("", ""));
}

#[test]
fn ascii_case_mapping_agrees_with_the_standard_library() {
    for code in 0u8..128 {
        let c = code as char;
        assert_eq!(upper(c), c.to_uppercase().collect::<Vec<char>>(), "upper of {:?}", c);
        assert_eq!(lower(c), c.to_lowercase().collect::<Vec<char>>(), "lower of {:?}", c);
    }
}

#[test]
fn case_mapping_beyond_ascii_comes_from_the_standard_library() {
    assert_eq!(upper('é'), vec!['É']);
    assert_eq!(upper('ß'), vec!['S', 'S']);
    assert_eq!(upper('ǆ'), vec!['Ǆ']);
    assert_eq!(upper('日'), vec!['日']);
    assert_eq!(lower('É'), vec!['é']);
    assert_eq!(lower('İ'), vec!['i', '\u{307}']);
    assert_eq!(lower('日'), vec!['日']);
    assert_eq!(upper('\u{7f}'), vec!['\u{7f}']);
    assert_eq!(upper('\u{80}'), vec!['\u{80}']);
}

#[test]
fn case_mapping_of_ascii_letters() {
    assert_eq!(upper('a'), vec!['A']);
    assert_eq!(upper('z'), vec!['Z']);
    assert_eq!(upper('Q'), vec!['Q']);
    assert_eq!(upper('`'), vec!['`']);
    assert_eq!(upper('{'), vec!['{']);
    assert_eq!(upper('7'), vec!['7']);
    assert_eq!(lower('A'), vec!['a']);
    assert_eq!(lower('Z'), vec!['z']);
    assert_eq!(lower('q'), vec!['q']);
    assert_eq!(lower('@'), vec!['@']);
    assert_eq!(lower('['), vec!['[']);
}
