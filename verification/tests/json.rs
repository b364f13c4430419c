use deeprecall::json::{
    Json, JsonNumber, duplicate_items, duplicate_members, find_member, get_member, put_member,
    remove_member,
};
use deeprecall::sql::{append_joined, make_assignments, make_placeholders};
use deeprecall::text::{
    append_chars, append_str, char_is_hex_digit, chars_of, digit_char, eq_ignore_case, has_suffix,
    lower_ascii, push_decimal, str_eq, string_of,
};

fn members() -> Vec<(String, Json)> {
    vec![
        ("a".to_string(), Json::Bool(true)),
        ("b".to_string(), Json::Null),
        ("a".to_string(), Json::Bool(false)),
    ]
}

#[test]
fn duplicate_is_equal_to_the_original() {
    let value = Json::Object(vec![
        ("list".to_string(), Json::Array(vec![Json::Number(JsonNumber::NegInt(-1)), Json::Null])),
        ("inner".to_string(), Json::Object(vec![("s".to_string(), Json::String("x".to_string()))])),
    ]);
    assert_eq!(value.duplicate(), value);
    assert_eq!(duplicate_items(&vec![Json::Null, Json::Bool(true)]), vec![Json::Null, Json::Bool(true)]);
    assert_eq!(duplicate_members(&members()), members());
}

#[test]
fn members_are_found_from_the_front() {
    let m = members();
    assert_eq!(find_member(&m, "a"), 0);
    assert_eq!(find_member(&m, "b"), 1);
    assert_eq!(find_member(&m, "c"), 3);
    assert_eq!(get_member(&m, "a"), Some(&Json::Bool(true)));
    assert_eq!(get_member(&m, "c"), None);
    assert_eq!(Json::Object(members()).get("b"), Some(&Json::Null));
    assert_eq!(Json::Array(vec![]).get("b"), None);
}

#[test]
fn put_replaces_in_place_or_appends() {
    let mut m = members();
    put_member(&mut m, "b".to_string(), Json::Bool(true));
    assert_eq!(m[1], ("b".to_string(), Json::Bool(true)));
    assert_eq!(m.len(), 3);
    put_member(&mut m, "z".to_string(), Json::Null);
    assert_eq!(m.len(), 4);
    assert_eq!(m[3], ("z".to_string(), Json::Null));
    put_member(&mut m, "a".to_string(), Json::Null);
    assert_eq!(m[0], ("a".to_string(), Json::Null));
    assert_eq!(m[2], ("a".to_string(), Json::Bool(false)));
}

#[test]
fn remove_takes_every_member_of_the_name() {
    let mut m = members();
    remove_member(&mut m, "a");
    assert_eq!(m, vec![("b".to_string(), Json::Null)]);
    remove_member(&mut m, "nope");
    assert_eq!(m, vec![("b".to_string(), Json::Null)]);
    remove_member(&mut m, "b");
    assert!(m.is_empty());
}

#[test]
fn text_helpers_agree_with_std() {
    assert_eq!(chars_of("häß"), vec!['h', 'ä', 'ß']);
    assert_eq!(string_of(&vec!['a', 'é']), "aé");
    let mut s = String::from("x");
    append_chars(&mut s, &vec!['y', 'z']);
    assert_eq!(s, "xyz");
    append_str(&mut s, "!");
    assert_eq!(s, "xyz!");
    assert!(str_eq("ab", "ab"));
    assert!(!str_eq("ab", "aB"));
    assert!(has_suffix(&chars_of("work_id"), &chars_of("_id")));
    assert!(has_suffix(&chars_of("_id"), &chars_of("_id")));
    assert!(!has_suffix(&chars_of("id"), &chars_of("_id")));
    assert!(has_suffix(&chars_of("x"), &chars_of("")));
    assert!(char_is_hex_digit('0') && char_is_hex_digit('f') && char_is_hex_digit('A'));
    assert!(!char_is_hex_digit('g') && !char_is_hex_digit('/') && !char_is_hex_digit(':'));
    assert_eq!(lower_ascii('Q'), 'q');
    assert_eq!(lower_ascii('q'), 'q');
    assert_eq!(lower_ascii('Ä'), 'Ä');
    assert_eq!(lower_ascii('['), '[');
    assert_eq!(lower_ascii('@'), '@');
    assert!(eq_ignore_case(&chars_of("AbCdEf09"), &chars_of("abcDEF09")));
    assert!(!eq_ignore_case(&chars_of("ab"), &chars_of("abc")));
    assert!(!eq_ignore_case(&chars_of("ab"), &chars_of("ac")));
}

#[test]
fn numerals_and_lists_are_spelled() {
    let mut out = vec!['#'];
    push_decimal(&mut out, 0);
    assert_eq!(out, vec!['#', '0']);
    let mut out = Vec::new();
    push_decimal(&mut out, 1234567890);
    assert_eq!(string_of(&out), "1234567890");
    let mut out = Vec::new();
    push_decimal(&mut out, u128::MAX);
    assert_eq!(string_of(&out), u128::MAX.to_string());
    assert_eq!(digit_char(0), '0');
    assert_eq!(digit_char(9), '9');
    assert_eq!(make_placeholders(3, 1), vec!["$1", "$2", "$3"]);
    assert_eq!(make_placeholders(0, 1), Vec::<String>::new());
    assert_eq!(make_placeholders(12, 1)[11], "$12");
    let columns = vec!["a".to_string(), "b_c".to_string()];
    assert_eq!(make_assignments(&columns, 2), vec!["a = $2", "b_c = $3"]);
    let mut s = String::from("(");
    append_joined(&mut s, &columns, ", ");
    assert_eq!(s, "(a, b_c");
    let mut s = String::new();
    append_joined(&mut s, &vec![], ", ");
    assert_eq!(s, "");
    append_joined(&mut s, &vec!["only".to_string()], ", ");
    assert_eq!(s, "only");
}
