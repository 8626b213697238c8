use weblok::{title_case, title_case_with};

#[test]
fn title_case_capitalises_each_word() {
    assert_eq!(title_case("hello big world".to_string()), "Hello Big World");
}

#[test]
fn title_case_collapses_white_space() {
    assert_eq!(title_case("  sleepy \t\n pikachu  ".to_string()), "Sleepy Pikachu");
}

#[test]
fn title_case_keeps_the_rest_of_each_word() {
    assert_eq!(title_case("mIXED cASE".to_string()), "MIXED CASE");
}

#[test]
fn title_case_of_nothing() {
    assert_eq!(title_case(String::new()), "");
    assert_eq!(title_case("   ".to_string()), "");
}

#[test]
fn title_case_uses_full_unicode_mapping() {
    assert_eq!(title_case("éclair ßtraße".to_string()), "Éclair SStraße");
}

#[test]
fn title_case_with_given_flags_and_forms() {
    let s = "ab  cd";
    let spaces = vec![false, false, true, true, false, false];
    let uppers: Vec<String> = ["A", "B", " ", " ", "C", "D"].iter().map(|u| u.to_string()).collect();
    assert_eq!(title_case_with(s, &spaces, &uppers), "Ab Cd");
    let odd = vec!["1".to_string(), "2".to_string(), "3".to_string(), "4".to_string(), "5".to_string(), "6".to_string()];
    assert_eq!(title_case_with(s, &spaces, &odd), "1b 5d");
    assert_eq!(title_case_with("", &vec![], &vec![]), "");
}
