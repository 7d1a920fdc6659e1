use agent_platform::agent::{calculator_expression, int_words};
use agent_platform::text::{blank, chars_of, contains_chars, is_whitespace, string_of};

fn std_ints(s: &str) -> Vec<i32> {
    s.split_whitespace().filter_map(|t| t.parse::<i32>().ok()).collect()
}

#[test]
fn whitespace_matches_char_is_whitespace() {
    for u in 0u32..0x3100 {
        if let Some(c) = char::from_u32(u) {
            assert_eq!(is_whitespace(c), c.is_whitespace(), "U+{:04X}", u);
        }
    }
}

#[test]
fn integer_words_match_split_whitespace() {
    for s in [
        "",
        "   ",
        "add 2 and 5",
        "  add\t2\n\n5  ",
        "1 2 3 4",
        "x1 1x 1",
        "-3 +4 - +",
        "\u{2003}7\u{a0}8\u{85}9",
        "2147483647 2147483648 -2147483648",
    ] {
        assert_eq!(int_words(&chars_of(s)), std_ints(s), "input {:?}", s);
    }
}

#[test]
fn blank_matches_trim() {
    for s in ["", " ", "\t\n\r", "\u{3000}", " a ", "a", "\u{200b}"] {
        assert_eq!(blank(s), s.trim().is_empty(), "input {:?}", s);
    }
}

#[test]
fn calculator_expression_is_the_trimmed_rest() {
    assert_eq!(calculator_expression("calc 2 + 3 * 4").as_deref(), Some("2 + 3 * 4"));
    assert_eq!(calculator_expression("  Calc\t (1)  \n").as_deref(), Some("(1)"));
    assert_eq!(calculator_expression("calculate").as_deref(), Some(""));
    assert_eq!(calculator_expression("calculator 1").as_deref(), None);
    assert_eq!(calculator_expression("please calc 1").as_deref(), None);
    assert_eq!(calculator_expression("").as_deref(), None);
}

#[test]
fn substring_search() {
    let hay = chars_of("what did i just ask?");
    assert!(contains_chars(&hay, &chars_of("just ask")));
    assert!(contains_chars(&hay, &chars_of("")));
    assert!(!contains_chars(&hay, &chars_of("asked")));
    assert_eq!(string_of(&chars_of("héllo")), "héllo");
}
