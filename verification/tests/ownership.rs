use exercises::ownership::{
    calculate_length, calculate_length_mut_ref, calculate_length_ref, deep_clone, first_word,
    gives_ownership, ownership_demo, return_borrowed_ownerhsip, return_ownership, slice_demo,
    string_demo, takes_and_gives_back,
};

#[test]
fn string_demo_joins_two_parts() {
    assert_eq!(string_demo(), ("hello".to_string(), "helloworld".to_string()));
}

#[test]
fn deep_clone_gives_two_equal_strings() {
    assert_eq!(deep_clone(), ("hello".to_string(), "hello".to_string()));
}

#[test]
fn ownership_demo_hands_over_a_string_and_an_integer() {
    assert_eq!(ownership_demo(), ("hello".to_string(), 5));
}

#[test]
fn return_ownership_runs() {
    return_ownership();
}

#[test]
fn slice_demo_runs() {
    slice_demo();
}

#[test]
fn gives_ownership_gives_yours() {
    assert_eq!(gives_ownership(), "yours");
}

#[test]
fn takes_and_gives_back_the_same() {
    assert_eq!(takes_and_gives_back("hello".to_string()), "hello");
    assert_eq!(takes_and_gives_back(String::new()), "");
    assert_eq!(takes_and_gives_back("h\u{e9}llo".to_string()), "h\u{e9}llo");
}

#[test]
fn return_borrowed_ownerhsip_measures_three_times() {
    assert_eq!(
        return_borrowed_ownerhsip(),
        vec![
            ("hello".to_string(), 5),
            ("hello".to_string(), 5),
            ("hello, world".to_string(), 12)
        ]
    );
}

#[test]
fn calculate_length_counts_bytes() {
    assert_eq!(calculate_length("hello".to_string()), ("hello".to_string(), 5));
    assert_eq!(calculate_length(String::new()), (String::new(), 0));
    assert_eq!(calculate_length("h\u{e9}llo".to_string()), ("h\u{e9}llo".to_string(), 6));
    assert_eq!(calculate_length("\u{1f600}".to_string()).1, 4);
}

#[test]
fn calculate_length_ref_counts_bytes() {
    assert_eq!(calculate_length_ref(&"hello".to_string()), 5);
    assert_eq!(calculate_length_ref(&String::new()), 0);
    assert_eq!(calculate_length_ref(&"\u{4f60}\u{597d}".to_string()), 6);
}

#[test]
fn calculate_length_mut_ref_appends_and_counts() {
    let mut s = "hello".to_string();
    assert_eq!(calculate_length_mut_ref(&mut s), 12);
    assert_eq!(s, "hello, world");
    assert_eq!(calculate_length_mut_ref(&mut s), 19);
    assert_eq!(s, "hello, world, world");
    let mut empty = String::new();
    assert_eq!(calculate_length_mut_ref(&mut empty), 7);
    assert_eq!(empty, ", world");
}

#[test]
fn first_word_ends_at_the_first_blank() {
    assert_eq!(first_word(&"Hello world".to_string()), "Hello");
    assert_eq!(first_word(&"hello".to_string()), "hello");
    assert_eq!(first_word(&"".to_string()), "");
    assert_eq!(first_word(&" hello".to_string()), "");
    assert_eq!(first_word(&"a b c".to_string()), "a");
    assert_eq!(first_word(&"two  blanks".to_string()), "two");
    assert_eq!(first_word(&"tab\tis no blank".to_string()), "tab\tis");
    assert_eq!(first_word(&"h\u{e9}llo w\u{f6}rld".to_string()), "h\u{e9}llo");
    assert_eq!(first_word(&"\u{4f60}\u{597d} \u{4e16}\u{754c}".to_string()), "\u{4f60}\u{597d}");
    assert_eq!(first_word(&"no\u{a0}break".to_string()), "no\u{a0}break");
}

#[test]
fn first_word_agrees_with_the_first_blank_byte() {
    for text in ["Hello world", "", " ", "x", "a b", "\u{1f600} \u{1f600}", "ab\u{3000}cd ef"] {
        let s = text.to_string();
        let expected = match s.as_bytes().iter().position(|&b| b == b' ') {
            Some(i) => &s[..i],
            None => &s[..],
        };
        assert_eq!(first_word(&s), expected, "on {:?}", text);
    }
}
