use kill_timer::text::{chars_of, contains_chars, copy_text, text_less};

fn cv(s: &str) -> Vec<char> {
    s.chars().collect()
}

#[test]
fn contains_finds_inner_part() {
    assert!(contains_chars(&cv("systemd"), &cv("stem")));
    assert!(contains_chars(&cv("systemd"), &cv("")));
    assert!(contains_chars(&cv("abc"), &cv("abc")));
    assert!(!contains_chars(&cv("abc"), &cv("abcd")));
    assert!(!contains_chars(&cv("abc"), &cv("ac")));
    assert!(!contains_chars(&cv(""), &cv("a")));
}

#[test]
fn ordinal_order_of_texts() {
    assert!(text_less(&cv("A"), &cv("a")));
    assert!(text_less(&cv("ab"), &cv("abc")));
    assert!(text_less(&cv(""), &cv("a")));
    assert!(!text_less(&cv("b"), &cv("abc")));
    assert!(!text_less(&cv("same"), &cv("same")));
    assert!(text_less(&cv("z"), &cv("\u{e9}")));
}

#[test]
fn chars_and_copies_keep_the_text() {
    let v = chars_of("h\u{e9}llo");
    assert_eq!(v, vec!['h', '\u{e9}', 'l', 'l', 'o']);
    assert_eq!(copy_text(&v), v);
}
