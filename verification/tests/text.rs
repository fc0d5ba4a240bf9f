use toaster::text::{find_first, split_first, to_chars};

fn parts(text: &str, delimiter: &str) -> Option<(String, String)> {
    split_first(text, delimiter)
}

#[test]
fn string_split() {
    let (head, tail) = split_first("Hello,", ",").unwrap();
    let arr: Vec<&str> = vec![head.as_str(), tail.as_str()];
    assert_eq!(arr, vec!["Hello", ""]);
    let (head, tail) = split_first("Hello, there, world!", ",").unwrap();
    let arr: Vec<&str> = vec![head.as_str(), tail.as_str()];
    assert_eq!(arr, vec!["Hello", " there, world!"]);
}

#[test]
fn split_first_without_the_delimiter_is_none() {
    assert_eq!(parts("Hello", ","), None);
    assert_eq!(parts("", ","), None);
    assert_eq!(parts("a\rb\nc", "\r\n"), None);
    assert_eq!(parts("\r", "\r\n"), None);
}

#[test]
fn split_first_takes_the_leftmost_delimiter() {
    assert_eq!(parts("a\r\nb\r\nc", "\r\n"), Some(("a".to_string(), "b\r\nc".to_string())));
    assert_eq!(parts("\r\n", "\r\n"), Some((String::new(), String::new())));
    assert_eq!(parts("\r\r\n", "\r\n"), Some(("\r".to_string(), String::new())));
    assert_eq!(parts("aaa", "aa"), Some((String::new(), "a".to_string())));
    assert_eq!(parts("xaay", "aa"), Some(("x".to_string(), "y".to_string())));
}

#[test]
fn split_first_with_an_empty_delimiter_splits_at_the_start() {
    assert_eq!(parts("abc", ""), Some((String::new(), "abc".to_string())));
    assert_eq!(parts("", ""), Some((String::new(), String::new())));
}

#[test]
fn split_first_agrees_with_splitn() {
    let texts = ["", ",", "a,b", ",a", "a,", "a,,b", "no comma", "\u{e9},\u{fc},\u{df}", "\u{fffd},x"];
    for text in texts {
        let mut expected = text.splitn(2, ",");
        let head = expected.next().unwrap();
        match expected.next() {
            Some(tail) => {
                assert_eq!(parts(text, ","), Some((head.to_string(), tail.to_string())))
            }
            None => assert_eq!(parts(text, ","), None),
        }
    }
}

#[test]
fn split_first_counts_characters_not_bytes() {
    assert_eq!(parts("h\u{e9}llo\u{2192}w\u{f6}rld", "\u{2192}"), Some(("h\u{e9}llo".to_string(), "w\u{f6}rld".to_string())));
    assert_eq!(parts("\u{20ac}\u{20ac};\u{20ac}", ";"), Some(("\u{20ac}\u{20ac}".to_string(), "\u{20ac}".to_string())));
}

#[test]
fn find_first_gives_the_leftmost_position() {
    let text = to_chars("abcabc");
    assert_eq!(find_first(&text, &to_chars("bc")), Some(1));
    assert_eq!(find_first(&text, &to_chars("abc")), Some(0));
    assert_eq!(find_first(&text, &to_chars("c")), Some(2));
    assert_eq!(find_first(&text, &to_chars("abcabc")), Some(0));
    assert_eq!(find_first(&text, &to_chars("")), Some(0));
    assert_eq!(find_first(&text, &to_chars("cb")), None);
    assert_eq!(find_first(&text, &to_chars("abcabca")), None);
    assert_eq!(find_first(&to_chars(""), &to_chars("a")), None);
    assert_eq!(find_first(&to_chars(""), &to_chars("")), Some(0));
}

#[test]
fn to_chars_gives_each_character() {
    assert_eq!(to_chars(""), Vec::<char>::new());
    assert_eq!(to_chars("a\u{20ac}b"), vec!['a', '\u{20ac}', 'b']);
    assert_eq!(to_chars("\r\n"), vec!['\r', '\n']);
}
