use tunnelhunt::number::{parse_port, to_decimal};
use tunnelhunt::text::{chars_of, contains, find, is_control, is_whitespace, join, trim};
use tunnelhunt::url::extract_url;

fn url(line: &str) -> Option<String> {
    extract_url(line)
}

#[test]
fn white_space_agrees_with_unicode() {
    for u in 0..=0x10ffffu32 {
        if let Some(c) = char::from_u32(u) {
            assert_eq!(is_whitespace(c), c.is_whitespace(), "{:x}", u);
        }
    }
}

#[test]
fn control_characters_agree_with_unicode() {
    for u in 0..=0x10ffffu32 {
        if let Some(c) = char::from_u32(u) {
            assert_eq!(is_control(c), c.is_control(), "{:x}", u);
        }
    }
}

#[test]
fn chars_are_kept_in_order() {
    assert_eq!(chars_of("aбв𝄞"), vec!['a', 'б', 'в', '𝄞']);
    assert!(chars_of("").is_empty());
}

#[test]
fn find_counts_characters_from_the_left() {
    assert_eq!(find(&chars_of("абвабв"), "вa"), None);
    assert_eq!(find(&chars_of("абвабв"), "бв"), Some(1));
    assert_eq!(find(&chars_of("aaab"), "aab"), Some(1));
    assert_eq!(find(&chars_of("abc"), ""), Some(0));
    assert_eq!(find(&chars_of(""), ""), Some(0));
    assert_eq!(find(&chars_of("ab"), "abc"), None);
    assert_eq!(find(&chars_of("xxabc"), "abc"), Some(2));
}

#[test]
fn contains_agrees_with_std() {
    let texts = ["", "a", "ab", "aab", "ааб", "[Limit] x", "lifetime limit reached"];
    for text in texts.iter() {
        for pattern in texts.iter() {
            assert_eq!(contains(text, pattern), text.contains(pattern));
        }
    }
}

#[test]
fn trim_agrees_with_std() {
    let texts = [
        "", " ", "\n", "a", " a", "a ", "  a b \r\n", "\u{3000}x\u{a0}", "\u{200b}x", "\u{85}\u{85}", "т е ",
    ];
    for text in texts.iter() {
        assert_eq!(trim(text), text.trim());
    }
}

#[test]
fn join_appends() {
    assert_eq!(join("Ошибка: ", "why"), "Ошибка: why");
}

#[test]
fn decimal_agrees_with_std() {
    for n in [0u64, 1, 9, 10, 11, 99, 100, 2222, 65535, u64::MAX].iter() {
        assert_eq!(to_decimal(*n), n.to_string());
    }
}

#[test]
fn port_agrees_with_std() {
    let texts = [
        "", "+", "-", "0", "+0", "-0", "00022", "2222", "+2222", "65535", "65536", "99999999999999999999", "22 ",
        " 22", "2_2", "0x16", "++1", "1+", "٣", "+00000000000000000000065535",
    ];
    for text in texts.iter() {
        assert_eq!(parse_port(text), text.parse::<u16>().ok(), "{}", text);
    }
}

#[test]
fn port_round_trip() {
    for port in 0..=u16::MAX {
        assert_eq!(parse_port(&to_decimal(port as u64)), Some(port));
    }
}

#[test]
fn url_is_found_in_a_line() {
    assert_eq!(url("Tunnel: https://abc.tunnelhunt.ru\r\n"), Some("https://abc.tunnelhunt.ru".to_string()));
    assert_eq!(url("https://x"), Some("https://x".to_string()));
    assert_eq!(url("адрес «https://пример.рф/путь» готов"), Some("https://пример.рф/путь»".to_string()));
}

#[test]
fn url_ends_at_quotes_and_control_characters() {
    assert_eq!(url("\"https://a\"b"), Some("https://a".to_string()));
    assert_eq!(url("'https://a'b"), Some("https://a".to_string()));
    assert_eq!(url("`https://a`b"), Some("https://a".to_string()));
    assert_eq!(url("https://a\u{1b}[0m"), Some("https://a".to_string()));
    assert_eq!(url("https://a\u{a0}b"), Some("https://a".to_string()));
    assert_eq!(url("https://a<b>"), Some("https://a<b>".to_string()));
}

#[test]
fn first_url_counts() {
    assert_eq!(url("https://a https://b"), Some("https://a".to_string()));
    assert_eq!(url("https://ahttps://b"), Some("https://ahttps://b".to_string()));
}

#[test]
fn bare_scheme_is_a_url() {
    assert_eq!(url("see https:// there"), Some("https://".to_string()));
}

#[test]
fn no_scheme_no_url() {
    assert_eq!(url(""), None);
    assert_eq!(url("http://a"), None);
    assert_eq!(url("HTTPS://a"), None);
    assert_eq!(url("https:/"), None);
}

#[test]
fn url_of_a_url_is_itself() {
    let found = url("x https://a/b?c=d y").unwrap();
    assert_eq!(url(&found), Some(found.clone()));
    assert_eq!(trim(&found), found);
}
