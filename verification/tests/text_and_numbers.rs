use task_manager::number::decimal_signed_text;
use task_manager::number::decimal_text;
use task_manager::number::parse_unsigned_text;
use task_manager::number::two_digits_text;
use task_manager::number::zero_padded_text;
use task_manager::text::byte_len;
use task_manager::text::can_cut_at;
use task_manager::text::is_space_char;
use task_manager::text::join_texts;
use task_manager::text::lines_of;
use task_manager::text::replace_all_text;
use task_manager::text::same_text;
use task_manager::text::split_text;
use task_manager::text::text_after_bytes;
use task_manager::text::text_before_bytes;
use task_manager::text::text_behind;
use task_manager::text::text_contains;
use task_manager::text::text_starts_with;
use task_manager::text::text_starts_with_folded;
use task_manager::text::trim_end_of_text;
use task_manager::text::trim_end_text;
use task_manager::text::trim_start_text;
use task_manager::text::trim_text;

const SAMPLES: [&str; 14] = [
    "",
    " ",
    "a",
    "  a b\t\n",
    "\u{a0}x\u{3000}",
    "a\r\nb\n\nc\r",
    "\n",
    "one,two,,three,",
    "event: message\ndata: {}",
    "äöü ß",
    "aaaa",
    "///",
    "https://ntfy.sh//",
    "\r\r\n\r\n",
];

#[test]
fn blanks_are_the_blanks_of_unicode() {
    let mut code: u32 = 0;
    while code <= 0x10ffff {
        if let Some(c) = char::from_u32(code) {
            assert_eq!(is_space_char(c), c.is_whitespace(), "{:x}", code);
        }
        code += 1;
    }
}

#[test]
fn trimming_agrees_with_the_standard_library() {
    for s in SAMPLES {
        assert_eq!(trim_text(s), s.trim());
        assert_eq!(trim_start_text(s), s.trim_start());
        assert_eq!(trim_end_text(s), s.trim_end());
        assert_eq!(trim_end_of_text(s, '/'), s.trim_end_matches('/'));
    }
    assert_eq!(trim_end_of_text("https://ntfy.sh//", '/'), "https://ntfy.sh");
}

#[test]
fn lines_agree_with_the_standard_library() {
    for s in SAMPLES {
        let expected: Vec<String> = s.lines().map(|l| l.to_string()).collect();
        assert_eq!(lines_of(s), expected);
    }
    assert_eq!(lines_of("a\r\nb\n\nc\r"), vec!["a", "b", "", "c\r"]);
}

#[test]
fn splitting_agrees_with_the_standard_library() {
    for s in SAMPLES {
        let expected: Vec<String> = s.split(',').map(|l| l.to_string()).collect();
        assert_eq!(split_text(s, ','), expected);
    }
    assert_eq!(split_text("one,two,,three,", ','), vec!["one", "two", "", "three", ""]);
}

#[test]
fn joining_puts_the_separator_between() {
    let none: Vec<String> = Vec::new();
    assert_eq!(join_texts(&none, ", "), "");
    assert_eq!(join_texts(&vec!["a".to_string()], ", "), "a");
    assert_eq!(join_texts(&vec!["a".to_string(), "".to_string(), "b".to_string()], ", "), "a, , b");
}

#[test]
fn replacing_agrees_with_the_standard_library() {
    for s in SAMPLES {
        for p in ["a", "aa", "e", "\n", "ö", "data: "] {
            for w in ["", "aa", "ä"] {
                assert_eq!(replace_all_text(s, p, w), s.replace(p, w));
            }
        }
    }
}

#[test]
fn searching_agrees_with_the_standard_library() {
    for s in SAMPLES {
        for p in ["", "a", "aa", "event: ", "ü", "zz"] {
            assert_eq!(text_contains(s, p), s.contains(p));
            assert_eq!(text_starts_with(s, p), s.starts_with(p));
            assert_eq!(same_text(s, p), s == p);
        }
    }
}

#[test]
fn folded_prefixes_are_those_of_the_lower_case() {
    for line in ["From: a", "FROM:a", "fRoM:", "from a", "Subject: x", "sUBJECT:", "froM", "ſubject:"] {
        let lower = line.to_lowercase();
        assert_eq!(text_starts_with_folded(line, "from:"), lower.starts_with("from:"), "{}", line);
        assert_eq!(
            text_starts_with_folded(line, "subject:"),
            lower.starts_with("subject:"),
            "{}",
            line
        );
    }
}

#[test]
fn only_ascii_letters_fold_into_header_names() {
    let mut code: u32 = 0;
    while code <= 0x10ffff {
        if let Some(c) = char::from_u32(code) {
            let lower: String = c.to_lowercase().collect();
            for l in "from:subject".chars() {
                if lower.starts_with(l) {
                    assert!(c.is_ascii(), "{:x}", code);
                    assert_eq!(lower.chars().count(), 1);
                }
            }
        }
        code += 1;
    }
}

#[test]
fn cutting_by_bytes_respects_characters() {
    let s = "aöb";
    assert_eq!(byte_len(s), 4);
    assert!(can_cut_at(s, 0));
    assert!(can_cut_at(s, 1));
    assert!(!can_cut_at(s, 2));
    assert!(can_cut_at(s, 3));
    assert!(can_cut_at(s, 4));
    assert!(!can_cut_at(s, 5));
    assert_eq!(text_after_bytes(s, 3), "b");
    assert_eq!(text_before_bytes(s, 3), "aö");
    assert_eq!(text_behind(s, 2), "b");
}

#[test]
fn numbers_are_written_in_decimal() {
    assert_eq!(decimal_text(0), "0");
    assert_eq!(decimal_text(907), "907");
    assert_eq!(decimal_text(u64::MAX), "18446744073709551615");
    assert_eq!(decimal_signed_text(-2), "-2");
    assert_eq!(decimal_signed_text(15), "15");
    assert_eq!(two_digits_text(5), "05");
    assert_eq!(two_digits_text(123), "123");
    assert_eq!(zero_padded_text("-5".to_string(), 4), "00-5");
}

#[test]
fn numbers_are_read_like_the_standard_library_reads_them() {
    for s in [
        "", "0", "7", "+7", "++7", "-0", "-1", "007", "65535", "65536", "99999999999999999999", " 1", "1 ",
        "1a", "+", "4294967295", "4294967296", "١",
    ] {
        assert_eq!(parse_unsigned_text(s, 65535), s.parse::<u16>().ok().map(|n| n as u64), "{}", s);
        assert_eq!(
            parse_unsigned_text(s, 4294967295),
            s.parse::<u32>().ok().map(|n| n as u64),
            "{}",
            s
        );
    }
}

#[test]
fn numbers_read_back_from_their_digits() {
    for n in [0u64, 1, 9, 10, 99, 100, 4294967295] {
        assert_eq!(parse_unsigned_text(&decimal_text(n), 4294967295), Some(n));
    }
}
