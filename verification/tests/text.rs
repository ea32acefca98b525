use ihateborders::process::{executable_stem, find_process_name, ProcessEntry};
use ihateborders::text::{
    char_is_whitespace, is_blank, push_decimal, push_unsigned, same_text, starts_with,
    text_precedes, truncate_for_display,
};

fn decimal(v: i64) -> String {
    let mut out = String::new();
    push_decimal(&mut out, v);
    out
}

#[test]
fn decimal_rendering_matches_the_usual_one() {
    assert_eq!(decimal(0), "0");
    assert_eq!(decimal(7), "7");
    assert_eq!(decimal(10), "10");
    assert_eq!(decimal(1920), "1920");
    assert_eq!(decimal(-5), "-5");
    assert_eq!(decimal(-1080), "-1080");
    assert_eq!(decimal(i64::MAX), "9223372036854775807");
    assert_eq!(decimal(i64::MIN), "-9223372036854775808");
    for v in [1i64, 9, 11, 99, 100, 101, 65535, -65536, 2147483647, -2147483648] {
        assert_eq!(decimal(v), v.to_string());
    }
}

#[test]
fn unsigned_rendering_appends_to_what_is_there() {
    let mut out = String::from("Display ");
    push_unsigned(&mut out, 12);
    assert_eq!(out, "Display 12");
    let mut big = String::new();
    push_unsigned(&mut big, u64::MAX);
    assert_eq!(big, "18446744073709551615");
}

#[test]
fn truncation_keeps_short_text_and_marks_long_text() {
    assert_eq!(truncate_for_display("Notepad", 30), "Notepad");
    assert_eq!(truncate_for_display("", 30), "");
    let thirty = "a".repeat(30);
    assert_eq!(truncate_for_display(&thirty, 30), thirty);
    let thirty_one = "b".repeat(31);
    assert_eq!(truncate_for_display(&thirty_one, 30), format!("{}...", "b".repeat(27)));
    assert_eq!(truncate_for_display("abcdefghijklmnop", 15), "abcdefghijkl...");
    assert_eq!(truncate_for_display("abcd", 3), "...");
}

#[test]
fn truncation_counts_characters_not_bytes() {
    let title = "é".repeat(31);
    let shown = truncate_for_display(&title, 30);
    assert_eq!(shown, format!("{}...", "é".repeat(27)));
    assert_eq!(shown.chars().count(), 30);
    let fits = "日本語のウィンドウ";
    assert_eq!(truncate_for_display(fits, 15), fits);
}

#[test]
fn blank_means_nothing_but_white_space() {
    assert!(is_blank(""));
    assert!(is_blank(" "));
    assert!(is_blank(" \t\r\n"));
    assert!(is_blank("\u{00A0}\u{3000}"));
    assert!(!is_blank("a"));
    assert!(!is_blank("  x  "));
    assert!(!is_blank("\0"));
}

#[test]
fn same_text_and_prefix() {
    assert!(same_text("", ""));
    assert!(same_text("ihateborders", "ihateborders"));
    assert!(!same_text("ihateborders", "ihateborder"));
    assert!(!same_text("abc", "abd"));
    assert!(starts_with("Program Manager", "Program Manager"));
    assert!(starts_with("Program Manager 2", "Program Manager"));
    assert!(!starts_with("Program", "Program Manager"));
    assert!(!starts_with("program manager", "Program Manager"));
    assert!(starts_with("anything", ""));
    assert!(starts_with("éa", "é"));
}

#[test]
fn text_order_is_the_order_of_strings() {
    let samples = [
        "", "a", "A", "ab", "b", "B", "Notepad", "notepad", "Display 1", "Display 10", "Display 2",
        "é", "e", "z", "日本", "~", " ", "Zed", "\u{10FFFF}", "\u{FFFF}",
    ];
    for a in samples {
        for b in samples {
            assert_eq!(text_precedes(a, b), a <= b, "{:?} against {:?}", a, b);
        }
    }
}

#[test]
fn stem_drops_trailing_nuls_and_the_extension() {
    assert_eq!(executable_stem("notepad.exe"), "notepad");
    assert_eq!(executable_stem("notepad.exe\0\0\0"), "notepad");
    assert_eq!(executable_stem("archive.tar.gz"), "archive.tar");
    assert_eq!(executable_stem("System"), "System");
    assert_eq!(executable_stem("System\0\0"), "System");
    assert_eq!(executable_stem(".hidden"), "");
    assert_eq!(executable_stem("trailing."), "trailing");
    assert_eq!(executable_stem(""), "");
    assert_eq!(executable_stem("\0\0"), "");
    assert_eq!(executable_stem("a\0b.exe\0"), "a\0b");
}

#[test]
fn process_name_is_that_of_the_first_match() {
    let entries = vec![
        ProcessEntry { process_id: 4, exe_file: "System\0\0".to_string() },
        ProcessEntry { process_id: 812, exe_file: "notepad.exe\0".to_string() },
        ProcessEntry { process_id: 812, exe_file: "other.exe".to_string() },
        ProcessEntry { process_id: 90, exe_file: "My.App.exe".to_string() },
    ];
    assert_eq!(find_process_name(&entries, 812).as_deref(), Some("notepad"));
    assert_eq!(find_process_name(&entries, 4).as_deref(), Some("System"));
    assert_eq!(find_process_name(&entries, 90).as_deref(), Some("My.App"));
    assert_eq!(find_process_name(&entries, 5), None);
    assert_eq!(find_process_name(&Vec::new(), 812), None);
}

#[test]
fn white_space_is_what_the_standard_library_takes_for_it() {
    let mut count = 0;
    for code in 0..=0x10FFFFu32 {
        if let Some(c) = char::from_u32(code) {
            assert_eq!(char_is_whitespace(c), c.is_whitespace(), "U+{:04X}", code);
            if char_is_whitespace(c) {
                count += 1;
            }
        }
    }
    assert_eq!(count, 25);
    assert!(char_is_whitespace(' '));
    assert!(char_is_whitespace('\u{2028}'));
    assert!(!char_is_whitespace('\u{180E}'));
    assert!(!char_is_whitespace('\u{200B}'));
    assert!(!char_is_whitespace('N'));
}
