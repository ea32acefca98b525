use ihateborders::display::{
    enumerate_displays, name_displays, sort_displays, DisplayInfo, MonitorRect,
};
use ihateborders::icon::{
    bgra_to_rgba, bitmap_bytes, pick_icon_handle, rgba_from_readback, ICON_BYTES, ICON_SIZE,
};
use ihateborders::labels::{
    action_text, icon_cache_key, selection_text, status_text, window_count_text,
};
use ihateborders::window::{
    collect_windows, is_host_name, list_windows, resolve_process_name,
    sort_by_title, title_is_listed, RawWindow, WindowInfo,
};

const DECORATED: u32 = 0x10CF_0000;
const BARE: u32 = 0x1000_0000;

fn raw(hwnd: isize, visible: bool, title: &str, process: Option<&str>, style: u32) -> RawWindow {
    RawWindow {
        hwnd,
        visible,
        title: title.to_string(),
        process_name: process.map(|p| p.to_string()),
        style,
        icon_data: None,
    }
}

fn window(hwnd: isize, title: &str, process: &str, is_borderless: bool) -> WindowInfo {
    WindowInfo {
        hwnd,
        title: title.to_string(),
        process_name: process.to_string(),
        is_borderless,
        icon_data: None,
    }
}

fn display(name: &str, is_primary: bool) -> DisplayInfo {
    DisplayInfo { name: name.to_string(), x: 0, y: 0, width: 800, height: 600, is_primary }
}

fn titles(windows: &[WindowInfo]) -> Vec<(String, isize)> {
    windows.iter().map(|w| (w.title.clone(), w.hwnd)).collect()
}

fn names(displays: &[DisplayInfo]) -> Vec<String> {
    displays.iter().map(|d| d.name.clone()).collect()
}

#[test]
fn titles_that_are_never_listed() {
    assert!(title_is_listed("Notepad"));
    assert!(title_is_listed("  padded  "));
    assert!(!title_is_listed(""));
    assert!(!title_is_listed("   "));
    assert!(!title_is_listed("\t\n"));
    assert!(!title_is_listed("Program Manager"));
    assert!(!title_is_listed("Program Manager (2)"));
    assert!(title_is_listed("The Program Manager"));
    assert!(!title_is_listed("ihateborders"));
    assert!(title_is_listed("ihateborders settings"));
    assert!(title_is_listed("IHATEBORDERS"));
}

#[test]
fn host_process_is_recognised_in_any_letter_case() {
    for name in ["ihateborders", "IHateBorders", "IHATEBORDERS"] {
        assert!(WindowInfo::from_raw(raw(1, true, "Settings", Some(name), DECORATED)).is_none());
    }
    for name in ["ihateborders2", "notepad", ""] {
        assert!(WindowInfo::from_raw(raw(1, true, "Settings", Some(name), DECORATED)).is_some());
    }
    assert!(WindowInfo::from_raw(raw(1, true, "Settings", None, DECORATED)).is_some());
    assert!(is_host_name("ihateborders"));
    assert!(!is_host_name("IHateBorders"));
}

#[test]
fn missing_process_name_becomes_unknown() {
    assert_eq!(resolve_process_name(None), "Unknown");
    assert_eq!(resolve_process_name(Some("notepad".to_string())), "notepad");
    assert_eq!(resolve_process_name(Some(String::new())), "");
}

#[test]
fn from_raw_records_what_was_read() {
    let mut seen = raw(0x1234, true, "Untitled - Notepad", Some("notepad"), DECORATED);
    seen.icon_data = Some(vec![7u8; 1024]);
    let entry = WindowInfo::from_raw(seen).expect("listed");
    assert_eq!(entry.hwnd, 0x1234);
    assert_eq!(entry.title, "Untitled - Notepad");
    assert_eq!(entry.process_name, "notepad");
    assert!(!entry.is_borderless);
    assert_eq!(entry.icon_data, Some(vec![7u8; 1024]));
    assert!(entry.has_icon());

    let bare = WindowInfo::from_raw(raw(5, true, "Game", None, BARE)).expect("listed");
    assert_eq!(bare.process_name, "Unknown");
    assert!(bare.is_borderless);
    assert!(!bare.has_icon());
}

#[test]
fn from_raw_leaves_out_what_is_not_listed() {
    assert!(WindowInfo::from_raw(raw(1, false, "Hidden", Some("app"), DECORATED)).is_none());
    assert!(WindowInfo::from_raw(raw(2, true, "", Some("app"), DECORATED)).is_none());
    assert!(WindowInfo::from_raw(raw(3, true, "   ", Some("app"), DECORATED)).is_none());
    assert!(WindowInfo::from_raw(raw(4, true, "Program Manager", Some("explorer"), BARE)).is_none());
    assert!(WindowInfo::from_raw(raw(5, true, "ihateborders", Some("other"), DECORATED)).is_none());
    assert!(WindowInfo::from_raw(raw(6, true, "Settings", Some("IHateBorders"), DECORATED)).is_none());
    assert!(WindowInfo::from_raw(raw(7, true, "Settings", Some("notepad"), DECORATED)).is_some());
}

#[test]
fn an_icon_of_another_size_is_left_out() {
    for len in [0usize, 4, 1023, 1025, 4096] {
        let mut seen = raw(1, true, "Notepad", Some("notepad"), DECORATED);
        seen.icon_data = Some(vec![1u8; len]);
        let entry = WindowInfo::from_raw(seen).expect("listed");
        assert_eq!(entry.icon_data, None, "length {}", len);
        assert!(!entry.has_icon());
    }
    let mut seen = raw(1, true, "Notepad", Some("notepad"), DECORATED);
    seen.icon_data = Some(vec![1u8; 1024]);
    assert_eq!(WindowInfo::from_raw(seen).expect("listed").icon_data, Some(vec![1u8; 1024]));
}

#[test]
fn the_lowered_name_decides_whether_the_owner_is_the_host() {
    let notepad = raw(1, true, "Notepad", Some("Notepad"), DECORATED);
    let entry = WindowInfo::from_raw_lowered(notepad, "notepad").expect("listed");
    assert_eq!(entry.process_name, "Notepad");
    assert_eq!(entry.title, "Notepad");
    let own = raw(2, true, "Settings", Some("IHateBorders"), DECORATED);
    assert!(WindowInfo::from_raw_lowered(own, "ihateborders").is_none());
    let hidden = raw(3, false, "Notepad", Some("notepad"), DECORATED);
    assert!(WindowInfo::from_raw_lowered(hidden, "notepad").is_none());
    let blank = raw(4, true, " \t", Some("notepad"), DECORATED);
    assert!(WindowInfo::from_raw_lowered(blank, "notepad").is_none());
    let unknown = raw(5, true, "Game", None, BARE);
    assert_eq!(WindowInfo::from_raw_lowered(unknown, "unknown").expect("listed").process_name, "Unknown");
}

#[test]
fn has_icon_wants_the_full_bitmap() {
    let mut w = window(1, "a", "b", false);
    w.icon_data = Some(vec![0u8; 1023]);
    assert!(!w.has_icon());
    w.icon_data = Some(vec![0u8; ICON_BYTES]);
    assert!(w.has_icon());
}

#[test]
fn window_label_shortens_title_and_process() {
    assert_eq!(window(1, "Notepad", "notepad", false).display_text(), "Notepad (notepad)");
    assert_eq!(window(1, "", "", false).display_text(), " ()");
    let long_title = "0123456789012345678901234567890123";
    let long_process = "averyveryverylongprocess";
    assert_eq!(
        window(1, long_title, long_process, true).display_text(),
        "012345678901234567890123456... (averyveryver...)"
    );
    let edge_title = "012345678901234567890123456789";
    let edge_process = "012345678901234";
    assert_eq!(
        window(1, edge_title, edge_process, true).display_text(),
        "012345678901234567890123456789 (012345678901234)"
    );
}

#[test]
fn list_windows_keeps_the_order_of_discovery() {
    let raws = vec![
        raw(1, true, "zeta", Some("z"), DECORATED),
        raw(2, false, "hidden", Some("h"), DECORATED),
        raw(3, true, "alpha", Some("a"), BARE),
        raw(4, true, "Program Manager", Some("explorer"), BARE),
        raw(5, true, "mid", None, DECORATED),
    ];
    let listed = list_windows(raws);
    assert_eq!(
        titles(&listed),
        vec![("zeta".to_string(), 1), ("alpha".to_string(), 3), ("mid".to_string(), 5)]
    );
    assert!(list_windows(Vec::new()).is_empty());
}

#[test]
fn collect_windows_sorts_by_title_in_code_point_order() {
    let raws = vec![
        raw(1, true, "zeta", Some("z"), DECORATED),
        raw(2, true, "Zeta", Some("z"), DECORATED),
        raw(3, true, "alpha", Some("a"), BARE),
        raw(4, true, "ihateborders", Some("x"), BARE),
        raw(5, true, "Ärger", None, DECORATED),
        raw(6, true, "alpha 2", None, DECORATED),
    ];
    let windows = collect_windows(raws);
    assert_eq!(
        titles(&windows),
        vec![
            ("Zeta".to_string(), 2),
            ("alpha".to_string(), 3),
            ("alpha 2".to_string(), 6),
            ("zeta".to_string(), 1),
            ("Ärger".to_string(), 5),
        ]
    );
}

#[test]
fn sort_by_title_keeps_ties_in_order() {
    let windows = vec![
        window(10, "same", "p1", false),
        window(11, "other", "p2", false),
        window(12, "same", "p3", true),
        window(13, "another", "p4", false),
        window(14, "same", "p5", false),
    ];
    let sorted = sort_by_title(windows);
    assert_eq!(
        titles(&sorted),
        vec![
            ("another".to_string(), 13),
            ("other".to_string(), 11),
            ("same".to_string(), 10),
            ("same".to_string(), 12),
            ("same".to_string(), 14),
        ]
    );
    assert!(sort_by_title(Vec::new()).is_empty());
}

#[test]
fn sort_by_title_agrees_with_the_standard_stable_sort() {
    let mut expected: Vec<WindowInfo> = Vec::new();
    let words = ["delta", "Alpha", "charlie", "bravo", "alpha", "", "Bravo", "delta", "echo", "a"];
    for (i, word) in words.iter().enumerate() {
        expected.push(window(i as isize, word, "p", false));
    }
    let sorted = sort_by_title(expected.clone());
    expected.sort_by(|a, b| a.title.cmp(&b.title));
    assert_eq!(titles(&sorted), titles(&expected));
}

#[test]
fn monitor_becomes_a_named_display() {
    let rect = MonitorRect { left: -1920, top: 0, right: 0, bottom: 1080, flags: 0 };
    assert!(rect.has_extents());
    let d = DisplayInfo::from_monitor(rect, 2);
    assert_eq!(d.name, "Display 2");
    assert_eq!((d.x, d.y, d.width, d.height), (-1920, 0, 1920, 1080));
    assert!(!d.is_primary);
    let primary = MonitorRect { left: 0, top: 0, right: 2560, bottom: 1440, flags: 1 };
    let p = DisplayInfo::from_monitor(primary, 1);
    assert_eq!(p.name, "Display 1");
    assert!(p.is_primary);
    let odd_flags = MonitorRect { left: 0, top: 0, right: 1, bottom: 1, flags: 3 };
    assert!(!DisplayInfo::from_monitor(odd_flags, 11).is_primary);
}

#[test]
fn extents_that_do_not_fit_are_reported() {
    let wide = MonitorRect { left: i32::MIN, top: 0, right: 1, bottom: 1, flags: 0 };
    assert!(!wide.has_extents());
    let tall = MonitorRect { left: 0, top: 1, right: 1, bottom: i32::MIN, flags: 0 };
    assert!(!tall.has_extents());
    let edge = MonitorRect { left: 0, top: -1, right: i32::MAX, bottom: i32::MAX - 1, flags: 0 };
    assert!(edge.has_extents());
}

#[test]
fn display_label_gives_name_size_and_primary_mark() {
    let mut d = DisplayInfo {
        name: "Display 1".to_string(),
        x: 0,
        y: 0,
        width: 1920,
        height: 1080,
        is_primary: true,
    };
    assert_eq!(d.display_text(), "Display 1 - 1920x1080 (Primary)");
    d.is_primary = false;
    d.name = "Display 2".to_string();
    d.width = 0;
    d.height = -1;
    assert_eq!(d.display_text(), "Display 2 - 0x-1");
}

#[test]
fn primary_display_sorts_first_in_every_order() {
    let base = ["Display 1", "Display 2", "Display 3", "Display 4"];
    for primary in 0..4 {
        for rotation in 0..4 {
            let mut displays: Vec<DisplayInfo> = Vec::new();
            for k in 0..4 {
                let i = (k + rotation) % 4;
                displays.push(display(base[i], i == primary));
            }
            let sorted = sort_displays(displays);
            assert_eq!(sorted.len(), 4);
            assert!(sorted[0].is_primary);
            assert_eq!(sorted[0].name, base[primary]);
            let rest: Vec<String> = names(&sorted[1..]);
            let mut expected: Vec<String> =
                base.iter().filter(|n| **n != base[primary]).map(|n| n.to_string()).collect();
            expected.sort();
            assert_eq!(rest, expected);
        }
    }
}

#[test]
fn displays_without_primary_sort_by_name_as_text() {
    let displays = vec![display("Display 2", false), display("Display 10", false), display("Display 1", false)];
    assert_eq!(names(&sort_displays(displays)), vec!["Display 1", "Display 10", "Display 2"]);
    assert!(sort_displays(Vec::new()).is_empty());
}

#[test]
fn enumerate_displays_names_by_discovery_then_sorts() {
    let rects = vec![
        MonitorRect { left: 1920, top: 0, right: 3840, bottom: 1080, flags: 0 },
        MonitorRect { left: -1280, top: 0, right: 0, bottom: 1024, flags: 0 },
        MonitorRect { left: 0, top: 0, right: 1920, bottom: 1080, flags: 1 },
    ];
    let named = name_displays(&rects);
    assert_eq!(names(&named), vec!["Display 1", "Display 2", "Display 3"]);
    let displays = enumerate_displays(&rects);
    assert_eq!(names(&displays), vec!["Display 3", "Display 1", "Display 2"]);
    assert!(displays[0].is_primary);
    assert_eq!((displays[1].x, displays[1].width), (1920, 1920));
    assert_eq!((displays[2].x, displays[2].width, displays[2].height), (-1280, 1280, 1024));
    assert!(enumerate_displays(&Vec::new()).is_empty());
}

#[test]
fn icon_handle_falls_back_to_the_class() {
    assert_eq!(pick_icon_handle(0x10, 0x20), Some(0x10));
    assert_eq!(pick_icon_handle(0, 0x20), Some(0x20));
    assert_eq!(pick_icon_handle(-1, 0), Some(-1));
    assert_eq!(pick_icon_handle(0, 0), None);
}

#[test]
fn icon_bitmap_is_sixteen_by_sixteen() {
    assert_eq!(ICON_SIZE, 16);
    assert_eq!(bitmap_bytes(ICON_SIZE), ICON_BYTES);
    assert_eq!(bitmap_bytes(16), 1024);
    assert_eq!(bitmap_bytes(0), 0);
    assert_eq!(bitmap_bytes(1), 4);
}

#[test]
fn channel_swap_exchanges_blue_and_red() {
    let mut one = vec![1u8, 2, 3, 4];
    bgra_to_rgba(&mut one);
    assert_eq!(one, vec![3, 2, 1, 4]);
    let mut two = vec![10u8, 20, 30, 40, 50, 60, 70, 80];
    bgra_to_rgba(&mut two);
    assert_eq!(two, vec![30, 20, 10, 40, 70, 60, 50, 80]);
    let mut empty: Vec<u8> = Vec::new();
    bgra_to_rgba(&mut empty);
    assert!(empty.is_empty());
}

#[test]
fn channel_swap_leaves_an_incomplete_pixel() {
    let mut data = vec![1u8, 2, 3, 4, 5, 6, 7];
    bgra_to_rgba(&mut data);
    assert_eq!(data, vec![3, 2, 1, 4, 5, 6, 7]);
    let mut short = vec![1u8, 2, 3];
    bgra_to_rgba(&mut short);
    assert_eq!(short, vec![1, 2, 3]);
}

#[test]
fn channel_swap_twice_gives_the_bytes_back() {
    let pixels: Vec<u8> = (0..=255u8).collect();
    let mut data = pixels.clone();
    bgra_to_rgba(&mut data);
    assert_ne!(data, pixels);
    bgra_to_rgba(&mut data);
    assert_eq!(data, pixels);
}

#[test]
fn readback_without_scan_lines_gives_no_icon() {
    assert_eq!(rgba_from_readback(0, vec![1, 2, 3, 4]), None);
    assert_eq!(rgba_from_readback(16, vec![1, 2, 3, 4]), Some(vec![3, 2, 1, 4]));
    assert_eq!(rgba_from_readback(-1, vec![9, 8, 7, 6]), Some(vec![7, 8, 9, 6]));
}

#[test]
fn counter_text_has_a_singular() {
    assert_eq!(window_count_text(0), "0 windows found");
    assert_eq!(window_count_text(1), "1 window found");
    assert_eq!(window_count_text(2), "2 windows found");
    assert_eq!(window_count_text(117), "117 windows found");
}

#[test]
fn cache_key_is_made_of_the_handle() {
    assert_eq!(icon_cache_key(0), "icon_0");
    assert_eq!(icon_cache_key(66052), "icon_66052");
    assert_eq!(icon_cache_key(-3), "icon_-3");
}

#[test]
fn selector_and_button_texts_follow_the_selection() {
    let windows = vec![window(1, "Notepad", "notepad", false), window(2, "Game", "game", true)];
    assert_eq!(selection_text(&windows, None), "Select a window...");
    assert_eq!(selection_text(&windows, Some(0)), "Notepad (notepad)");
    assert_eq!(selection_text(&windows, Some(1)), "Game (game)");
    assert_eq!(selection_text(&windows, Some(2)), "Select a window...");
    assert_eq!(action_text(&windows, None), "Make Borderless");
    assert_eq!(action_text(&windows, Some(0)), "Make Borderless");
    assert_eq!(action_text(&windows, Some(1)), "Restore Borders");
    assert_eq!(action_text(&windows, Some(9)), "Make Borderless");
    assert_eq!(status_text(true), "[B]");
    assert_eq!(status_text(false), "[W]");
}
