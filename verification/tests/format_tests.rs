use rmon::app::SortKey;
use rmon::format::{format_speed, format_uptime, human_bytes, truncate};
use rmon::layout::Rect;
use rmon::ui::{confirm_rect, core_bars_per_line, disk_bar_len, inner_area, middle_row_height, table_title};

#[test]
fn human_bytes_scales_units() {
    assert_eq!(human_bytes(0), "0.0 B");
    assert_eq!(human_bytes(1023), "1023.0 B");
    assert_eq!(human_bytes(1024), "1.0 KB");
    assert_eq!(human_bytes(3 * 1024 * 1024), "3.0 MB");
    assert_eq!(human_bytes(2 * 1024 * 1024 * 1024), "2.0 GB");
}

#[test]
fn uptime_formats_units() {
    assert_eq!(format_uptime(45), "0m");
    assert_eq!(format_uptime(3600), "1h 0m");
    assert_eq!(format_uptime(86400), "1d 0h 0m");
    assert_eq!(format_uptime(90061), "1d 1h 1m");
}

#[test]
fn human_bytes_rounds_half_to_even() {
    assert_eq!(human_bytes(1280), "1.2 KB");
    assert_eq!(human_bytes(1792), "1.8 KB");
    assert_eq!(human_bytes(1536), "1.5 KB");
    assert_eq!(human_bytes(1024 * 1024 - 1), "1024.0 KB");
    assert_eq!(human_bytes(5 * 1024 * 1024 * 1024 * 1024), "5.0 TB");
    assert_eq!(human_bytes(u64::MAX), "16777216.0 TB");
    assert_eq!(format_speed(2048), "2.0 KB/s");
}

#[test]
fn truncate_marks_cuts() {
    assert_eq!(truncate("abcdef", 4), "abc…");
    assert_eq!(truncate("abcd", 4), "abcd");
    assert_eq!(truncate("héllo", 2), "h…");
    assert_eq!(truncate("abc", 0), "…");
}

#[test]
fn layout_helpers() {
    let r = Rect { x: 2, y: 3, width: 10, height: 1 };
    assert_eq!(inner_area(r), Rect { x: 3, y: 4, width: 8, height: 0 });
    assert_eq!(middle_row_height(0, 100), 6);
    assert_eq!(middle_row_height(2, 100), 8);
    assert_eq!(middle_row_height(9, 100), 10);
    assert_eq!(middle_row_height(9, 20), 6);
    assert_eq!(core_bars_per_line(0), 1);
    assert_eq!(core_bars_per_line(74), 3);
    assert_eq!(disk_bar_len(80, "sda", "/", "SSD", "ext4"), 40);
    assert_eq!(disk_bar_len(40, "sda", "/", "SSD", "ext4"), 13);
    assert_eq!(disk_bar_len(10, "sda", "/", "SSD", "ext4"), 4);
    assert_eq!(confirm_rect(Rect { x: 0, y: 0, width: 100, height: 30 }), Rect { x: 22, y: 11, width: 56, height: 8 });
    assert_eq!(confirm_rect(Rect { x: 1, y: 1, width: 20, height: 4 }), Rect { x: 1, y: 1, width: 20, height: 8 });
    assert_eq!(table_title(SortKey::Cpu, true), " Processes  ·  sorted by CPU ↓");
    assert_eq!(table_title(SortKey::Name, false), " Processes  ·  sorted by NAME ↑");
}
