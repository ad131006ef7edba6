use roxo::format_file_size;
use roxo::pad_right;
use roxo::parse_u16;
use roxo::render_header;
use roxo::render_row;
use roxo::separator_line;
use roxo::styled_name;
use roxo::u64_to_string;
use roxo::FileInfo;
use roxo::FileInfoType;

fn entry(name: &str, kind: FileInfoType, size: u64, time: i64) -> FileInfo {
    FileInfo { name: String::from(name), modified_time: time, file_type: kind, size }
}

#[test]
fn sizes_below_one_kilobyte_show_raw_byte_count() {
    assert_eq!(format_file_size(0), "0b");
    assert_eq!(format_file_size(1), "1b");
    assert_eq!(format_file_size(512), "512b");
    assert_eq!(format_file_size(1023), "1023b");
}

#[test]
fn exactly_scaled_sizes_drop_the_decimals() {
    assert_eq!(format_file_size(1024), "1kB");
    assert_eq!(format_file_size(2048), "2kB");
    assert_eq!(format_file_size(1048576), "1MB");
    assert_eq!(format_file_size(1073741824), "1GB");
}

#[test]
fn small_scaled_sizes_keep_one_decimal() {
    assert_eq!(format_file_size(1536), "1.5kB");
    assert_eq!(format_file_size(1025), "1.0kB");
    assert_eq!(format_file_size(1126), "1.1kB");
    assert_eq!(format_file_size(5 * 1024 * 1024 + 512 * 1024), "5.5MB");
}

#[test]
fn scaled_sizes_of_ten_or_more_round_to_whole_units() {
    assert_eq!(format_file_size(10 * 1024), "10kB");
    assert_eq!(format_file_size(10 * 1024 + 700), "11kB");
    assert_eq!(format_file_size(500 * 1024 * 1024), "500MB");
}

#[test]
fn rounding_can_carry_into_the_next_whole_value() {
    assert_eq!(format_file_size(10239), "10.0kB");
}

#[test]
fn huge_sizes_use_the_large_units() {
    assert_eq!(format_file_size(1u64 << 40), "1TB");
    assert_eq!(format_file_size(1u64 << 50), "1PB");
    assert_eq!(format_file_size(1u64 << 60), "1EB");
    assert_eq!(format_file_size(u64::MAX), "16EB");
}

#[test]
fn decimal_rendering_matches_standard_formatting() {
    assert_eq!(u64_to_string(0), "0");
    assert_eq!(u64_to_string(7), "7");
    assert_eq!(u64_to_string(1234567890), "1234567890");
    assert_eq!(u64_to_string(u64::MAX), format!("{}", u64::MAX));
}

#[test]
fn padding_left_aligns_into_the_column() {
    assert_eq!(pad_right("abc", 6), "abc   ");
    assert_eq!(pad_right("abcdef", 6), "abcdef");
    assert_eq!(pad_right("abcdefgh", 6), "abcdefgh");
    assert_eq!(pad_right("", 3), "   ");
}

#[test]
fn styled_names_match_the_ansi_layout() {
    let d = entry("docs", FileInfoType::Directory, 0, 0);
    assert_eq!(styled_name(&d, false), format!("\x1b[1;34m\u{e613} {}\x1b[0m", "docs"));
    assert_eq!(styled_name(&d, true), format!("\x1b[1;34m{}\x1b[0m", "docs"));
    let f = entry("notes.txt", FileInfoType::File, 0, 0);
    assert_eq!(styled_name(&f, false), format!("\x1b[4;31m\u{f15c} {}\x1b[0m", "notes.txt"));
    assert_eq!(styled_name(&f, true), format!("\x1b[4;31m{}\x1b[0m", "notes.txt"));
    let s = entry("link", FileInfoType::Symlink, 0, 0);
    assert_eq!(styled_name(&s, false), "link");
}

#[test]
fn rows_lay_the_three_columns_out_fixed_width() {
    let f = entry("abc", FileInfoType::File, 10, 0);
    let row = render_row(&f, false, "2024-01-01 00:00:00");
    let expected = format!(
        "{:<20} {:<10} {:<25}",
        "2024-01-01 00:00:00",
        "10b",
        format!("\x1b[4;31m\u{f15c} {}\x1b[0m", "abc"),
    );
    assert_eq!(row, expected);
}

#[test]
fn header_matches_the_bold_column_titles() {
    let expected = format!(
        "\x1b[1m{:<20}\x1b[0m \x1b[1m{:<10}\x1b[0m \x1b[1m{:<14}\x1b[0m",
        "Last Modified", "Size", "Name",
    );
    assert_eq!(render_header(), expected);
}

#[test]
fn separator_is_a_line_of_dashes() {
    let sep = separator_line();
    assert_eq!(sep.len(), 52);
    assert!(sep.chars().all(|c| c == '-'));
}

#[test]
fn dimension_parsing_accepts_plain_decimal_digits() {
    assert_eq!(parse_u16("80"), Some(80));
    assert_eq!(parse_u16("0"), Some(0));
    assert_eq!(parse_u16("65535"), Some(65535));
}

#[test]
fn dimension_parsing_rejects_everything_else() {
    assert_eq!(parse_u16(""), None);
    assert_eq!(parse_u16("65536"), None);
    assert_eq!(parse_u16("12a"), None);
    assert_eq!(parse_u16("-3"), None);
    assert_eq!(parse_u16(" 80"), None);
    assert_eq!(parse_u16("999999999999"), None);
}
