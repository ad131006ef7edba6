use roxo::classify;
use roxo::filter_hidden;
use roxo::get_flags;
use roxo::node_size;
use roxo::parse_args;
use roxo::prepare_listing;
use roxo::sort_entries;
use roxo::sort_mode;
use roxo::starts_with_dot;
use roxo::str_eq;
use roxo::FileInfo;
use roxo::FileInfoType;
use roxo::FsNode;
use roxo::SortMode;

fn entry(name: &str, kind: FileInfoType, size: u64, time: i64) -> FileInfo {
    FileInfo { name: String::from(name), modified_time: time, file_type: kind, size }
}

#[test]
fn directory_size_sums_files_transitively() {
    let tree = FsNode::Dir {
        children: vec![
            FsNode::File { len: 10 },
            FsNode::Dir {
                children: vec![
                    FsNode::File { len: 20 },
                    FsNode::Dir { children: vec![FsNode::File { len: 7 }] },
                ],
            },
            FsNode::Other,
            FsNode::File { len: 5 },
        ],
    };
    assert_eq!(node_size(&tree), 42);
}

#[test]
fn empty_directory_has_size_zero() {
    let tree = FsNode::Dir { children: vec![] };
    assert_eq!(node_size(&tree), 0);
}

#[test]
fn symlinks_and_unreadable_entries_contribute_nothing() {
    let tree = FsNode::Dir { children: vec![FsNode::Other, FsNode::Other] };
    assert_eq!(node_size(&tree), 0);
}

#[test]
fn oversized_directory_clamps_at_ceiling() {
    let tree = FsNode::Dir {
        children: vec![FsNode::File { len: u64::MAX }, FsNode::File { len: 5 }],
    };
    assert_eq!(node_size(&tree), u64::MAX);
}

#[test]
fn size_sort_is_non_increasing_and_stable() {
    let mut v = vec![
        entry("a", FileInfoType::File, 5, 1),
        entry("b", FileInfoType::File, 30, 2),
        entry("c", FileInfoType::Directory, 5, 3),
        entry("d", FileInfoType::File, 30, 4),
    ];
    sort_entries(SortMode::Size, &mut v);
    let sizes: Vec<u64> = v.iter().map(|e| e.size).collect();
    assert_eq!(sizes, vec![30, 30, 5, 5]);
    let names: Vec<&str> = v.iter().map(|e| e.name.as_str()).collect();
    assert_eq!(names, vec!["b", "d", "a", "c"]);
    for w in v.windows(2) {
        assert!(w[0].size >= w[1].size);
    }
}

#[test]
fn time_sort_is_non_decreasing_and_stable() {
    let mut v = vec![
        entry("late", FileInfoType::File, 1, 50),
        entry("early", FileInfoType::File, 2, -10),
        entry("tie_one", FileInfoType::Directory, 3, 7),
        entry("tie_two", FileInfoType::File, 4, 7),
    ];
    sort_entries(SortMode::Time, &mut v);
    let names: Vec<&str> = v.iter().map(|e| e.name.as_str()).collect();
    assert_eq!(names, vec!["early", "tie_one", "tie_two", "late"]);
    for w in v.windows(2) {
        assert!(w[0].modified_time <= w[1].modified_time);
    }
}

#[test]
fn default_sort_puts_directories_first_and_keeps_group_order() {
    let mut v = vec![
        entry("f1", FileInfoType::File, 1, 1),
        entry("d1", FileInfoType::Directory, 2, 2),
        entry("s1", FileInfoType::Symlink, 3, 3),
        entry("d2", FileInfoType::Directory, 4, 4),
        entry("f2", FileInfoType::File, 5, 5),
    ];
    sort_entries(SortMode::Default, &mut v);
    let names: Vec<&str> = v.iter().map(|e| e.name.as_str()).collect();
    assert_eq!(names, vec!["d1", "d2", "f1", "s1", "f2"]);
}

#[test]
fn hidden_filter_drops_dot_names() {
    let v = vec![
        entry(".secret", FileInfoType::File, 1, 1),
        entry("plain", FileInfoType::File, 2, 2),
        entry(".config", FileInfoType::Directory, 3, 3),
    ];
    let kept = filter_hidden(v, false);
    let names: Vec<&str> = kept.iter().map(|e| e.name.as_str()).collect();
    assert_eq!(names, vec!["plain"]);
}

#[test]
fn hidden_filter_keeps_everything_when_asked() {
    let v = vec![
        entry(".secret", FileInfoType::File, 1, 1),
        entry("plain", FileInfoType::File, 2, 2),
    ];
    let kept = filter_hidden(v, true);
    let names: Vec<&str> = kept.iter().map(|e| e.name.as_str()).collect();
    assert_eq!(names, vec![".secret", "plain"]);
}

#[test]
fn conflicting_sort_flags_yield_no_mode() {
    let args = vec![
        String::from("roxo"),
        String::from("-s"),
        String::from("-t"),
    ];
    let (config, unrecognized) = parse_args(&args);
    assert!(config.sort_by_size);
    assert!(config.sort_by_time);
    assert!(unrecognized.is_empty());
    assert_eq!(sort_mode(&config), None);
}

#[test]
fn sort_mode_follows_precedence() {
    let args = vec![String::from("roxo"), String::from("--size")];
    let (config, _) = parse_args(&args);
    assert_eq!(sort_mode(&config), Some(SortMode::Size));

    let args = vec![String::from("roxo"), String::from("--time")];
    let (config, _) = parse_args(&args);
    assert_eq!(sort_mode(&config), Some(SortMode::Time));

    let args = vec![String::from("roxo")];
    let (config, _) = parse_args(&args);
    assert_eq!(sort_mode(&config), Some(SortMode::Default));
}

#[test]
fn unrecognized_arguments_are_reported_in_order() {
    let args = vec![
        String::from("roxo"),
        String::from("--bogus"),
        String::from("-a"),
        String::from("-z"),
    ];
    let (config, unrecognized) = parse_args(&args);
    assert!(config.show_hidden);
    assert!(!config.sort_by_size);
    let names: Vec<&str> = unrecognized.iter().map(|s| s.as_str()).collect();
    assert_eq!(names, vec!["--bogus", "-z"]);
}

#[test]
fn all_flag_spellings_are_recognized() {
    let args = vec![
        String::from("roxo"),
        String::from("--all"),
        String::from("--hide"),
    ];
    let (config, unrecognized) = parse_args(&args);
    assert!(config.show_hidden);
    assert!(config.hide_icons);
    assert!(!config.sort_by_size);
    assert!(!config.sort_by_time);
    assert!(unrecognized.is_empty());
}

#[test]
fn flag_table_lists_the_four_flags() {
    let flags = get_flags();
    assert_eq!(flags.len(), 4);
    assert_eq!(flags[0].flag, ["-a", "--all"]);
    assert_eq!(flags[1].flag, ["-s", "--size"]);
    assert_eq!(flags[2].flag, ["-t", "--time"]);
    assert_eq!(flags[3].flag, ["-h", "--hide"]);
}

#[test]
fn classify_prefers_directory_then_symlink() {
    assert_eq!(classify(true, false), FileInfoType::Directory);
    assert_eq!(classify(true, true), FileInfoType::Directory);
    assert_eq!(classify(false, true), FileInfoType::Symlink);
    assert_eq!(classify(false, false), FileInfoType::File);
}

#[test]
fn dot_detection_checks_first_character() {
    assert!(starts_with_dot(".hidden"));
    assert!(!starts_with_dot("visible"));
    assert!(!starts_with_dot(""));
    assert!(starts_with_dot("."));
}

#[test]
fn string_equality_compares_contents() {
    assert!(str_eq("-a", "-a"));
    assert!(!str_eq("-a", "-s"));
    assert!(!str_eq("-a", "--all"));
    assert!(str_eq("", ""));
}

#[test]
fn example_listing_hides_dot_file_and_leads_with_directory() {
    let sub_tree = FsNode::Dir { children: vec![FsNode::File { len: 20 }] };
    let sub_size = node_size(&sub_tree);
    assert_eq!(sub_size, 20);
    let collected = vec![
        entry("a.txt", FileInfoType::File, 10, 100),
        entry(".secret", FileInfoType::File, 5, 100),
        entry("sub", FileInfoType::Directory, sub_size, 100),
    ];
    let listing = prepare_listing(collected, false, SortMode::Default);
    let names: Vec<&str> = listing.iter().map(|e| e.name.as_str()).collect();
    assert_eq!(names, vec!["sub", "a.txt"]);
    assert_eq!(listing[0].size, 20);
    assert_eq!(listing[1].size, 10);
}

#[test]
fn example_listing_with_all_flag_keeps_dot_file_among_files() {
    let collected = vec![
        entry("a.txt", FileInfoType::File, 10, 100),
        entry(".secret", FileInfoType::File, 5, 100),
        entry("sub", FileInfoType::Directory, 20, 100),
    ];
    let listing = prepare_listing(collected, true, SortMode::Default);
    let names: Vec<&str> = listing.iter().map(|e| e.name.as_str()).collect();
    assert_eq!(names, vec!["sub", "a.txt", ".secret"]);
}
