//! A verified core for a directory-listing tool: collect one directory's
//! entries, size directories by recursively summing the regular files under
//! them, filter hidden names, sort stably by size, time or
//! directories-first, and render fixed-width, colour-styled rows.
mod entry;
mod flags;
mod format;
mod fs_tree;
mod parse;
mod render;
mod seqtools;
mod sort;

pub use entry::FileInfo;
pub use entry::FileInfoType;
pub use entry::classify;
pub use entry::classify_spec;
pub use entry::filter_hidden;
pub use entry::is_hidden_name;
pub use entry::starts_with_dot;
pub use entry::visible_pred;

pub use flags::Config;
pub use flags::Flag;
pub use flags::Input;
pub use flags::SortMode;
pub use flags::get_flags;
pub use flags::is_all_flag;
pub use flags::is_hide_flag;
pub use flags::is_recognized_flag;
pub use flags::is_size_flag;
pub use flags::is_time_flag;
pub use flags::parse_args;
pub use flags::sort_mode;
pub use flags::str_eq;
pub use flags::unrecognized_pred;

pub use format::dec_str;
pub use format::format_file_size;
pub use format::format_size_spec;
pub use format::pow1024;
pub use format::round_half_even;
pub use format::u64_to_string;
pub use format::unit_index;
pub use format::unit_suffix;

pub use fs_tree::FsNode;
pub use fs_tree::children_size_spec;
pub use fs_tree::files_under;
pub use fs_tree::files_under_children;
pub use fs_tree::lemma_node_size_nonneg;
pub use fs_tree::lemma_size_is_sum_of_files;
pub use fs_tree::node_size;
pub use fs_tree::node_size_spec;
pub use fs_tree::sum_lens;

pub use parse::all_digits;
pub use parse::digit_val;
pub use parse::is_ascii_digit_char;
pub use parse::parse_u16;
pub use parse::str_val;

pub use render::header_spec;
pub use render::pad_right;
pub use render::pad_right_spec;
pub use render::render_entry_row;
pub use render::render_header;
pub use render::render_row;
pub use render::row_spec;
pub use render::separator_line;
pub use render::spaces;
pub use render::styled_name;
pub use render::styled_name_spec;

pub use sort::entries_with_key;
pub use sort::is_directory_entry;
pub use sort::key_class;
pub use sort::lemma_default_sort_partitions;
pub use sort::lemma_size_sort_non_increasing;
pub use sort::lemma_stable_reorder_membership;
pub use sort::lemma_time_sort_non_decreasing;
pub use sort::prepare_listing;
pub use sort::sort_entries;
pub use sort::sort_key;
pub use sort::sorted_by_mode;
pub use sort::stable_reorder;
