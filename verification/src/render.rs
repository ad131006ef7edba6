//! Text rendering of the listing: fixed-width columns, the per-kind colour
//! styling, and the local-time column obtained from chrono.
use vstd::prelude::*;

verus! {

use crate::entry::FileInfo;
use crate::entry::FileInfoType;
use crate::format::format_file_size;
use crate::format::format_size_spec;

pub open spec fn spaces(n: nat) -> Seq<char>
    decreases n,
{
    if n == 0 {
        Seq::<char>::empty()
    } else {
        spaces((n - 1) as nat).push(' ')
    }
}

/// A string left-aligned in a column of width `w`: shorter text is padded
/// with spaces on the right, longer text is kept whole.
pub open spec fn pad_right_spec(s: Seq<char>, w: nat) -> Seq<char> {
    if s.len() >= w {
        s
    } else {
        s + spaces((w - s.len()) as nat)
    }
}

#[verifier::loop_isolation(false)]
pub fn pad_right(s: &str, w: usize) -> (r: String)
    ensures
        r@ == pad_right_spec(s@, w as nat),
{
    let mut r = String::from_str(s);
    let n = s.unicode_len();
    proof {
        reveal_strlit(" ");
        assert(" "@ =~= seq![' ']);
    }
    if n >= w {
        return r;
    }
    let mut i = n;
    proof {
        assert(r@ =~= s@ + spaces(0));
    }
    while i < w
        invariant
            n <= i <= w,
            r@ == s@ + spaces((i - n) as nat),
        decreases w - i,
    {
        r.append(" ");
        proof {
            assert(r@ =~= s@ + spaces((i + 1 - n) as nat));
        }
        i = i + 1;
    }
    r
}

/// The name as displayed: directories in bold blue and files in underlined
/// red, each with a leading glyph unless icons are hidden; symlink names
/// are left unstyled.
pub open spec fn styled_name_spec(e: FileInfo, hide_icons: bool) -> Seq<char> {
    match e.file_type {
        FileInfoType::Directory => "\u{1b}[1;34m"@ + (if hide_icons {
            Seq::<char>::empty()
        } else {
            "\u{e613} "@
        }) + e.name@ + "\u{1b}[0m"@,
        FileInfoType::File => "\u{1b}[4;31m"@ + (if hide_icons {
            Seq::<char>::empty()
        } else {
            "\u{f15c} "@
        }) + e.name@ + "\u{1b}[0m"@,
        FileInfoType::Symlink => e.name@,
    }
}

pub fn styled_name(e: &FileInfo, hide_icons: bool) -> (r: String)
    ensures
        r@ == styled_name_spec(*e, hide_icons),
{
    match e.file_type {
        FileInfoType::Directory => {
            let mut s = String::from_str("\u{1b}[1;34m");
            if !hide_icons {
                s.append("\u{e613} ");
            }
            s.append(e.name.as_str());
            s.append("\u{1b}[0m");
            proof {
                assert(s@ =~= styled_name_spec(*e, hide_icons));
            }
            s
        },
        FileInfoType::File => {
            let mut s = String::from_str("\u{1b}[4;31m");
            if !hide_icons {
                s.append("\u{f15c} ");
            }
            s.append(e.name.as_str());
            s.append("\u{1b}[0m");
            proof {
                assert(s@ =~= styled_name_spec(*e, hide_icons));
            }
            s
        },
        FileInfoType::Symlink => String::from_str(e.name.as_str()),
    }
}

/// One listing line: the modification time in a 20-column field, the size
/// in a 10-column field, then the styled name in a 25-column field.
pub open spec fn row_spec(e: FileInfo, hide_icons: bool, ts: Seq<char>) -> Seq<char> {
    pad_right_spec(ts, 20) + seq![' '] + pad_right_spec(format_size_spec(e.size as int), 10)
        + seq![' '] + pad_right_spec(styled_name_spec(e, hide_icons), 25)
}

/// Render one entry's line around an already-formatted time column.
pub fn render_row(e: &FileInfo, hide_icons: bool, time_str: &str) -> (r: String)
    ensures
        r@ == row_spec(*e, hide_icons, time_str@),
{
    proof {
        reveal_strlit(" ");
        assert(" "@ =~= seq![' ']);
    }
    let mut r = pad_right(time_str, 20);
    r.append(" ");
    let size_str = format_file_size(e.size);
    let padded_size = pad_right(size_str.as_str(), 10);
    r.append(padded_size.as_str());
    r.append(" ");
    let name_str = styled_name(e, hide_icons);
    let padded_name = pad_right(name_str.as_str(), 25);
    r.append(padded_name.as_str());
    proof {
        assert(r@ =~= row_spec(*e, hide_icons, time_str@));
    }
    r
}

/// Relies on chrono's `DateTime::from_timestamp`, `DateTime::with_timezone`
/// and `DateTime::format`: renders a Unix timestamp as local wall-clock
/// time in the `YYYY-MM-DD HH:MM:SS` layout. The text depends on the
/// machine's time zone, so nothing is assumed about it; a timestamp outside
/// chrono's range comes back as empty text.
#[verifier::external_body]
fn format_local_time(secs: i64) -> (r: String) {
    match chrono::DateTime::from_timestamp(secs, 0) {
        Some(dt) => dt.with_timezone(&chrono::Local).format("%Y-%m-%d %H:%M:%S").to_string(),
        None => String::new(),
    }
}

/// Render one entry's full line, formatting its modification time as local
/// time. Whatever text the clock column takes, the line is that column and
/// the entry's size and styled name, each in its fixed-width field.
pub fn render_entry_row(e: &FileInfo, hide_icons: bool) -> (r: String)
    ensures
        exists|ts: Seq<char>| r@ == row_spec(*e, hide_icons, ts),
{
    let ts = format_local_time(e.modified_time);
    let r = render_row(e, hide_icons, ts.as_str());
    proof {
        assert(r@ == row_spec(*e, hide_icons, ts@));
    }
    r
}

/// The bold column headers, each in its fixed-width field.
pub open spec fn header_spec() -> Seq<char> {
    "\u{1b}[1m"@ + pad_right_spec("Last Modified"@, 20) + "\u{1b}[0m"@ + seq![' '] + "\u{1b}[1m"@
        + pad_right_spec("Size"@, 10) + "\u{1b}[0m"@ + seq![' '] + "\u{1b}[1m"@ + pad_right_spec(
        "Name"@,
        14,
    ) + "\u{1b}[0m"@
}

pub fn render_header() -> (r: String)
    ensures
        r@ == header_spec(),
{
    proof {
        reveal_strlit(" ");
        assert(" "@ =~= seq![' ']);
    }
    let mut r = String::from_str("\u{1b}[1m");
    let c1 = pad_right("Last Modified", 20);
    r.append(c1.as_str());
    r.append("\u{1b}[0m");
    r.append(" ");
    r.append("\u{1b}[1m");
    let c2 = pad_right("Size", 10);
    r.append(c2.as_str());
    r.append("\u{1b}[0m");
    r.append(" ");
    r.append("\u{1b}[1m");
    let c3 = pad_right("Name", 14);
    r.append(c3.as_str());
    r.append("\u{1b}[0m");
    proof {
        assert(r@ =~= header_spec());
    }
    r
}

/// The rule drawn under the header.
pub fn separator_line() -> (r: String)
    ensures
        r@.len() == 52,
        forall|i: int| 0 <= i < r@.len() ==> r@[i] == '-',
{
    let s = "----------------------------------------------------";
    proof {
        reveal_strlit("----------------------------------------------------");
    }
    String::from_str(s)
}

} // verus!
