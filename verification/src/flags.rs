//! Command-line flag definitions, argument parsing, and sort-mode selection.
use vstd::prelude::*;

verus! {

/// One recognized command-line flag: its short and long spelling, and what
/// input it takes (none of the shipped flags takes a value).
#[derive(Debug)]
pub struct Flag {
    pub flag: [&'static str; 2],
    pub takes: Input,
}

/// What kind of value a flag accepts.
#[derive(Debug)]
pub enum Input {
    Invalid,
    Required(String),
    Optional(Option<String>),
}

/// The flag state distilled from the command line.
#[derive(Debug, Clone, Copy, PartialEq, Eq, Structural)]
pub struct Config {
    pub show_hidden: bool,
    pub sort_by_size: bool,
    pub sort_by_time: bool,
    pub hide_icons: bool,
}

/// Which ordering the listing uses.
#[derive(Debug, Clone, Copy, PartialEq, Eq, Structural)]
pub enum SortMode {
    Size,
    Time,
    Default,
}

pub open spec fn is_all_flag(s: Seq<char>) -> bool {
    s == "-a"@ || s == "--all"@
}

pub open spec fn is_size_flag(s: Seq<char>) -> bool {
    s == "-s"@ || s == "--size"@
}

pub open spec fn is_time_flag(s: Seq<char>) -> bool {
    s == "-t"@ || s == "--time"@
}

pub open spec fn is_hide_flag(s: Seq<char>) -> bool {
    s == "-h"@ || s == "--hide"@
}

pub open spec fn is_recognized_flag(s: Seq<char>) -> bool {
    is_all_flag(s) || is_size_flag(s) || is_time_flag(s) || is_hide_flag(s)
}

/// The table of recognized flags.
pub fn get_flags() -> (r: Vec<Flag>)
    ensures
        r@.len() == 4,
        r@[0].flag[0]@ == "-a"@ && r@[0].flag[1]@ == "--all"@,
        r@[1].flag[0]@ == "-s"@ && r@[1].flag[1]@ == "--size"@,
        r@[2].flag[0]@ == "-t"@ && r@[2].flag[1]@ == "--time"@,
        r@[3].flag[0]@ == "-h"@ && r@[3].flag[1]@ == "--hide"@,
{
    vec![
        Flag { flag: ["-a", "--all"], takes: Input::Invalid },
        Flag { flag: ["-s", "--size"], takes: Input::Invalid },
        Flag { flag: ["-t", "--time"], takes: Input::Invalid },
        Flag { flag: ["-h", "--hide"], takes: Input::Invalid },
    ]
}

/// Character-by-character string equality, proved against the string views.
pub fn str_eq(a: &str, b: &str) -> (r: bool)
    ensures
        r == (a@ == b@),
{
    let alen = a.unicode_len();
    let blen = b.unicode_len();
    if alen != blen {
        return false;
    }
    for i in 0..alen
        invariant
            alen == a@.len(),
            blen == b@.len(),
            alen == blen,
            forall|j: int| 0 <= j < i ==> a@[j] == b@[j],
    {
        if a.get_char(i) != b.get_char(i) {
            return false;
        }
    }
    proof {
        assert(a@ =~= b@);
    }
    true
}

pub open spec fn unrecognized_pred() -> spec_fn(String) -> bool {
    |a: String| !is_recognized_flag(a@)
}

/// Read the flag state out of the argument list (the first element is the
/// program name and is skipped). Later arguments only ever switch settings
/// on, so order does not matter; anything unrecognized is handed back, in
/// order, for the caller to warn about.
#[verifier::loop_isolation(false)]
pub fn parse_args(args: &Vec<String>) -> (r: (Config, Vec<String>))
    ensures
        r.0.show_hidden == (exists|i: int|
            1 <= i < args@.len() && is_all_flag(#[trigger] args@[i]@)),
        r.0.sort_by_size == (exists|i: int|
            1 <= i < args@.len() && is_size_flag(#[trigger] args@[i]@)),
        r.0.sort_by_time == (exists|i: int|
            1 <= i < args@.len() && is_time_flag(#[trigger] args@[i]@)),
        r.0.hide_icons == (exists|i: int|
            1 <= i < args@.len() && is_hide_flag(#[trigger] args@[i]@)),
        args@.len() >= 1 ==> r.1@ == args@.skip(1).filter(unrecognized_pred()),
        args@.len() == 0 ==> r.1@ == Seq::<String>::empty(),
{
    broadcast use vstd::seq_lib::group_filter_ensures;

    proof {
        reveal_strlit("-a");
        reveal_strlit("--all");
        reveal_strlit("-s");
        reveal_strlit("--size");
        reveal_strlit("-t");
        reveal_strlit("--time");
        reveal_strlit("-h");
        reveal_strlit("--hide");
    }
    let mut config = Config {
        show_hidden: false,
        sort_by_size: false,
        sort_by_time: false,
        hide_icons: false,
    };
    let mut unrecognized: Vec<String> = Vec::new();
    let ghost pred = unrecognized_pred();
    let n: usize = args.len();
    proof {
        if n >= 1 {
            assert(args@.subrange(1, 1).filter(pred) =~= Seq::<String>::empty());
        }
    }
    let mut i: usize = 1;
    while i < n
        invariant
            1 <= i <= n || (n == 0 && i == 1),
            n == args@.len(),
            config.show_hidden == (exists|j: int|
                1 <= j < i && is_all_flag(#[trigger] args@[j]@)),
            config.sort_by_size == (exists|j: int|
                1 <= j < i && is_size_flag(#[trigger] args@[j]@)),
            config.sort_by_time == (exists|j: int|
                1 <= j < i && is_time_flag(#[trigger] args@[j]@)),
            config.hide_icons == (exists|j: int|
                1 <= j < i && is_hide_flag(#[trigger] args@[j]@)),
            i <= n ==> unrecognized@ == args@.subrange(1, i as int).filter(pred),
            n == 0 ==> unrecognized@ == Seq::<String>::empty(),
        decreases n - i,
    {
        let arg: &str = args[i].as_str();
        let ghost prev = unrecognized@;
        let matches_all = str_eq(arg, "-a") || str_eq(arg, "--all");
        let matches_size = str_eq(arg, "-s") || str_eq(arg, "--size");
        let matches_time = str_eq(arg, "-t") || str_eq(arg, "--time");
        let matches_hide = str_eq(arg, "-h") || str_eq(arg, "--hide");
        if matches_all {
            config.show_hidden = true;
        }
        if matches_size {
            config.sort_by_size = true;
        }
        if matches_time {
            config.sort_by_time = true;
        }
        if matches_hide {
            config.hide_icons = true;
        }
        if !(matches_all || matches_size || matches_time || matches_hide) {
            unrecognized.push(args[i].clone());
        }
        proof {
            assert(args@.subrange(1, i as int + 1) =~= args@.subrange(1, i as int) + seq![
                args@[i as int],
            ]);
            Seq::filter_distributes_over_add(
                args@.subrange(1, i as int),
                seq![args@[i as int]],
                pred,
            );
            crate::seqtools::lemma_filter_singleton(args@[i as int], pred);
            if pred(args@[i as int]) {
                assert(unrecognized@ =~= prev + seq![args@[i as int]]);
            }
        }
        i = i + 1;
    }
    proof {
        if n > 0 {
            assert(args@.subrange(1, n as int) =~= args@.skip(1));
        }
    }
    (config, unrecognized)
}

/// Which ordering the configuration calls for: size order wins over time
/// order, and with neither the default directories-first order applies.
/// Asking for both the size and the time order is a user error and yields
/// no mode at all.
pub fn sort_mode(config: &Config) -> (r: Option<SortMode>)
    ensures
        r is None <==> (config.sort_by_size && config.sort_by_time),
        (config.sort_by_size && !config.sort_by_time) ==> r == Some(SortMode::Size),
        (config.sort_by_time && !config.sort_by_size) ==> r == Some(SortMode::Time),
        (!config.sort_by_size && !config.sort_by_time) ==> r == Some(SortMode::Default),
{
    if config.sort_by_size && config.sort_by_time {
        None
    } else if config.sort_by_size {
        Some(SortMode::Size)
    } else if config.sort_by_time {
        Some(SortMode::Time)
    } else {
        Some(SortMode::Default)
    }
}

} // verus!
