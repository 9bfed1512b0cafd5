//! Where the settings file lives, and the `--height` start-up option.

use vstd::prelude::*;
use crate::text::{chars_of, decimal, lemma_decimal, parse_u32, parse_u32_range};

verus! {

/// Joining a relative path component onto a path, as `PathBuf::push`
/// does: a `/` goes between them unless the path is empty or already ends
/// in one.
pub open spec fn join_path(base: Seq<char>, component: Seq<char>) -> Seq<char> {
    if base.len() > 0 && base.last() != '/' {
        base + seq!['/'] + component
    } else {
        base + component
    }
}

/// The directory settings live under: `$XDG_CONFIG_HOME` when set, else
/// `$HOME/.config`, else `./.config`.
pub open spec fn config_base(xdg_config_home: Option<Seq<char>>, home: Option<Seq<char>>) -> Seq<
    char,
> {
    match xdg_config_home {
        Some(x) => x,
        None => join_path(
            match home {
                Some(h) => h,
                None => seq!['.'],
            },
            seq!['.', 'c', 'o', 'n', 'f', 'i', 'g'],
        ),
    }
}

pub open spec fn app_dir_name() -> Seq<char> {
    seq!['h', 'y', 'p', 'r', '-', 'x', 'p', '-', 'm', 'a', 'g', 'n', 'i', 'f', 'i', 'e', 'r']
}

pub open spec fn settings_file_name() -> Seq<char> {
    seq!['s', 'e', 't', 't', 'i', 'n', 'g', 's', '.', 'j', 's', 'o', 'n']
}

/// The settings file: `hypr-xp-magnifier/settings.json` under the
/// configuration directory.
pub open spec fn spec_config_path(xdg_config_home: Option<Seq<char>>, home: Option<Seq<char>>) -> Seq<
    char,
> {
    join_path(
        join_path(config_base(xdg_config_home, home), app_dir_name()),
        settings_file_name(),
    )
}

fn join_onto(base: String, component: &str) -> (r: String)
    ensures
        r@ == join_path(base@, component@),
{
    let v = chars_of(base.as_str());
    let need_sep = v.len() > 0 && v[v.len() - 1] != '/';
    let mut r = base;
    if need_sep {
        let sep = "/";
        proof {
            reveal_strlit("/");
        }
        r.append(sep);
    }
    r.append(component);
    r
}

/// The settings file's path, given the values of `XDG_CONFIG_HOME` and
/// `HOME` (each `None` when unset or not valid Unicode).
pub fn config_path(xdg_config_home: Option<&str>, home: Option<&str>) -> (r: String)
    ensures
        r@ == spec_config_path(
            match xdg_config_home {
                Some(x) => Some(x@),
                None => None,
            },
            match home {
                Some(h) => Some(h@),
                None => None,
            },
        ),
{
    let base = match xdg_config_home {
        Some(x) => String::from_str(x),
        None => {
            let h = match home {
                Some(h) => String::from_str(h),
                None => {
                    proof {
                        reveal_strlit(".");
                    }
                    String::from_str(".")
                },
            };
            proof {
                reveal_strlit(".config");
            }
            join_onto(h, ".config")
        },
    };
    proof {
        reveal_strlit("hypr-xp-magnifier");
        reveal_strlit("settings.json");
    }
    let dir = join_onto(base, "hypr-xp-magnifier");
    join_onto(dir, "settings.json")
}

/// What went wrong with a `--height` option; each is reported and the
/// option skipped.
#[derive(Debug)]
pub enum HeightProblem {
    /// The value after `--height` is not a positive `u32`.
    Unparsable(String),
    /// `--height` is the last argument.
    MissingValue,
}

/// A `HeightProblem` as plain values.
pub ghost enum HeightProblemView {
    Unparsable(Seq<char>),
    MissingValue,
}

impl View for HeightProblem {
    type V = HeightProblemView;

    open spec fn view(&self) -> HeightProblemView {
        match self {
            HeightProblem::Unparsable(v) => HeightProblemView::Unparsable(v@),
            HeightProblem::MissingValue => HeightProblemView::MissingValue,
        }
    }
}

/// The outcome of reading `--height` from the command line.
#[derive(Debug)]
pub struct HeightOverride {
    /// The starting thickness, when some `--height` is followed by a
    /// positive number.
    pub thickness: Option<u32>,
    /// The `--height` options skipped before that, in order.
    pub problems: Vec<HeightProblem>,
}

pub open spec fn height_flag() -> Seq<char> {
    seq!['-', '-', 'h', 'e', 'i', 'g', 'h', 't']
}

/// Scanning the arguments from index `i`: the first `--height` followed by
/// a positive `u32` gives the thickness and ends the scan; every
/// `--height` before it is a problem, whether its value does not parse
/// (or is 0) or it has no value.
pub open spec fn scan_height(args: Seq<Seq<char>>, i: int) -> (Option<u32>, Seq<HeightProblemView>)
    decreases args.len() - i,
{
    if i < 0 || i >= args.len() {
        (None, Seq::empty())
    } else if args[i] == height_flag() {
        if i + 1 < args.len() {
            match parse_u32(args[i + 1]) {
                Some(h) if h > 0 => (Some(h), Seq::empty()),
                _ => {
                    let rest = scan_height(args, i + 1);
                    (rest.0, seq![HeightProblemView::Unparsable(args[i + 1])] + rest.1)
                },
            }
        } else {
            let rest = scan_height(args, i + 1);
            (rest.0, seq![HeightProblemView::MissingValue] + rest.1)
        }
    } else {
        scan_height(args, i + 1)
    }
}

pub open spec fn args_view(args: Seq<String>) -> Seq<Seq<char>> {
    args.map_values(|a: String| a@)
}

pub open spec fn problems_view(ps: Seq<HeightProblem>) -> Seq<HeightProblemView> {
    ps.map_values(|p: HeightProblem| p@)
}

/// Reads `--height N` from the command-line arguments: the starting
/// thickness, used only before a settings file exists.
pub fn parse_thickness_override(args: &Vec<String>) -> (r: HeightOverride)
    ensures
        r.thickness == scan_height(args_view(args@), 0).0,
        problems_view(r.problems@) == scan_height(args_view(args@), 0).1,
{
    let ghost a = args_view(args@);
    proof {
        reveal_strlit("--height");
    }
    let flag = String::from_str("--height");
    let mut problems: Vec<HeightProblem> = Vec::new();
    let mut i: usize = 0;
    while i < args.len()
        invariant
            i <= args.len(),
            a == args_view(args@),
            flag@ == height_flag(),
            scan_height(a, 0).0 == scan_height(a, i as int).0,
            scan_height(a, 0).1 == problems_view(problems@) + scan_height(a, i as int).1,
        decreases args.len() - i,
    {
        let ghost before = problems@;
        assert(a[i as int] == args@[i as int]@);
        if args[i] == flag {
            if i + 1 < args.len() {
                let value = &args[i + 1];
                assert(a[i + 1] == value@);
                let v = chars_of(value.as_str());
                assert(v@.subrange(0, v@.len() as int) =~= v@);
                match parse_u32_range(&v, 0, v.len()) {
                    Some(h) => {
                        if h > 0 {
                            assert(problems_view(problems@) + Seq::<HeightProblemView>::empty()
                                =~= problems_view(problems@));
                            return HeightOverride { thickness: Some(h), problems };
                        }
                    },
                    None => {},
                }
                problems.push(HeightProblem::Unparsable(value.clone()));
                assert(problems_view(problems@) =~= problems_view(before).push(
                    HeightProblemView::Unparsable(a[i + 1]),
                ));
            } else {
                problems.push(HeightProblem::MissingValue);
                assert(problems_view(problems@) =~= problems_view(before).push(
                    HeightProblemView::MissingValue,
                ));
            }
        }
        i = i + 1;
    }
    assert(problems_view(problems@) + Seq::<HeightProblemView>::empty() =~= problems_view(
        problems@,
    ));
    HeightOverride { thickness: None, problems }
}

proof fn lemma_scan_skips(args: Seq<Seq<char>>, from: int, to: int)
    requires
        0 <= from <= to <= args.len(),
        forall|j: int| from <= j < to ==> args[j] != height_flag(),
    ensures
        scan_height(args, from) == scan_height(args, to),
    decreases to - from,
{
    if from < to {
        lemma_scan_skips(args, from + 1, to);
    }
}

/// `--height N`, written as a positive decimal number, sets the starting
/// thickness to `N` when it is the first `--height` on the command line.
pub proof fn lemma_height_option_sets_thickness(args: Seq<Seq<char>>, i: int, n: nat)
    requires
        0 <= i,
        i + 1 < args.len(),
        args[i] == height_flag(),
        args[i + 1] == decimal(n),
        0 < n <= u32::MAX,
        forall|j: int| 0 <= j < i ==> args[j] != height_flag(),
    ensures
        scan_height(args, 0) == (Some(n as u32), Seq::<HeightProblemView>::empty()),
{
    lemma_decimal(n);
    assert(decimal(n)[0] != '+');
    assert(parse_u32(decimal(n)) == Some(n as u32));
    lemma_scan_skips(args, 0, i);
}

} // verus!
