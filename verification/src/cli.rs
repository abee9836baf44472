//! The image path on the viewer's command line: the first argument after
//! the executable that is not an option, resolved (for a second instance)
//! against that instance's working directory with Windows path rules.
use vstd::prelude::*;

use crate::catalog::is_sep;
use crate::text::{chars_of, has_drive, prefix_len, prefix_length, starts_with_drive};

verus! {

/// An argument that starts with `-` is an option, never a path.
pub open spec fn spec_is_option(arg: Seq<char>) -> bool {
    arg.len() > 0 && arg[0] == '-'
}

pub fn is_option(path: &str) -> (b: bool)
    ensures
        b == spec_is_option(path@),
        b == (path@.len() > 0 && path@[0] == '-'),
{
    path.unicode_len() > 0 && path.get_char(0) == '-'
}

/// The first argument after the executable that is not an option.
pub open spec fn spec_path_argument(args: Seq<Seq<char>>) -> Option<Seq<char>> {
    if exists|i: int| 1 <= i < args.len() && !spec_is_option(#[trigger] args[i]) {
        let i = choose|i: int|
            1 <= i < args.len() && !spec_is_option(#[trigger] args[i]) && forall|j: int|
                1 <= j < i ==> spec_is_option(#[trigger] args[j]);
        Some(args[i])
    } else {
        None
    }
}

/// An argument is an option exactly when its first character is `-`; a
/// dash further in (as in `my-trip.jpg`) does not make it one.
pub proof fn lemma_option_means_leading_dash(arg: Seq<char>)
    ensures
        arg.len() > 0 && arg[0] == '-' ==> spec_is_option(arg),
        arg.len() == 0 || arg[0] != '-' ==> !spec_is_option(arg),
{
}

/// The path on a command line is the first argument after the executable
/// that does not start with `-`, whatever the arguments after it hold.
pub proof fn lemma_path_is_first_argument_without_leading_dash(args: Seq<Seq<char>>, i: int)
    requires
        1 <= i < args.len(),
        args[i].len() == 0 || args[i][0] != '-',
        forall|j: int| 1 <= j < i ==> (#[trigger] args[j]).len() > 0 && args[j][0] == '-',
    ensures
        spec_path_argument(args) == Some(args[i]),
{
    lemma_option_means_leading_dash(args[i]);
    assert forall|j: int| 1 <= j < i implies spec_is_option(#[trigger] args[j]) by {
        lemma_option_means_leading_dash(args[j]);
    }
    let c = choose|c: int|
        1 <= c < args.len() && !spec_is_option(#[trigger] args[c]) && forall|j: int|
            1 <= j < c ==> spec_is_option(#[trigger] args[j]);
    assert(1 <= i < args.len() && !spec_is_option(args[i]) && forall|j: int| 1 <= j < i ==> spec_is_option(
        #[trigger] args[j],
    ));
    if c < i {
        assert(spec_is_option(args[c]));
    }
    if c > i {
        assert(spec_is_option(args[i]));
    }
}

pub open spec fn arg_views(arguments: Seq<String>) -> Seq<Seq<char>> {
    arguments.map_values(|a: String| a@)
}

/// The position of the first path argument, if any.
fn path_argument_index(arguments: &Vec<String>) -> (r: Option<usize>)
    ensures
        match r {
            Some(i) => {
                &&& 1 <= i < arguments@.len()
                &&& !spec_is_option(arguments@[i as int]@)
                &&& forall|j: int| 1 <= j < i ==> spec_is_option(#[trigger] arguments@[j]@)
            },
            None => forall|j: int| 1 <= j < arguments@.len() ==> spec_is_option(#[trigger] arguments@[j]@),
        },
{
    let mut i: usize = 1;
    while i < arguments.len()
        invariant
            1 <= i,
            i <= arguments@.len() || arguments@.len() == 0,
            forall|j: int| 1 <= j < i && j < arguments@.len() ==> spec_is_option(#[trigger] arguments@[j]@),
        decreases arguments@.len() - i,
    {
        if !is_option(arguments[i].as_str()) {
            return Some(i);
        }
        i = i + 1;
    }
    None
}

proof fn lemma_path_argument(args: Seq<String>, i: Option<usize>)
    requires
        match i {
            Some(i) => {
                &&& 1 <= i < args.len()
                &&& !spec_is_option(args[i as int]@)
                &&& forall|j: int| 1 <= j < i ==> spec_is_option(#[trigger] args[j]@)
            },
            None => forall|j: int| 1 <= j < args.len() ==> spec_is_option(#[trigger] args[j]@),
        },
    ensures
        spec_path_argument(arg_views(args)) == (match i {
            Some(i) => Some(args[i as int]@),
            None => None,
        }),
{
    let v = arg_views(args);
    match i {
        Some(i) => {
            assert(!spec_is_option(v[i as int]));
            let k = choose|k: int|
                1 <= k < v.len() && !spec_is_option(#[trigger] v[k]) && forall|j: int|
                    1 <= j < k ==> spec_is_option(#[trigger] v[j]);
            assert(forall|j: int| 1 <= j < i ==> spec_is_option(#[trigger] v[j]));
            if k < i {
                assert(spec_is_option(v[k]));
            } else if k > i {
                assert(spec_is_option(v[i as int]));
            }
        },
        None => {
            assert forall|j: int| 1 <= j < v.len() implies spec_is_option(#[trigger] v[j]) by {
                assert(spec_is_option(args[j]@));
            }
        },
    }
}

/// The image path given on the command line, if any.
pub fn initial_cli_path(arguments: &Vec<String>) -> (r: Option<String>)
    ensures
        crate::text::option_seq(r) == spec_path_argument(arg_views(arguments@)),
{
    let i = path_argument_index(arguments);
    proof {
        lemma_path_argument(arguments@, i);
    }
    match i {
        Some(i) => Some(arguments[i].clone()),
        None => None,
    }
}


/// A Windows absolute path: a drive and a root, or a UNC, device or
/// verbatim path (two leading separators).
pub open spec fn spec_is_absolute(p: Seq<char>) -> bool {
    (has_drive(p) && p.len() >= 3 && is_sep(p[2])) || (p.len() >= 2 && is_sep(p[0]) && is_sep(p[1]))
}


/// `directory` joined with `path` by Windows rules: an absolute path or one
/// on its own drive replaces the directory, a rooted path keeps only the
/// directory's prefix (drive or UNC share), anything else is appended after
/// one separator.
pub open spec fn spec_join(directory: Seq<char>, path: Seq<char>) -> Seq<char> {
    if spec_is_absolute(path) || has_drive(path) {
        path
    } else if path.len() > 0 && is_sep(path[0]) {
        directory.take(prefix_len(directory)) + path
    } else if directory.len() == 0 || is_sep(directory.last()) || (directory.len() == 2 && has_drive(
        directory,
    )) {
        directory + path
    } else {
        directory + seq!['\\'] + path
    }
}

/// Resolves a command-line path against a working directory.
pub fn join_path(directory: &str, path: &str) -> (r: String)
    ensures
        r@ == spec_join(directory@, path@),
{
    let d = chars_of(directory);
    let p = chars_of(path);
    let absolute = (starts_with_drive(&p) && p.len() >= 3 && (p[2] == '/' || p[2] == '\\')) || (p.len() >= 2
        && (p[0] == '/' || p[0] == '\\') && (p[1] == '/' || p[1] == '\\'));
    if absolute || starts_with_drive(&p) {
        return path.to_owned();
    }
    if p.len() > 0 && (p[0] == '/' || p[0] == '\\') {
        let n = prefix_length(&d);
        let mut r = directory.substring_char(0, n).to_owned();
        r.append(path);
        return r;
    }
    let mut r = directory.to_owned();
    if !(d.len() == 0 || d[d.len() - 1] == '/' || d[d.len() - 1] == '\\' || (d.len() == 2 && starts_with_drive(
        &d,
    ))) {
        r.append("\\");
        proof {
            reveal_strlit("\\");
        }
    }
    r.append(path);
    r
}

/// The image path a second instance was started with, resolved against its
/// own working directory.
pub fn cli_path_from_strings(arguments: &Vec<String>, working_directory: &str) -> (r: Option<String>)
    ensures
        crate::text::option_seq(r) == (match spec_path_argument(arg_views(arguments@)) {
            Some(p) => Some(spec_join(working_directory@, p)),
            None => None,
        }),
{
    match initial_cli_path(arguments) {
        Some(p) => Some(join_path(working_directory, p.as_str())),
        None => None,
    }
}

} // verus!
