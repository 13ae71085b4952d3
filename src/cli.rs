//! The command line: mode words, flags and paths.

use vstd::prelude::*;
use vstd::string::StrSliceExecFns;
use crate::text::str_eq;

verus! {

/// What to do with the given paths.
#[derive(Debug, Clone, Copy, PartialEq, Eq, Structural)]
pub enum Mode {
    Encrypt,
    Decrypt,
    Remove,
}

/// The mode word in effect when none is given.
pub const DEFAULT_MODE: &'static str = "encrypt";

/// The mode that a command-line word names.
pub open spec fn mode_word(w: Seq<char>) -> Option<Mode> {
    if w == "encrypt"@ {
        Some(Mode::Encrypt)
    } else if w == "decrypt"@ {
        Some(Mode::Decrypt)
    } else if w == "remove"@ || w == "delete"@ || w == "rm"@ || w == "del"@ {
        Some(Mode::Remove)
    } else {
        None
    }
}

/// An argument that names a path: no mode word, and not starting with `-`.
pub open spec fn is_path_arg(w: Seq<char>) -> bool {
    mode_word(w) is None && !(w.len() > 0 && w[0] == '-')
}

/// The views of the arguments.
pub open spec fn arg_views(args: Seq<String>) -> Seq<Seq<char>> {
    args.map_values(|s: String| s@)
}

/// The mode word in effect after `args` (whose first entry, the program, is
/// skipped): the last one given, else the default.
pub open spec fn mode_after(args: Seq<Seq<char>>) -> Seq<char>
    decreases args.len(),
{
    if args.len() <= 1 {
        DEFAULT_MODE@
    } else if mode_word(args.last()) is Some {
        args.last()
    } else {
        mode_after(args.drop_last())
    }
}

/// The last of the flags `on` and `off` given in `args`, as `true` or `false`.
pub open spec fn flag_after(args: Seq<Seq<char>>, on: Seq<char>, off: Seq<char>) -> Option<bool>
    decreases args.len(),
{
    if args.len() <= 1 {
        None
    } else if args.last() == on {
        Some(true)
    } else if args.last() == off {
        Some(false)
    } else {
        flag_after(args.drop_last(), on, off)
    }
}

/// The flag `w` occurs in `args`, past the program.
pub open spec fn flag_seen(args: Seq<Seq<char>>, w: Seq<char>) -> bool
    decreases args.len(),
{
    if args.len() <= 1 {
        false
    } else {
        args.last() == w || flag_seen(args.drop_last(), w)
    }
}

/// The path arguments of `args`, past the program, in order.
pub open spec fn path_args(args: Seq<Seq<char>>) -> Seq<Seq<char>>
    decreases args.len(),
{
    if args.len() <= 1 {
        Seq::empty()
    } else if is_path_arg(args.last()) {
        path_args(args.drop_last()).push(args.last())
    } else {
        path_args(args.drop_last())
    }
}

/// The paths to process: those given, else the current directory unless in pipe mode.
pub open spec fn paths_to_process(args: Seq<Seq<char>>) -> Seq<Seq<char>> {
    if path_args(args).len() == 0 && !flag_seen(args, "--pipe"@) {
        seq!["."@]
    } else {
        path_args(args)
    }
}

/// The mode that `word` names, if any.
pub fn parse_mode(word: &str) -> (r: Option<Mode>)
    ensures
        r == mode_word(word@),
{
    if str_eq(word, "encrypt") {
        Some(Mode::Encrypt)
    } else if str_eq(word, "decrypt") {
        Some(Mode::Decrypt)
    } else if str_eq(word, "remove") || str_eq(word, "delete") || str_eq(word, "rm") || str_eq(
        word,
        "del",
    ) {
        Some(Mode::Remove)
    } else {
        None
    }
}

/// Whether `mode` means encryption; a word that names no mode falls back to the default.
pub fn is_encrypt_mode(mode: &str) -> (r: bool)
    ensures
        r == match mode_word(mode@) {
            Some(m) => m == Mode::Encrypt,
            None => mode_word(DEFAULT_MODE@) == Some(Mode::Encrypt),
        },
{
    match parse_mode(mode) {
        Some(m) => m == Mode::Encrypt,
        None => parse_mode(DEFAULT_MODE) == Some(Mode::Encrypt),
    }
}

/// Reads the command line (`args[0]` is the program): the mode word, the
/// paths, the filename-encryption and self-destruct flags if given, and
/// whether directory-archive mode, pipe mode and skipping the overwrite
/// passes were asked for.
pub fn parse_mode_paths_and_flags(args: &Vec<String>) -> (r: (
    String,
    Vec<String>,
    Option<bool>,
    Option<bool>,
    bool,
    bool,
    bool,
))
    ensures
        r.0@ == mode_after(arg_views(args@)),
        arg_views(r.1@) == paths_to_process(arg_views(args@)),
        r.2 == flag_after(arg_views(args@), "--encrypt-filenames"@, "--no-encrypt-filenames"@),
        r.3 == flag_after(arg_views(args@), "--self-destruct"@, "--no-self-destruct"@),
        r.4 == flag_seen(arg_views(args@), "--zipdir"@),
        r.5 == flag_seen(arg_views(args@), "--pipe"@),
        r.6 == flag_seen(arg_views(args@), "--skip-dod"@),
{
    let ghost v = arg_views(args@);
    let mut mode = DEFAULT_MODE.to_owned();
    let mut paths: Vec<String> = Vec::new();
    let mut encrypt_filenames: Option<bool> = None;
    let mut self_destruct: Option<bool> = None;
    let mut dir_mode = false;
    let mut pipe_mode = false;
    let mut skip_dod = false;
    let mut i: usize = 0;
    assert(arg_views(paths@) =~= Seq::<Seq<char>>::empty());
    while i < args.len()
        invariant
            v == arg_views(args@),
            i <= args.len(),
            mode@ == mode_after(v.subrange(0, i as int)),
            arg_views(paths@) == path_args(v.subrange(0, i as int)),
            encrypt_filenames == flag_after(
                v.subrange(0, i as int),
                "--encrypt-filenames"@,
                "--no-encrypt-filenames"@,
            ),
            self_destruct == flag_after(
                v.subrange(0, i as int),
                "--self-destruct"@,
                "--no-self-destruct"@,
            ),
            dir_mode == flag_seen(v.subrange(0, i as int), "--zipdir"@),
            pipe_mode == flag_seen(v.subrange(0, i as int), "--pipe"@),
            skip_dod == flag_seen(v.subrange(0, i as int), "--skip-dod"@),
        decreases args.len() - i,
    {
        if i == 0 {
            i = 1;
            continue;
        }
        let arg = &args[i];
        let ghost prev = v.subrange(0, i as int);
        let ghost next = v.subrange(0, i + 1);
        assert(next.drop_last() =~= prev);
        assert(next.last() == arg@);
        let s = arg.as_str();
        let word = parse_mode(s);
        if word.is_some() {
            mode = arg.clone();
        }
        if str_eq(s, "--encrypt-filenames") {
            encrypt_filenames = Some(true);
        } else if str_eq(s, "--no-encrypt-filenames") {
            encrypt_filenames = Some(false);
        }
        if str_eq(s, "--self-destruct") {
            self_destruct = Some(true);
        } else if str_eq(s, "--no-self-destruct") {
            self_destruct = Some(false);
        }
        if str_eq(s, "--zipdir") {
            dir_mode = true;
        }
        if str_eq(s, "--pipe") {
            pipe_mode = true;
        }
        if str_eq(s, "--skip-dod") {
            skip_dod = true;
        }
        if word.is_none() && !(s.unicode_len() > 0 && s.get_char(0) == '-') {
            paths.push(arg.clone());
            assert(arg_views(paths@) =~= path_args(prev).push(arg@));
        }
        i = i + 1;
    }
    assert(v.subrange(0, i as int) =~= v);
    if paths.len() == 0 && !pipe_mode {
        paths.push(".".to_owned());
        assert(arg_views(paths@) =~= seq!["."@]);
    }
    (mode, paths, encrypt_filenames, self_destruct, dir_mode, pipe_mode, skip_dod)
}

} // verus!
