//! The command line: which schematic to show, and two display switches.

use vstd::prelude::*;
use crate::text::{has_prefix, same_text, slice, starts_with};

verus! {

/// What the command line asks for.
#[derive(Clone, Debug, PartialEq, Eq)]
pub struct Cli {
    pub schem_file: String,
    pub no_vsync: bool,
    pub wireframe: bool,
}

/// Why a command line was refused.
#[derive(Clone, Copy, PartialEq, Eq, Debug, Structural)]
pub enum CliErrorKind {
    /// `--schem-file` was not given.
    MissingSchemFile,
    /// `--schem-file` stands last, without a value.
    MissingValue,
    /// An option was given twice.
    Repeated,
    /// An argument is none of the options.
    Unexpected,
    /// `--help` or `-h` was given.
    HelpRequested,
}

/// A refused command line: the reason and the argument it is about.
#[derive(Clone, Debug, PartialEq, Eq)]
pub struct CliError {
    pub kind: CliErrorKind,
    pub argument: String,
}

/// What was read of a command line so far.
pub struct Seen {
    pub schem_file: Option<Seq<char>>,
    pub no_vsync: bool,
    pub wireframe: bool,
}

/// The outcome of reading a command line, as contracts speak of it.
pub enum Parsed {
    Accepted { schem_file: Seq<char>, no_vsync: bool, wireframe: bool },
    Refused { kind: CliErrorKind, argument: Seq<char> },
}

/// Reads the arguments from position `i` on, after `seen`.
///
/// `--no-vsync` and `--wireframe` switch their flag on. `--schem-file`
/// takes the next argument as its value, and `--schem-file=VALUE` carries
/// the value itself. No option may come twice, `--schem-file` must come
/// once, and every other argument is refused.
pub open spec fn parse_from(args: Seq<Seq<char>>, i: int, seen: Seen) -> Parsed
    decreases args.len() - i,
{
    if i < 0 || i >= args.len() {
        match seen.schem_file {
            Some(schem_file) => Parsed::Accepted {
                schem_file,
                no_vsync: seen.no_vsync,
                wireframe: seen.wireframe,
            },
            None => Parsed::Refused {
                kind: CliErrorKind::MissingSchemFile,
                argument: "--schem-file"@,
            },
        }
    } else {
        let a = args[i];
        if a == "--no-vsync"@ {
            if seen.no_vsync {
                Parsed::Refused { kind: CliErrorKind::Repeated, argument: a }
            } else {
                parse_from(args, i + 1, Seen { no_vsync: true, ..seen })
            }
        } else if a == "--wireframe"@ {
            if seen.wireframe {
                Parsed::Refused { kind: CliErrorKind::Repeated, argument: a }
            } else {
                parse_from(args, i + 1, Seen { wireframe: true, ..seen })
            }
        } else if a == "--schem-file"@ {
            if seen.schem_file is Some {
                Parsed::Refused { kind: CliErrorKind::Repeated, argument: a }
            } else if i + 1 >= args.len() {
                Parsed::Refused { kind: CliErrorKind::MissingValue, argument: a }
            } else {
                parse_from(args, i + 2, Seen { schem_file: Some(args[i + 1]), ..seen })
            }
        } else if has_prefix(a, "--schem-file="@) {
            if seen.schem_file is Some {
                Parsed::Refused { kind: CliErrorKind::Repeated, argument: a }
            } else {
                parse_from(
                    args,
                    i + 1,
                    Seen { schem_file: Some(a.skip("--schem-file="@.len() as int)), ..seen },
                )
            }
        } else if a == "--help"@ || a == "-h"@ {
            Parsed::Refused { kind: CliErrorKind::HelpRequested, argument: a }
        } else {
            Parsed::Refused { kind: CliErrorKind::Unexpected, argument: a }
        }
    }
}

/// The outcome of reading the arguments `args`, which follow the program's
/// name.
pub open spec fn parse_spec(args: Seq<Seq<char>>) -> Parsed {
    parse_from(args, 0, Seen { schem_file: None, no_vsync: false, wireframe: false })
}

/// The arguments as sequences of characters.
pub open spec fn args_view(args: Seq<String>) -> Seq<Seq<char>> {
    Seq::new(args.len(), |i: int| args[i]@)
}

/// A refusal of kind `kind` about `argument`.
fn refuse(kind: CliErrorKind, argument: &str) -> (e: CliError)
    ensures
        e.kind == kind,
        e.argument@ == argument@,
{
    CliError { kind, argument: argument.to_owned() }
}

/// Reads the command line. `args` holds the arguments that follow the
/// program's name.
pub fn parse(args: &Vec<String>) -> (r: Result<Cli, CliError>)
    ensures
        match r {
            Ok(cli) => parse_spec(args_view(args@)) == (Parsed::Accepted {
                schem_file: cli.schem_file@,
                no_vsync: cli.no_vsync,
                wireframe: cli.wireframe,
            }),
            Err(e) => parse_spec(args_view(args@)) == (Parsed::Refused {
                kind: e.kind,
                argument: e.argument@,
            }),
        },
{
    let mut schem_file: Option<String> = None;
    let mut no_vsync = false;
    let mut wireframe = false;
    let n = args.len();
    let mut i: usize = 0;
    let ghost all = args_view(args@);
    while i < n
        invariant
            n == args@.len(),
            all == args_view(args@),
            0 <= i <= n,
            parse_spec(all) == parse_from(
                all,
                i as int,
                Seen {
                    schem_file: match schem_file {
                        Some(s) => Some(s@),
                        None => None,
                    },
                    no_vsync,
                    wireframe,
                },
            ),
        decreases n - i,
    {
        let a = args[i].as_str();
        assert(a@ == all[i as int]);
        if same_text(a, "--no-vsync") {
            if no_vsync {
                return Err(refuse(CliErrorKind::Repeated, a));
            }
            no_vsync = true;
            i += 1;
        } else if same_text(a, "--wireframe") {
            if wireframe {
                return Err(refuse(CliErrorKind::Repeated, a));
            }
            wireframe = true;
            i += 1;
        } else if same_text(a, "--schem-file") {
            if schem_file.is_some() {
                return Err(refuse(CliErrorKind::Repeated, a));
            }
            if i + 1 >= n {
                return Err(refuse(CliErrorKind::MissingValue, a));
            }
            schem_file = Some(args[i + 1].clone());
            assert(args@[i + 1]@ == all[i + 1]);
            i += 2;
        } else if starts_with(a, "--schem-file=") {
            if schem_file.is_some() {
                return Err(refuse(CliErrorKind::Repeated, a));
            }
            let p = "--schem-file=".unicode_len();
            let value = slice(a, p, a.unicode_len());
            assert(value@ == a@.skip(p as int));
            schem_file = Some(value);
            i += 1;
        } else if same_text(a, "--help") || same_text(a, "-h") {
            return Err(refuse(CliErrorKind::HelpRequested, a));
        } else {
            return Err(refuse(CliErrorKind::Unexpected, a));
        }
    }
    match schem_file {
        Some(schem_file) => Ok(Cli { schem_file, no_vsync, wireframe }),
        None => Err(refuse(CliErrorKind::MissingSchemFile, "--schem-file")),
    }
}

} // verus!
