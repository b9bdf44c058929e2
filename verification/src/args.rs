//! Command-line arguments: the configuration directory to scan, or a
//! single configuration file to load instead.  The grammar is parsed
//! here, against a recursive specification of the whole walk.

use vstd::prelude::*;

use crate::text::str_eq;

verus! {

/// Where configuration is looked for when no directory is named.
pub open spec fn spec_default_config_dir() -> Seq<char> {
    "/etc/journald-broker.d"@
}

/// The program's parsed arguments.
#[derive(Debug)]
pub struct Arguments {
    /// Location under which to look for configuration files.
    pub config_dir: String,
    /// Run using one specified configuration file instead.
    pub config_file: Option<String>,
}

/// Why the argument list was rejected.
#[derive(Debug)]
pub enum ArgError {
    /// The named option came last, with no value after it.
    MissingValue(String),
    /// An argument that is no known option.
    UnknownArgument(String),
}

/// The specification-level image of a rejection.
pub enum SpecArgError {
    MissingValue(Seq<char>),
    Unknown(Seq<char>),
}

/// The meaning of the argument list from position `i` on, given the
/// values gathered so far: each option takes the following argument
/// as its value, later occurrences win, and anything else is
/// rejected.
pub open spec fn spec_parse_args(
    args: Seq<Seq<char>>,
    i: int,
    dir: Seq<char>,
    file: Option<Seq<char>>,
) -> Result<(Seq<char>, Option<Seq<char>>), SpecArgError>
    decreases args.len() - i,
{
    if i >= args.len() {
        Ok((dir, file))
    } else {
        let a = args[i];
        if a == "-C"@ || a == "--config-dir"@ {
            if i + 1 < args.len() {
                spec_parse_args(args, i + 2, args[i + 1], file)
            } else {
                Err(SpecArgError::MissingValue(a))
            }
        } else if a == "-c"@ || a == "--config-file"@ {
            if i + 1 < args.len() {
                spec_parse_args(args, i + 2, dir, Some(args[i + 1]))
            } else {
                Err(SpecArgError::MissingValue(a))
            }
        } else {
            Err(SpecArgError::Unknown(a))
        }
    }
}

impl Arguments {
    /// Parse an argument list (the first entry being the program
    /// name): `-C`/`--config-dir` name the configuration directory,
    /// `-c`/`--config-file` a single configuration file.
    pub fn parse(args: &Vec<String>) -> (r: Result<Arguments, ArgError>)
        ensures
            ({
                let outcome = spec_parse_args(
                    args.deep_view(),
                    1,
                    spec_default_config_dir(),
                    None,
                );
                match r {
                    Ok(a) => outcome == Ok::<_, SpecArgError>(
                        (a.config_dir@, a.config_file.deep_view()),
                    ),
                    Err(ArgError::MissingValue(s)) => outcome == Err::<
                        (Seq<char>, Option<Seq<char>>),
                        _,
                    >(SpecArgError::MissingValue(s@)),
                    Err(ArgError::UnknownArgument(s)) => outcome == Err::<
                        (Seq<char>, Option<Seq<char>>),
                        _,
                    >(SpecArgError::Unknown(s@)),
                }
            }),
    {
        let mut dir: String = String::from_str("/etc/journald-broker.d");
        let mut file: Option<String> = None;
        let mut i: usize = 1;
        proof {
            assert(dir@ == spec_default_config_dir());
        }
        while i < args.len()
            invariant
                spec_parse_args(args.deep_view(), 1, spec_default_config_dir(), None)
                    == spec_parse_args(args.deep_view(), i as int, dir@, file.deep_view()),
            decreases args@.len() - i,
        {
            proof {
                assert(args.deep_view()[i as int] == args@[i as int]@);
                if i + 1 < args@.len() {
                    assert(args.deep_view()[i + 1] == args@[i + 1]@);
                }
            }
            let a = &args[i];
            if str_eq(a.as_str(), "-C") || str_eq(a.as_str(), "--config-dir") {
                if i + 1 < args.len() {
                    dir = args[i + 1].clone();
                    i = i + 2;
                } else {
                    return Err(ArgError::MissingValue(a.clone()));
                }
            } else if str_eq(a.as_str(), "-c") || str_eq(a.as_str(), "--config-file") {
                if i + 1 < args.len() {
                    file = Some(args[i + 1].clone());
                    i = i + 2;
                } else {
                    return Err(ArgError::MissingValue(a.clone()));
                }
            } else {
                return Err(ArgError::UnknownArgument(a.clone()));
            }
        }
        Ok(Arguments { config_dir: dir, config_file: file })
    }
}

} // verus!
