//! Resolving the arguments of the line-search tool into a configuration.
//!
//! The first argument names the program and is passed over. The next two
//! are the query and the path of the file to search. Each argument after
//! them that is a case flag sets whether the search tells upper from lower
//! case; the last one decides. Without a case flag, a default decides that
//! the caller hands in.

use vstd::prelude::*;
use crate::arg::{bool_complaint, complaint, flag_bool, Arg};
use crate::text::{contains, contains_char, has_char, has_substring};

verus! {

/// What to search for, where, and how.
#[derive(Debug, PartialEq, Eq)]
pub struct Config {
    /// The text that a matching line holds.
    pub query: String,
    /// The path of the file to search.
    pub path: String,
    /// Whether upper and lower case differ in the search.
    pub case_sensitive: bool,
}

/// A configuration as plain values.
pub struct ConfigModel {
    pub query: Seq<char>,
    pub path: Seq<char>,
    pub case_sensitive: bool,
}

impl View for Config {
    type V = ConfigModel;

    open spec fn view(&self) -> ConfigModel {
        ConfigModel {
            query: self.query@,
            path: self.path@,
            case_sensitive: self.case_sensitive,
        }
    }
}

/// Why a list of arguments gives no configuration.
#[derive(Debug, PartialEq, Eq)]
pub enum ConfigError {
    /// No argument follows the program's name.
    MissingQuery,
    /// One argument follows the program's name: a query without a path.
    MissingPath,
    /// The value of a case flag is neither `true` nor `false`.
    InvalidBooleanFlag {
        /// The argument as it was given.
        flag_text: String,
    },
}

/// A failure as plain values.
pub enum ConfigErrorModel {
    MissingQuery,
    MissingPath,
    InvalidBooleanFlag { flag_text: Seq<char> },
}

impl View for ConfigError {
    type V = ConfigErrorModel;

    open spec fn view(&self) -> ConfigErrorModel {
        match self {
            ConfigError::MissingQuery => ConfigErrorModel::MissingQuery,
            ConfigError::MissingPath => ConfigErrorModel::MissingPath,
            ConfigError::InvalidBooleanFlag { flag_text } => ConfigErrorModel::InvalidBooleanFlag {
                flag_text: flag_text@,
            },
        }
    }
}

/// What a failure says to the user.
pub open spec fn error_text(error: ConfigErrorModel) -> Seq<char> {
    match error {
        ConfigErrorModel::MissingQuery => "no query provided"@,
        ConfigErrorModel::MissingPath => "no path provided"@,
        ConfigErrorModel::InvalidBooleanFlag { flag_text } => bool_complaint(flag_text),
    }
}

impl ConfigError {
    /// The message for the user: it names what was expected.
    pub fn message(&self) -> (text: String)
        ensures
            text@ == error_text(self@),
    {
        match self {
            ConfigError::MissingQuery => "no query provided".to_owned(),
            ConfigError::MissingPath => "no path provided".to_owned(),
            ConfigError::InvalidBooleanFlag { flag_text } => complaint(flag_text.as_str()),
        }
    }
}

/// `arg` is a case flag: it holds a hyphen, and `match` and `case` are both
/// parts of it, wherever they stand.
pub open spec fn is_case_flag(arg: Seq<char>) -> bool {
    &&& has_char(arg, '-')
    &&& has_substring(arg, "match"@)
    &&& has_substring(arg, "case"@)
}

/// Whether `arg` is a case flag.
pub fn names_case_flag(arg: &str) -> (named: bool)
    ensures
        named == is_case_flag(arg@),
{
    contains_char(arg, '-') && contains(arg, "match") && contains(arg, "case")
}

/// The case setting after the arguments `flags`, read from left to right
/// and starting from `default`: each case flag replaces the setting by its
/// truth value. `Err` holds the first case flag whose value spells no truth
/// value; nothing after it is read.
pub open spec fn scan_flags(flags: Seq<Seq<char>>, default: bool) -> Result<bool, Seq<char>>
    decreases flags.len(),
{
    if flags.len() == 0 {
        Ok(default)
    } else {
        match scan_flags(flags.drop_last(), default) {
            Err(flag) => Err(flag),
            Ok(so_far) => {
                let flag = flags.last();
                if !is_case_flag(flag) {
                    Ok(so_far)
                } else {
                    match flag_bool(flag) {
                        Some(value) => Ok(value),
                        None => Err(flag),
                    }
                }
            },
        }
    }
}

/// What the arguments `args` resolve to, with `default` as the case setting
/// where no flag sets it.
pub open spec fn resolved(args: Seq<Seq<char>>, default: bool) -> Result<
    ConfigModel,
    ConfigErrorModel,
> {
    if args.len() < 2 {
        Err(ConfigErrorModel::MissingQuery)
    } else if args.len() < 3 {
        Err(ConfigErrorModel::MissingPath)
    } else {
        match scan_flags(args.skip(3), default) {
            Ok(case_sensitive) => Ok(
                ConfigModel { query: args[1], path: args[2], case_sensitive },
            ),
            Err(flag_text) => Err(ConfigErrorModel::InvalidBooleanFlag { flag_text }),
        }
    }
}

/// The texts of the arguments `args`.
pub open spec fn arg_texts(args: Seq<String>) -> Seq<Seq<char>> {
    args.map_values(|arg: String| arg@)
}

/// An outcome of [`Config::from_args`] as plain values.
pub open spec fn outcome_model(outcome: Result<Config, ConfigError>) -> Result<
    ConfigModel,
    ConfigErrorModel,
> {
    match outcome {
        Ok(config) => Ok(config@),
        Err(error) => Err(error@),
    }
}

/// A scan that has failed stays failed, whatever follows.
pub proof fn lemma_scan_failure_stays(flags: Seq<Seq<char>>, default: bool, k: int)
    requires
        0 <= k <= flags.len(),
        scan_flags(flags.take(k), default) is Err,
    ensures
        scan_flags(flags, default) == scan_flags(flags.take(k), default),
    decreases flags.len() - k,
{
    if k < flags.len() {
        assert(flags.take(k + 1).drop_last() =~= flags.take(k));
        lemma_scan_failure_stays(flags, default, k + 1);
    } else {
        assert(flags.take(k) =~= flags);
    }
}

/// Arguments without a case flag leave the default in place.
pub proof fn lemma_scan_without_case_flag(flags: Seq<Seq<char>>, default: bool)
    requires
        forall|i: int| 0 <= i < flags.len() ==> !is_case_flag(#[trigger] flags[i]),
    ensures
        scan_flags(flags, default) == Ok::<bool, Seq<char>>(default),
    decreases flags.len(),
{
    if flags.len() > 0 {
        lemma_scan_without_case_flag(flags.drop_last(), default);
    }
}

/// Where every case flag spells a truth value, the scan succeeds; and where
/// `last` is the place of the last case flag, its value is the outcome.
pub proof fn lemma_scan_last_flag_wins(flags: Seq<Seq<char>>, default: bool, last: int)
    requires
        0 <= last < flags.len(),
        is_case_flag(flags[last]),
        forall|i: int| last < i < flags.len() ==> !is_case_flag(#[trigger] flags[i]),
        forall|i: int|
            0 <= i < flags.len() && is_case_flag(#[trigger] flags[i]) ==> flag_bool(flags[i])
                is Some,
    ensures
        scan_flags(flags, default) == Ok::<bool, Seq<char>>(flag_bool(flags[last])->0),
    decreases flags.len(),
{
    lemma_scan_succeeds(flags.drop_last(), default);
    if last < flags.len() - 1 {
        lemma_scan_last_flag_wins(flags.drop_last(), default, last);
    }
}

/// Where every case flag spells a truth value, the scan succeeds.
pub proof fn lemma_scan_succeeds(flags: Seq<Seq<char>>, default: bool)
    requires
        forall|i: int|
            0 <= i < flags.len() && is_case_flag(#[trigger] flags[i]) ==> flag_bool(flags[i])
                is Some,
    ensures
        scan_flags(flags, default) is Ok,
    decreases flags.len(),
{
    if flags.len() > 0 {
        lemma_scan_succeeds(flags.drop_last(), default);
    }
}

/// The scan fails with the first case flag whose value spells no truth
/// value.
pub proof fn lemma_scan_first_invalid_flag(flags: Seq<Seq<char>>, default: bool, first: int)
    requires
        0 <= first < flags.len(),
        is_case_flag(flags[first]),
        flag_bool(flags[first]) is None,
        forall|i: int|
            0 <= i < first && is_case_flag(#[trigger] flags[i]) ==> flag_bool(flags[i]) is Some,
    ensures
        scan_flags(flags, default) == Err::<bool, Seq<char>>(flags[first]),
{
    let upto = flags.take(first + 1);
    assert(upto.drop_last() =~= flags.take(first));
    lemma_scan_succeeds(flags.take(first), default);
    lemma_scan_failure_stays(flags, default, first + 1);
}

/// With fewer than two arguments after the program's name nothing is
/// resolved: the query is missing where there is none, the path where there
/// is one.
pub proof fn lemma_too_few_arguments(args: Seq<Seq<char>>, default: bool)
    requires
        args.len() < 3,
    ensures
        args.len() < 2 ==> resolved(args, default) == Err::<ConfigModel, ConfigErrorModel>(
            ConfigErrorModel::MissingQuery,
        ),
        args.len() == 2 ==> resolved(args, default) == Err::<ConfigModel, ConfigErrorModel>(
            ConfigErrorModel::MissingPath,
        ),
{
}

/// With a query, a path and no case flag after them, the arguments resolve,
/// and the case setting is the default.
pub proof fn lemma_default_without_case_flag(args: Seq<Seq<char>>, default: bool)
    requires
        args.len() >= 3,
        forall|i: int| 3 <= i < args.len() ==> !is_case_flag(#[trigger] args[i]),
    ensures
        resolved(args, default) == Ok::<ConfigModel, ConfigErrorModel>(
            ConfigModel { query: args[1], path: args[2], case_sensitive: default },
        ),
{
    let flags = args.skip(3);
    assert forall|i: int| 0 <= i < flags.len() implies !is_case_flag(#[trigger] flags[i]) by {}
    lemma_scan_without_case_flag(flags, default);
}

/// The case setting of a resolved configuration is the value of the last
/// case flag, whatever the default.
pub proof fn lemma_last_case_flag_decides(args: Seq<Seq<char>>, default: bool, last: int)
    requires
        3 <= last < args.len(),
        is_case_flag(args[last]),
        forall|i: int| last < i < args.len() ==> !is_case_flag(#[trigger] args[i]),
        forall|i: int|
            3 <= i < args.len() && is_case_flag(#[trigger] args[i]) ==> flag_bool(args[i])
                is Some,
    ensures
        resolved(args, default) == Ok::<ConfigModel, ConfigErrorModel>(
            ConfigModel {
                query: args[1],
                path: args[2],
                case_sensitive: flag_bool(args[last])->0,
            },
        ),
{
    let flags = args.skip(3);
    assert forall|i: int| last - 3 < i < flags.len() implies !is_case_flag(
        #[trigger] flags[i],
    ) by {}
    assert forall|i: int| 0 <= i < flags.len() && is_case_flag(#[trigger] flags[i]) implies
        flag_bool(flags[i]) is Some by {}
    lemma_scan_last_flag_wins(flags, default, last - 3);
}

/// Resolution fails with the first case flag whose value spells no truth
/// value, and names it.
pub proof fn lemma_invalid_case_flag_fails(args: Seq<Seq<char>>, default: bool, first: int)
    requires
        3 <= first < args.len(),
        is_case_flag(args[first]),
        flag_bool(args[first]) is None,
        forall|i: int|
            3 <= i < first && is_case_flag(#[trigger] args[i]) ==> flag_bool(args[i]) is Some,
    ensures
        resolved(args, default) == Err::<ConfigModel, ConfigErrorModel>(
            ConfigErrorModel::InvalidBooleanFlag { flag_text: args[first] },
        ),
{
    let flags = args.skip(3);
    assert forall|i: int| 0 <= i < first - 3 && is_case_flag(#[trigger] flags[i]) implies
        flag_bool(flags[i]) is Some by {}
    lemma_scan_first_invalid_flag(flags, default, first - 3);
}

impl Config {
    /// Resolves the arguments `args` of the program, the program's name
    /// first. `default_case_sensitive` is the case setting where no case
    /// flag sets it.
    pub fn from_args(args: &[String], default_case_sensitive: bool) -> (outcome: Result<
        Config,
        ConfigError,
    >)
        ensures
            outcome_model(outcome) == resolved(arg_texts(args@), default_case_sensitive),
            args.len() < 2 ==> outcome == Err::<Config, ConfigError>(ConfigError::MissingQuery),
            args.len() == 2 ==> outcome == Err::<Config, ConfigError>(ConfigError::MissingPath),
            args.len() >= 3 ==> (outcome matches Ok(config) ==> config.query == args[1]
                && config.path == args[2]),
    {
        if args.len() < 2 {
            return Err(ConfigError::MissingQuery);
        }
        if args.len() < 3 {
            return Err(ConfigError::MissingPath);
        }
        let ghost flags = arg_texts(args@).skip(3);
        let mut case_sensitive = default_case_sensitive;
        let mut i: usize = 3;
        while i < args.len()
            invariant
                3 <= i <= args.len(),
                flags == arg_texts(args@).skip(3),
                scan_flags(flags.take(i - 3), default_case_sensitive) == Ok::<bool, Seq<char>>(
                    case_sensitive,
                ),
            decreases args.len() - i,
        {
            proof {
                assert(flags.take(i - 2).drop_last() =~= flags.take(i - 3));
            }
            if names_case_flag(args[i].as_str()) {
                match args[i].get_bool() {
                    Ok(value) => {
                        case_sensitive = value;
                    },
                    Err(_) => {
                        proof {
                            lemma_scan_failure_stays(flags, default_case_sensitive, i - 2);
                        }
                        return Err(ConfigError::InvalidBooleanFlag { flag_text: args[i].clone() });
                    },
                }
            }
            i += 1;
        }
        assert(flags.take(i - 3) =~= flags);
        Ok(Config { query: args[1].clone(), path: args[2].clone(), case_sensitive })
    }
}

} // verus!
