use vstd::prelude::*;

verus! {

/// What one search is asked to do.
#[derive(Debug, Default)]
pub struct Config {
    /// The text searched for.
    pub query: String,
    /// The path of the file searched.
    pub filename: String,
    /// Whether lines are compared character for character, rather than in lower case.
    pub case_sensitive: bool,
}

/// Why a configuration could not be made.
#[derive(Debug, Clone, Copy, PartialEq, Eq, Structural)]
pub enum ConfigError {
    /// The argument list lacks the query or the file name.
    InsufficientArguments,
}

impl ConfigError {
    /// A description of the error for the user.
    pub fn message(&self) -> (r: &'static str)
        ensures
            r@ == "not enough arguments"@,
    {
        match self {
            ConfigError::InsufficientArguments => "not enough arguments",
        }
    }
}

impl Config {
    /// Reads a configuration from an argument list: the program's name, then
    /// the query, then the file name; further arguments are ignored.
    /// `case_insensitive` tells whether the environment asks for lines to be
    /// compared in lower case (`CASE_INSENSITIVE` is set, to any value).
    pub fn new(args: &[String], case_insensitive: bool) -> (r: Result<Config, ConfigError>)
        ensures
            r is Err <==> args@.len() < 3,
            r matches Err(e) ==> e == ConfigError::InsufficientArguments,
            r matches Ok(c) ==> {
                &&& c.query@ == args@[1]@
                &&& c.filename@ == args@[2]@
                &&& c.case_sensitive == !case_insensitive
            },
    {
        if args.len() < 3 {
            return Err(ConfigError::InsufficientArguments);
        }
        Ok(
            Config {
                query: args[1].clone(),
                filename: args[2].clone(),
                case_sensitive: !case_insensitive,
            },
        )
    }
}

} // verus!
