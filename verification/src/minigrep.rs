//! The configuration of a line search, built from command-line arguments.

use vstd::prelude::*;

verus! {

/// What to search for, where, and how.
pub struct Config {
    pub query: String,
    pub file_path: String,
    pub ignore_case: bool,
}

impl Config {
    /// Builds the configuration from the arguments of a command line. The
    /// first argument, the name of the program, is passed over; the second
    /// is the query and the third the path of the file. `ignore_case` says
    /// whether the search is to ignore case. Further arguments are ignored.
    pub fn build(args: Vec<String>, ignore_case: bool) -> (r: Result<Config, &'static str>)
        ensures
            match r {
                Ok(config) => {
                    &&& args@.len() >= 3
                    &&& config.query@ == args@[1]@
                    &&& config.file_path@ == args@[2]@
                    &&& config.ignore_case == ignore_case
                },
                Err(message) => {
                    ||| args@.len() < 2 && message@ == "Didn't get query string"@
                    ||| args@.len() == 2 && message@ == "Didn't get file path"@
                },
            },
    {
        let mut args = args;
        if args.len() < 2 {
            return Err("Didn't get query string");
        }
        if args.len() < 3 {
            return Err("Didn't get file path");
        }
        let file_path = args.remove(2);
        let query = args.remove(1);
        Ok(Config { query, file_path, ignore_case })
    }
}

} // verus!
