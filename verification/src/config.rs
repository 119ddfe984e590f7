//! The settings of the file viewer, taken from its command line.
use vstd::prelude::*;
use vstd::string::*;

verus! {

/// What to look for, and in which file.
pub struct Config {
    pub query: String,
    pub filename: String,
}

impl Config {
    /// Reads the settings from the words of a command line: the word behind
    /// the program's name is the query, the next one the name of the file.
    /// Fewer than three words are not enough.
    pub fn new(args: &Vec<String>) -> (result: Result<Config, &'static str>)
        ensures
            result is Err <==> args@.len() < 3,
            result is Err ==> result->Err_0@ == "not enough arguments"@,
            result is Ok ==> result->Ok_0.query@ == args@[1]@ && result->Ok_0.filename@
                == args@[2]@,
    {
        if args.len() < 3 {
            return Err("not enough arguments");
        }
        let query = args[1].clone();
        let filename = args[2].clone();
        Ok(Config { query, filename })
    }
}

} // verus!
