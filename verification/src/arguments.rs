//! The arguments of an invocation.

use vstd::prelude::*;

verus! {

/// What an invocation is called with.
#[derive(Debug)]
pub struct Arguments {
    /// The target directory of the dispatcher project.
    pub bin_base: String,
    /// The list of requested dependencies, as text.
    pub deps_json: String,
    /// Whether an unchanged dependency set ends the invocation early.
    pub check_changes: bool,
}

/// Too few arguments were given.
#[derive(Debug)]
pub struct InvalidArgs;

/// What [`InvalidArgs`] says.
pub const USAGE: &'static str =
    "Invilad arguments. Usage: cargo run --release bin_base check_changes\n";

impl InvalidArgs {
    /// The message for the user.
    pub fn message(&self) -> (text: String)
        ensures
            text@ == USAGE@,
    {
        String::from_str(USAGE)
    }
}

impl Arguments {
    /// Reads the arguments that follow the program's name: the target
    /// directory, the dependency list, and the change-check flag, which is
    /// on where it reads `true` and off where it reads anything else.
    /// Arguments behind the third are not looked at.
    pub fn parse(args: &Vec<String>) -> (parsed: Result<Arguments, InvalidArgs>)
        ensures
            parsed is Ok <==> args@.len() >= 3,
            parsed matches Ok(arguments) ==> {
                &&& arguments.bin_base@ == args@[0]@
                &&& arguments.deps_json@ == args@[1]@
                &&& arguments.check_changes == (args@[2]@ == "true"@)
            },
    {
        if args.len() < 3 {
            return Err(InvalidArgs);
        }
        let flag = String::from_str("true");
        Ok(
            Arguments {
                bin_base: args[0].clone(),
                deps_json: args[1].clone(),
                check_changes: args[2] == flag,
            },
        )
    }
}

} // verus!
