//! The command dispatcher: what a single command-line argument asks for,
//! the static help text, and the fixed destination path.

use vstd::prelude::*;

use crate::errors::AppErr;
use crate::text::trim_str;
use crate::text::trimmed;

verus! {

/// What an invocation asks the tool to do.
pub enum Command {
    /// Print the help text.
    Help,
    /// Copy the file at the carried path over the configuration file and
    /// report the profile it holds.
    Swap(String),
}

/// The token that asks for help.
pub open spec fn help_flag() -> Seq<char> {
    "-h"@
}

/// The static help text, word for word.
pub open spec fn help_body() -> Seq<char> {
    "gitp is a simple tool to switch between your git profiles.\n\nCommands:\n\n-h            Check all the commands and usage.\n{filename}    Pass the name of that you want to be swapped with your current .gitconfig\n"@
}

/// The help text the help flag prints.
pub fn help_text() -> (r: String)
    ensures
        r@ == help_body(),
{
    String::from_str(
        "gitp is a simple tool to switch between your git profiles.\n\nCommands:\n\n-h            Check all the commands and usage.\n{filename}    Pass the name of that you want to be swapped with your current .gitconfig\n",
    )
}

/// The fixed destination: the configuration file in the working directory
/// that every swap overwrites.
pub fn git_conf_path() -> (r: &'static str)
    ensures
        r@ == ".gitconfig"@,
{
    ".gitconfig"
}

/// Decide what the command-line argument asks for.
///
/// No argument is rejected; an argument whose trimmed form is the help flag
/// asks for help; any other argument is taken as the path of the profile
/// file to swap in, trimmed of surrounding whitespace.
pub fn dispatch(arg: Option<String>) -> (r: Result<Command, AppErr>)
    ensures
        match arg {
            Option::None => r is Err && r->Err_0 is CommandLineArgs,
            Option::Some(a) => r is Ok && (if trimmed(a@) == help_flag() {
                r->Ok_0 is Help
            } else {
                r->Ok_0 is Swap && r->Ok_0->0@ == trimmed(a@)
            }),
        },
{
    match arg {
        None => Err(AppErr::CommandLineArgs),
        Some(a) => {
            let t = trim_str(a.as_str());
            let flag = String::from_str("-h");
            if t.eq(&flag) {
                Ok(Command::Help)
            } else {
                Ok(Command::Swap(t))
            }
        },
    }
}

} // verus!
