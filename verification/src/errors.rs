//! The tool's error taxonomy and the one-line message each error prints as.

use vstd::prelude::*;

verus! {

/// Every way an invocation can fail. The three I/O variants carry the
/// rendering of the underlying I/O error, supplied by the caller that
/// performed the I/O.
#[derive(Debug)]
pub enum AppErr {
    /// No argument was supplied on the command line.
    CommandLineArgs,
    /// Copying the source file over the configuration file failed.
    FileCopyErr(String),
    /// Re-opening the source file for parsing failed.
    FileOpenErr(String),
    /// Reading a line of the source file failed.
    FileLineReadErr(String),
    /// The source file holds no name line or no email line.
    FileNameOrEmailMissing,
}

/// The message that `e` is reported with.
pub open spec fn err_text(e: AppErr) -> Seq<char> {
    match e {
        AppErr::CommandLineArgs => "Please provide a valid argument. Use -h to understand more."@,
        AppErr::FileCopyErr(s) => "Error copying file: "@ + s@,
        AppErr::FileOpenErr(s) => "Error opening file: "@ + s@,
        AppErr::FileLineReadErr(s) => "Error reading file: "@ + s@,
        AppErr::FileNameOrEmailMissing => "Name or email is missing."@,
    }
}

fn prefixed(prefix: &str, tail: &String) -> (r: String)
    ensures
        r@ == prefix@ + tail@,
{
    let mut r = String::from_str(prefix);
    r.append(tail.as_str());
    r
}

impl AppErr {
    /// The human-readable line this error is rendered as.
    pub fn message(&self) -> (r: String)
        ensures
            r@ == err_text(*self),
    {
        match self {
            AppErr::CommandLineArgs => String::from_str(
                "Please provide a valid argument. Use -h to understand more.",
            ),
            AppErr::FileCopyErr(s) => prefixed("Error copying file: ", s),
            AppErr::FileOpenErr(s) => prefixed("Error opening file: ", s),
            AppErr::FileLineReadErr(s) => prefixed("Error reading file: ", s),
            AppErr::FileNameOrEmailMissing => String::from_str("Name or email is missing."),
        }
    }
}

} // verus!
