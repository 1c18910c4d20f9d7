//! Decisions for the thin command-line front end.
//!
//! The front end itself only reads: this module decides, from the argument
//! list alone, where the expression text comes from, so the decision is
//! verified even though the reading is not.

use vstd::prelude::*;
use vstd::string::StringExecFns;

use crate::nix::NixError;

verus! {

/// Where the expression text comes from.
#[derive(Debug)]
pub enum InputSource {
    /// No arguments: read standard input to the end.
    Stdin,
    /// One argument: read the file it names.
    File(String),
    /// `-e` and one more argument: that argument is the expression.
    Inline(String),
}

/// Diagnostic for a flag that is not `-e`.
pub open spec fn flag_err_msg(flag: Seq<char>) -> Seq<char> {
    "unrecognized flag "@ + flag
}

fn flag_err_msg_str(flag: &String) -> (r: String)
    ensures
        r@ == flag_err_msg(flag@),
{
    let mut s = String::from_str("unrecognized flag ");
    s.append(flag.as_str());
    s
}

/// Picks the input source from the argument list, program name included:
/// nothing — standard input; one argument — a file path; `-e` and one more
/// — inline text; any other shape is an argument error.
pub fn choose_input(args: &Vec<String>) -> (r: Result<InputSource, NixError>)
    ensures
        match r {
            Ok(src) => match src {
                InputSource::Stdin => args.deep_view().len() == 1,
                InputSource::File(p) => args.deep_view().len() == 2 && p@ == args.deep_view()[1],
                InputSource::Inline(e) => args.deep_view().len() == 3 && args.deep_view()[1]
                    == "-e"@ && e@ == args.deep_view()[2],
            },
            Err(e) => match e {
                NixError::ArgumentError { message } => (args.deep_view().len() == 3
                    && args.deep_view()[1] != "-e"@ && message@ == flag_err_msg(
                    args.deep_view()[1],
                )) || (!(1 <= args.deep_view().len() <= 3) && message@
                    == "unrecognized arguments"@),
                _ => false,
            },
        },
{
    if args.len() == 1 {
        Ok(InputSource::Stdin)
    } else if args.len() == 2 {
        Ok(InputSource::File(args[1].clone()))
    } else if args.len() == 3 {
        let e_flag = String::from_str("-e");
        if args[1].eq(&e_flag) {
            Ok(InputSource::Inline(args[2].clone()))
        } else {
            Err(NixError::ArgumentError { message: flag_err_msg_str(&args[1]) })
        }
    } else {
        Err(NixError::ArgumentError { message: String::from_str("unrecognized arguments") })
    }
}

/// The usage text for the front end to print on an argument error.
pub fn usage_text() -> (r: String)
    ensures
        r@ == "usage: nixwrap (| <FILE> | -e <EXPR>)\nwith no arguments, the expression is read from stdin\n"@,
{
    String::from_str(
        "usage: nixwrap (| <FILE> | -e <EXPR>)\nwith no arguments, the expression is read from stdin\n",
    )
}

} // verus!
