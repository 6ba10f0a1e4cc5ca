//! Colouring text for the terminal with ANSI escape sequences.
use vstd::prelude::*;

use crate::text::concat;

verus! {

/// `text` between the escape sequence `code` and the reset sequence.
pub open spec fn colored(code: Seq<char>, text: Seq<char>) -> Seq<char> {
    code + text + "\x1b[0m"@
}

/// Wraps `text` in the escape sequence `code` and the reset sequence.
fn wrap(code: &str, text: &str) -> (res: String)
    ensures
        res@ == colored(code@, text@),
{
    let a = concat(code, text);
    concat(a.as_str(), "\x1b[0m")
}

/// Text that can be coloured for the terminal.
pub trait Colorize {
    fn to_black(&self) -> String;
    fn to_red(&self) -> String;
    fn to_green(&self) -> String;
    fn to_yellow(&self) -> String;
    fn to_blue(&self) -> String;
    fn to_purple(&self) -> String;
    fn to_turquoise(&self) -> String;
    fn to_gray(&self) -> String;
    fn to_white(&self) -> String;
}

impl Colorize for str {
    fn to_black(&self) -> (res: String)
        ensures
            res@ == colored("\x1b[30m"@, self@),
    {
        wrap("\x1b[30m", self)
    }

    fn to_red(&self) -> (res: String)
        ensures
            res@ == colored("\x1b[31m"@, self@),
    {
        wrap("\x1b[31m", self)
    }

    fn to_green(&self) -> (res: String)
        ensures
            res@ == colored("\x1b[32m"@, self@),
    {
        wrap("\x1b[32m", self)
    }

    fn to_yellow(&self) -> (res: String)
        ensures
            res@ == colored("\x1b[33m"@, self@),
    {
        wrap("\x1b[33m", self)
    }

    fn to_blue(&self) -> (res: String)
        ensures
            res@ == colored("\x1b[34m"@, self@),
    {
        wrap("\x1b[34m", self)
    }

    fn to_purple(&self) -> (res: String)
        ensures
            res@ == colored("\x1b[35m"@, self@),
    {
        wrap("\x1b[35m", self)
    }

    fn to_turquoise(&self) -> (res: String)
        ensures
            res@ == colored("\x1b[36m"@, self@),
    {
        wrap("\x1b[36m", self)
    }

    fn to_gray(&self) -> (res: String)
        ensures
            res@ == colored("\x1b[37m"@, self@),
    {
        wrap("\x1b[37m", self)
    }

    fn to_white(&self) -> (res: String)
        ensures
            res@ == colored("\x1b[38m"@, self@),
    {
        wrap("\x1b[38m", self)
    }
}

} // verus!
