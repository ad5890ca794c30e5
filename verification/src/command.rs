//! An external program invocation, as the library hands it to the caller to run.
use vstd::prelude::*;

verus! {

/// A program name and its arguments.
#[derive(Debug, Clone)]
pub struct SystemCommand {
    pub program: String,
    pub args: Vec<String>,
}

/// The character views of a sequence of strings.
pub open spec fn strings_view(v: Seq<String>) -> Seq<Seq<char>> {
    v.map_values(|s: String| s@)
}

impl SystemCommand {
    /// The command runs `program` with exactly the arguments `args`.
    pub open spec fn is(self, program: Seq<char>, args: Seq<Seq<char>>) -> bool {
        self.program@ == program && strings_view(self.args@) == args
    }
}

/// A string with the characters of the literal `s`.
pub fn owned(s: &str) -> (res: String)
    ensures
        res@ == s@,
{
    s.to_owned()
}

/// A command from a program name and arguments.
pub fn command(program: &str, args: Vec<String>) -> (c: SystemCommand)
    ensures
        c.program@ == program@,
        c.args == args,
{
    SystemCommand { program: owned(program), args }
}

} // verus!
