//! A command of a `.test` file, as handed to a command handler.

use vstd::prelude::*;

verus! {

#[derive(Debug, Clone)]
pub struct Command {
    pub name: String,
    pub args: String,
    pub line: usize,
}

impl Default for Command {
    fn default() -> (res: Self)
        ensures
            res.name@.len() == 0,
            res.args@.len() == 0,
            res.line == 0,
    {
        Command { name: String::new(), args: String::new(), line: 0 }
    }
}

impl Command {
    /// A command with the given name, arguments and line.
    pub fn new(name: &str, args: &str, line: usize) -> (res: Self)
        ensures
            res.name@ == name@,
            res.args@ == args@,
            res.line == line,
    {
        Command { name: String::from_str(name), args: String::from_str(args), line }
    }

    /// Whether the command has the given name.
    pub fn is_type(&self, cmd_type: &str) -> (res: bool)
        ensures
            res == (self.name@ == cmd_type@),
    {
        let other = String::from_str(cmd_type);
        self.name == other
    }

    pub fn get_name(&self) -> (res: &str)
        ensures
            res@ == self.name@,
    {
        self.name.as_str()
    }

    pub fn get_args(&self) -> (res: &str)
        ensures
            res@ == self.args@,
    {
        self.args.as_str()
    }

    pub fn get_line(&self) -> (res: usize)
        ensures
            res == self.line,
    {
        self.line
    }
}

} // verus!
