use vstd::prelude::*;
use vstd::string::*;
use crate::config::Config;

verus! {

/// How a link is made: a hard link for a file, a junction for anything else.
#[derive(Debug, Clone, Copy, PartialEq, Eq, Structural)]
pub enum LinkMode {
    Hard,
    Junction,
}

/// The mode that an entry's kind selects: hard for exactly `"file"`.
pub open spec fn link_mode_spec(kind: Seq<char>) -> LinkMode {
    if kind == "file"@ {
        LinkMode::Hard
    } else {
        LinkMode::Junction
    }
}

impl LinkMode {
    /// The switch of the link command that selects this mode.
    pub open spec fn flag_spec(self) -> Seq<char> {
        match self {
            LinkMode::Hard => "/H"@,
            LinkMode::Junction => "/J"@,
        }
    }

    /// The switch of the link command that selects this mode.
    pub fn flag(&self) -> (r: String)
        ensures
            r@ == self.flag_spec(),
    {
        match self {
            LinkMode::Hard => String::from_str("/H"),
            LinkMode::Junction => String::from_str("/J"),
        }
    }
}

/// Selects the link mode for an entry's kind: `Hard` when the kind is
/// `"file"`, `Junction` for every other string.
pub fn link_mode(kind: &String) -> (r: LinkMode)
    ensures
        r == link_mode_spec(kind@),
        (r == LinkMode::Hard) <==> kind@ == "file"@,
        (r == LinkMode::Junction) <==> kind@ != "file"@,
{
    if *kind == String::from_str("file") {
        LinkMode::Hard
    } else {
        LinkMode::Junction
    }
}

/// A program to run and the arguments to hand it.
#[derive(Debug, Clone)]
pub struct LinkCommand {
    pub program: String,
    pub args: Vec<String>,
}

/// The shell through which the link command runs.
pub open spec fn link_program_spec() -> Seq<char> {
    "cmd /c"@
}

/// The command that creates the link of `config`: `mklink`, the mode's
/// switch, then the dotfile's path and the link's path, in that order.
pub fn link_command(config: &Config) -> (r: LinkCommand)
    ensures
        r.program@ == link_program_spec(),
        r.args@.len() == 4,
        r.args@[0]@ == "mklink"@,
        r.args@[1]@ == link_mode_spec(config.l_type@).flag_spec(),
        r.args@[2]@ == config.dot_path@,
        r.args@[3]@ == config.loc_path@,
{
    let mode = link_mode(&config.l_type);
    let mut args: Vec<String> = Vec::new();
    args.push(String::from_str("mklink"));
    args.push(mode.flag());
    args.push(config.dot_path.clone());
    args.push(config.loc_path.clone());
    LinkCommand { program: String::from_str("cmd /c"), args }
}

} // verus!
