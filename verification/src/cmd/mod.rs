//! The commands of the program and the options that they share.

use crate::cmd::program::Program;
use vstd::prelude::*;

pub mod create;
pub mod program;

verus! {

/// What the user asks the program to do.
#[derive(Clone, Debug, PartialEq, Eq)]
pub enum Command {
    Claim,
    Deploy,
    Info,
    Key,
    Login,
    Meta,
    New,
    Program(Program),
    Reply,
    Send,
    Submit,
    Transfer,
    Update,
}

/// The options of every run.
#[derive(Clone, Debug, PartialEq, Eq)]
pub struct Opt {
    /// The command to run.
    pub command: Command,
    /// Whether verbose logs are asked for.
    pub verbose: bool,
    /// The node's rpc endpoint, where it is not the default one.
    pub endpoint: Option<String>,
    /// The password of the signer's account.
    pub passwd: Option<String>,
}

impl Command {
    /// The command talks to a node, so that a client has to be connected for it.
    pub open spec fn needs_node(&self) -> bool {
        match *self {
            Command::Claim => true,
            Command::Deploy => true,
            Command::Info => true,
            Command::Program(_) => true,
            Command::Reply => true,
            Command::Send => true,
            Command::Submit => true,
            Command::Transfer => true,
            Command::Key => false,
            Command::Login => false,
            Command::Meta => false,
            Command::New => false,
            Command::Update => false,
        }
    }

    /// Whether the command talks to a node.
    pub fn connects(&self) -> (yes: bool)
        ensures
            yes == self.needs_node(),
    {
        match self {
            Command::Key | Command::Login | Command::Meta | Command::New | Command::Update => false,
            _ => true,
        }
    }
}

impl Opt {
    /// The log filter to set before logging starts: `debug` where verbose logs are
    /// asked for and the environment has no filter of its own (`configured`), none
    /// otherwise.
    pub fn log_filter(&self, configured: bool) -> (filter: Option<&'static str>)
        ensures
            filter is Some <==> self.verbose && !configured,
            filter matches Some(level) ==> level@ == "debug"@,
    {
        if self.verbose && !configured {
            Some("debug")
        } else {
            None
        }
    }
}

} // verus!
