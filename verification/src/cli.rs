//! The command surface: a closed set of command kinds, each with the
//! label it reports under, and the liveness-check action's record. The
//! dispatch loop, argument parsing and exit codes live outside the
//! library.

use vstd::prelude::*;

verus! {

/// The closed set of subcommands.
#[derive(Debug, PartialEq, Eq, Hash, Clone, Copy, Structural)]
pub enum Command {
    Restaurants,
    Meals,
    Up,
    Bootstrap,
    Ping,
}

/// The label a command reports under.
pub open spec fn spec_command_label(c: Command) -> Seq<char> {
    match c {
        Command::Restaurants => "restaurants"@,
        Command::Meals => "meals"@,
        Command::Up => "up"@,
        Command::Ping => "ping"@,
        Command::Bootstrap => "bootstrap"@,
    }
}

impl Command {
    pub fn as_str(&self) -> (r: &str)
        ensures
            r@ == spec_command_label(*self),
    {
        match *self {
            Self::Restaurants => "restaurants",
            Self::Meals => "meals",
            Self::Up => "up",
            Self::Ping => "ping",
            Self::Bootstrap => "bootstrap",
        }
    }
}

/// The parsed invocation: the chosen subcommand and whether a liveness
/// check runs first.
#[derive(Debug, PartialEq, Eq, Clone, Copy, Structural)]
pub struct App {
    pub action: Command,
    pub ping: bool,
}

/// The liveness check against the source site: it holds the URL to probe;
/// the probe itself is I/O and stays outside the library.
#[derive(Debug, PartialEq)]
pub struct PingAction {
    pub url: String,
}

impl PingAction {
    pub fn new(url: &str) -> (s: Self)
        ensures
            s.url@ == url@,
    {
        PingAction { url: url.to_owned() }
    }
}

} // verus!
