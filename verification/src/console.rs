//! The console's decisions.
//!
//! The interactive loop — line editing, history display, printing — is a
//! thin collaborator around the library.  What it decides is here: which
//! command a tokenized input line denotes, and which provider serves the
//! current endpoint.

use vstd::prelude::*;

use crate::ViewerError;
use crate::browser::ProviderKind;
use crate::browser::is_http_url;
use crate::browser::spec_provider_of;

verus! {

/// One console command, as parsed from a tokenized input line.
pub enum Command {
    /// An empty input line; the console just prompts again.
    Empty,
    /// `ls [path]`; without an argument the path is empty.
    Ls { path: String },
    /// `set_endpoint <directory>`; `None` when the argument is missing.
    SetEndpoint { endpoint: Option<String> },
    /// `cd <directory>`; `None` when the argument is missing.
    Cd { path: Option<String> },
    /// `pwd`.
    Pwd,
    /// `view <file>`; `None` when the argument is missing.
    View { path: Option<String> },
    /// `history`.
    History,
    /// `help`.
    Help,
    /// `exit`.
    Exit,
    /// Anything else; the console reports the unknown name.
    Unknown { name: String },
}

/// Parse a tokenized input line into the command it denotes.
///
/// The first token names the command; `ls` takes an optional path
/// argument (empty when absent), `set_endpoint`, `cd` and `view` take
/// one argument each and report its absence, and any unrecognized first
/// token is `Unknown`.
pub fn parse_command(args: &Vec<String>) -> (r: Command)
    ensures
        ({
            let a = args.deep_view();
            match r {
                Command::Empty => a.len() == 0,
                Command::Ls { path } => a.len() >= 1 && a[0] == "ls"@ && path@ == (if a.len() > 1 {
                    a[1]
                } else {
                    Seq::<char>::empty()
                }),
                Command::SetEndpoint { endpoint } => a.len() >= 1 && a[0] == "set_endpoint"@
                    && (match endpoint {
                    Some(e) => a.len() > 1 && e@ == a[1],
                    None => a.len() == 1,
                }),
                Command::Cd { path } => a.len() >= 1 && a[0] == "cd"@ && (match path {
                    Some(p) => a.len() > 1 && p@ == a[1],
                    None => a.len() == 1,
                }),
                Command::Pwd => a.len() >= 1 && a[0] == "pwd"@,
                Command::View { path } => a.len() >= 1 && a[0] == "view"@ && (match path {
                    Some(p) => a.len() > 1 && p@ == a[1],
                    None => a.len() == 1,
                }),
                Command::History => a.len() >= 1 && a[0] == "history"@,
                Command::Help => a.len() >= 1 && a[0] == "help"@,
                Command::Exit => a.len() >= 1 && a[0] == "exit"@,
                Command::Unknown { name } => a.len() >= 1 && name@ == a[0] && a[0] != "ls"@ && a[0]
                    != "set_endpoint"@ && a[0] != "cd"@ && a[0] != "pwd"@ && a[0] != "view"@ && a[0]
                    != "history"@ && a[0] != "help"@ && a[0] != "exit"@,
            }
        }),
{
    if args.len() == 0 {
        return Command::Empty;
    }
    proof {
        assert(args.deep_view()[0] == args@[0].deep_view());
        if args@.len() > 1 {
            assert(args.deep_view()[1] == args@[1].deep_view());
        }
    }
    let head = &args[0];
    if head.eq(&String::from_str("ls")) {
        let path = if args.len() > 1 {
            args[1].clone()
        } else {
            String::new()
        };
        Command::Ls { path }
    } else if head.eq(&String::from_str("set_endpoint")) {
        let endpoint = if args.len() > 1 {
            Some(args[1].clone())
        } else {
            None
        };
        Command::SetEndpoint { endpoint }
    } else if head.eq(&String::from_str("cd")) {
        let path = if args.len() > 1 {
            Some(args[1].clone())
        } else {
            None
        };
        Command::Cd { path }
    } else if head.eq(&String::from_str("pwd")) {
        Command::Pwd
    } else if head.eq(&String::from_str("view")) {
        let path = if args.len() > 1 {
            Some(args[1].clone())
        } else {
            None
        };
        Command::View { path }
    } else if head.eq(&String::from_str("history")) {
        Command::History
    } else if head.eq(&String::from_str("help")) {
        Command::Help
    } else if head.eq(&String::from_str("exit")) {
        Command::Exit
    } else {
        Command::Unknown { name: head.clone() }
    }
}

/// The console: the current endpoint, and the decisions driven by it.
pub struct Console {
    endpoint: String,
}

impl View for Console {
    type V = Seq<char>;

    closed spec fn view(&self) -> Seq<char> {
        self.endpoint@
    }
}

impl Console {
    /// A console at the given endpoint.
    pub fn new(endpoint: &str) -> (r: Result<Console, ViewerError>)
        ensures
            r matches Ok(c) && c@ == endpoint@,
    {
        Ok(Console { endpoint: endpoint.to_owned() })
    }

    /// Which provider serves the current endpoint.
    pub fn get_provider(&self) -> (r: ProviderKind)
        ensures
            r == spec_provider_of(self@),
    {
        if is_http_url(self.endpoint.as_str()) {
            ProviderKind::Http
        } else {
            ProviderKind::LocalFs
        }
    }

    /// Replace the endpoint outright, as the `set_endpoint` command does.
    pub fn set_endpoint(&mut self, endpoint: String)
        ensures
            final(self)@ == endpoint@,
    {
        self.endpoint = endpoint;
    }

    /// The endpoint, verbatim.
    pub fn get_current_dir(&self) -> (r: String)
        ensures
            r@ == self@,
    {
        self.endpoint.clone()
    }
}

} // verus!
