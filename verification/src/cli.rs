//! What the user asks for.

use crate::packet::ProtocolError;
use crate::text::same_text;
use vstd::prelude::*;
use vstd::slice::slice_subrange;

verus! {

/// The options and arguments of the command line.
#[derive(Debug)]
pub struct Cli {
    /// Host names of the master servers.
    pub masters: Vec<String>,
    /// The command and its arguments.
    pub args: Vec<String>,
    /// How long to wait for master servers, in seconds.
    pub master_timeout: u32,
    /// How long to wait for game servers, in seconds.
    pub server_timeout: u32,
    /// The protocol versions to try, in this order.
    pub protocol: Vec<u8>,
    pub json: bool,
    pub debug: bool,
    /// Show colours even if there is no terminal.
    pub force_color: bool,
    /// Which servers the masters shall list.
    pub filter: String,
    /// The key that the masters have to send back.
    pub key: Option<u32>,
}

/// Why a command failed.
#[derive(Debug, PartialEq, Eq)]
pub enum Error {
    UndefinedCommand,
    Protocol(ProtocolError),
}

impl Error {
    /// The error in words.
    pub open spec fn message(self) -> Seq<char> {
        match self {
            Error::UndefinedCommand => "Undefined command"@,
            Error::Protocol(e) => e@.message(),
        }
    }

    /// The error in words.
    pub fn to_string(&self) -> (r: String)
        ensures
            r@ == self.message(),
    {
        match self {
            Error::UndefinedCommand => "Undefined command".to_owned(),
            Error::Protocol(e) => e.to_string(),
        }
    }
}

impl From<ProtocolError> for Error {
    fn from(e: ProtocolError) -> (r: Error) {
        Error::Protocol(e)
    }
}

impl vstd::std_specs::convert::FromSpecImpl<ProtocolError> for Error {
    open spec fn obeys_from_spec() -> bool {
        true
    }

    open spec fn from_spec(e: ProtocolError) -> Error {
        Error::Protocol(e)
    }
}

/// What to do.
#[derive(Clone, Copy, Debug, PartialEq, Eq)]
pub enum Command<'a> {
    /// Tell of the named servers, or of all that the masters list if none is
    /// named.
    Info { servers: &'a [String] },
    /// Show the addresses that the masters list.
    List,
    /// Watch the servers that the masters list.
    Monitor,
}

/// The command that was given, the empty text if there was none.
pub open spec fn command_word(args: Seq<String>) -> Seq<char> {
    if args.len() > 0 {
        args[0]@
    } else {
        ""@
    }
}

/// Finds out what to do.
pub fn execute<'a>(cli: &'a Cli) -> (r: Result<Command<'a>, Error>)
    ensures
        ({
            let args = cli.args@;
            let word = command_word(args);
            if word == "all"@ || word == ""@ {
                r matches Ok(Command::Info { servers }) && servers@ == Seq::<String>::empty()
            } else if word == "info"@ {
                r matches Ok(Command::Info { servers }) && servers@ == args.skip(1)
            } else if word == "list"@ {
                r == Ok::<Command, Error>(Command::List)
            } else if word == "monitor"@ {
                r == Ok::<Command, Error>(Command::Monitor)
            } else {
                r == Err::<Command, Error>(Error::UndefinedCommand)
            }
        }),
{
    let args = cli.args.as_slice();
    let word: &str = if args.len() > 0 {
        args[0].as_str()
    } else {
        ""
    };
    if same_text(word, "all") || same_text(word, "") {
        Ok(Command::Info { servers: slice_subrange(args, 0, 0) })
    } else if same_text(word, "info") {
        Ok(Command::Info { servers: slice_subrange(args, 1, args.len()) })
    } else if same_text(word, "list") {
        Ok(Command::List)
    } else if same_text(word, "monitor") {
        Ok(Command::Monitor)
    } else {
        Err(Error::UndefinedCommand)
    }
}

} // verus!
