//! Endpoint configuration: how one server is named and reached.
//!
//! A server is reached either through a URL (HTTP transports) or through a
//! subprocess command with its arguments and environment.

use vstd::prelude::*;
use crate::protocol::{opt_str_view, strings_view};
use crate::text::{split_ws, split_whitespace_words};

verus! {

/// The default of the `auto_connect` flag: a configured server is connected
/// on startup unless said otherwise.
pub fn default_true() -> (r: bool)
    ensures
        r == true,
{
    true
}

/// The model of an optional string list.
pub open spec fn opt_strings_view(o: Option<Vec<String>>) -> Option<Seq<Seq<char>>> {
    match o {
        Some(v) => Some(strings_view(v@)),
        None => None,
    }
}

/// The models of a sequence of string pairs.
pub open spec fn string_pairs_view(s: Seq<(String, String)>) -> Seq<(Seq<char>, Seq<char>)> {
    s.map_values(|p: (String, String)| (p.0@, p.1@))
}

/// Configuration of one server connection: a display name, then either a
/// URL or a subprocess command with arguments and environment, and whether
/// to connect automatically on startup.
pub struct MCPServerConfig {
    pub name: String,
    pub url: Option<String>,
    pub command: Option<String>,
    pub args: Option<Vec<String>>,
    pub env: Option<Vec<(String, String)>>,
    pub headers: Option<Vec<(String, String)>>,
    pub auto_connect: bool,
}

/// The model of an [`MCPServerConfig`].
#[verifier::ext_equal]
pub struct ServerConfigRep {
    pub name: Seq<char>,
    pub url: Option<Seq<char>>,
    pub command: Option<Seq<char>>,
    pub args: Option<Seq<Seq<char>>>,
    pub env: Option<Seq<(Seq<char>, Seq<char>)>>,
    pub headers: Option<Seq<(Seq<char>, Seq<char>)>>,
    pub auto_connect: bool,
}

impl View for MCPServerConfig {
    type V = ServerConfigRep;

    open spec fn view(&self) -> ServerConfigRep {
        ServerConfigRep {
            name: self.name@,
            url: opt_str_view(self.url),
            command: opt_str_view(self.command),
            args: opt_strings_view(self.args),
            env: match self.env {
                Some(v) => Some(string_pairs_view(v@)),
                None => None,
            },
            headers: match self.headers {
                Some(v) => Some(string_pairs_view(v@)),
                None => None,
            },
            auto_connect: self.auto_connect,
        }
    }
}

impl MCPServerConfig {
    /// An HTTP server configuration: only the URL is set.
    pub fn http(name: &str, url: &str) -> (r: MCPServerConfig)
        ensures
            r@ == (ServerConfigRep {
                name: name@,
                url: Some(url@),
                command: None,
                args: None,
                env: None,
                headers: None,
                auto_connect: true,
            }),
    {
        MCPServerConfig {
            name: String::from_str(name),
            url: Some(String::from_str(url)),
            command: None,
            args: None,
            env: None,
            headers: None,
            auto_connect: true,
        }
    }

    /// A subprocess server configuration: command and arguments are set.
    pub fn stdio(name: &str, command: &str, args: Vec<String>) -> (r: MCPServerConfig)
        ensures
            r@ == (ServerConfigRep {
                name: name@,
                url: None,
                command: Some(command@),
                args: Some(strings_view(args@)),
                env: None,
                headers: None,
                auto_connect: true,
            }),
    {
        MCPServerConfig {
            name: String::from_str(name),
            url: None,
            command: Some(String::from_str(command)),
            args: Some(args),
            env: None,
            headers: None,
            auto_connect: true,
        }
    }

    /// A subprocess configuration from one shell-style command string: the
    /// first whitespace-separated word is the executable, the rest are its
    /// arguments; a string with no words configures neither.
    pub fn from_command(name: &str, command_str: &str) -> (r: MCPServerConfig)
        ensures
            r@.name == name@,
            r@.url is None && r@.env is None && r@.headers is None,
            r@.auto_connect == true,
            split_ws(command_str@).len() == 0 ==> r@.command is None && r@.args is None,
            split_ws(command_str@).len() > 0 ==> r@.command == Some(split_ws(command_str@)[0])
                && r@.args == Some(split_ws(command_str@).skip(1)),
    {
        let mut words = split_whitespace_words(command_str);
        if words.len() == 0 {
            MCPServerConfig {
                name: String::from_str(name),
                url: None,
                command: None,
                args: None,
                env: None,
                headers: None,
                auto_connect: true,
            }
        } else {
            let command = words.remove(0);
            proof {
                assert(strings_view(words@) =~= split_ws(command_str@).skip(1));
            }
            MCPServerConfig {
                name: String::from_str(name),
                url: None,
                command: Some(command),
                args: Some(words),
                env: None,
                headers: None,
                auto_connect: true,
            }
        }
    }
}

} // verus!
