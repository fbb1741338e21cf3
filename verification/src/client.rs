//! The client: a facade over one endpoint or a named set of endpoints.
//!
//! In single-endpoint mode, `initialize` eagerly builds and stores one
//! session; any operation invoked before that builds, connects and
//! initializes a fresh throwaway session for that one call and discards
//! it — deliberate behavior, each early call pays the full handshake. In
//! multi-endpoint mode, sessions live in a name-keyed table;
//! `create_all_sessions` records and skips endpoints that fail, and bulk
//! listings silently leave failing endpoints out of their result.

use vstd::prelude::*;
use crate::config::{MCPServerConfig, ServerConfigRep};
use crate::connectors::{Connector, spec_parse_locator, parse_locator};
use crate::session::{Session, SessionRep};
use crate::protocol::{Tool, ToolRep, Resource, Prompt, ToolResult, tools_view, strings_view};
use crate::registry::{
    keyed_insert, keyed_from, unique_keys, contains_key, remove_by_key, tool_key,
    lemma_keyed_insert_update, lemma_keyed_insert_push, lemma_keyed_insert_preserves_key,
    lemma_keyed_insert_entries, lemma_remove_by_key_at, lemma_remove_by_key_absent,
    lemma_remove_keeps_unique,
};
use crate::json::JsonValue;
use crate::error::Error;

verus! {

/// The key of an endpoint configuration: its name.
pub open spec fn config_key() -> spec_fn(ServerConfigRep) -> Seq<char> {
    |c: ServerConfigRep| c.name
}

/// The key of a live session entry: the endpoint name it is stored under.
pub open spec fn entry_key() -> spec_fn((Seq<char>, SessionRep)) -> Seq<char> {
    |p: (Seq<char>, SessionRep)| p.0
}

/// The models of the endpoint configuration table.
pub open spec fn configs_view(s: Seq<MCPServerConfig>) -> Seq<ServerConfigRep> {
    s.map_values(|c: MCPServerConfig| c@)
}

/// The models of the live session table.
pub open spec fn entries_view<C: Connector>(s: Seq<(String, Session<C>)>) -> Seq<
    (Seq<char>, SessionRep),
> {
    s.map_values(|p: (String, Session<C>)| (p.0@, p.1@))
}

/// The model of a client: the single-endpoint locator and session, and the
/// multi-endpoint configuration and session tables.
#[verifier::ext_equal]
pub struct ClientRep {
    pub url: Option<Seq<char>>,
    pub session: Option<SessionRep>,
    pub servers: Seq<ServerConfigRep>,
    pub sessions: Seq<(Seq<char>, SessionRep)>,
    pub initialized: bool,
}

/// A client over one endpoint (a locator and at most one stored session)
/// or over many (a name-keyed configuration table and session table).
pub struct McpClient<C: Connector> {
    url: Option<String>,
    session: Option<Session<C>>,
    servers_config: Vec<MCPServerConfig>,
    sessions: Vec<(String, Session<C>)>,
    initialized: bool,
}

impl<C: Connector> View for McpClient<C> {
    type V = ClientRep;

    closed spec fn view(&self) -> ClientRep {
        ClientRep {
            url: crate::protocol::opt_str_view(self.url),
            session: match self.session {
                Some(s) => Some(s@),
                None => None,
            },
            servers: configs_view(self.servers_config@),
            sessions: entries_view(self.sessions@),
            initialized: self.initialized,
        }
    }
}

impl<C: Connector> McpClient<C> {
    /// Both tables are keyed uniquely by endpoint name.
    pub open spec fn wf(&self) -> bool {
        &&& unique_keys(self@.servers, config_key())
        &&& unique_keys(self@.sessions, entry_key())
    }

    /// A single-endpoint client for the given locator.
    pub fn new(url: &str) -> (r: McpClient<C>)
        ensures
            r@ == (ClientRep {
                url: Some(url@),
                session: None,
                servers: Seq::<ServerConfigRep>::empty(),
                sessions: Seq::<(Seq<char>, SessionRep)>::empty(),
                initialized: false,
            }),
            r.wf(),
    {
        let r = McpClient {
            url: Some(String::from_str(url)),
            session: None,
            servers_config: Vec::new(),
            sessions: Vec::new(),
            initialized: false,
        };
        proof {
            assert(r@ =~= ClientRep {
                url: Some(url@),
                session: None,
                servers: Seq::<ServerConfigRep>::empty(),
                sessions: Seq::<(Seq<char>, SessionRep)>::empty(),
                initialized: false,
            });
        }
        r
    }

    /// The single-endpoint locator this client was built with, if any.
    pub fn url(&self) -> (r: Option<&String>)
        ensures
            match r {
                Some(u) => self@.url == Some(u@),
                None => self@.url is None,
            },
    {
        match &self.url {
            Some(u) => Some(u),
            None => None,
        }
    }

    /// A multi-endpoint client with no endpoints configured yet.
    pub fn new_multi() -> (r: McpClient<C>)
        ensures
            r@ == (ClientRep {
                url: None,
                session: None,
                servers: Seq::<ServerConfigRep>::empty(),
                sessions: Seq::<(Seq<char>, SessionRep)>::empty(),
                initialized: false,
            }),
            r.wf(),
    {
        let r = McpClient {
            url: None,
            session: None,
            servers_config: Vec::new(),
            sessions: Vec::new(),
            initialized: false,
        };
        proof {
            assert(r@ =~= ClientRep {
                url: None,
                session: None,
                servers: Seq::<ServerConfigRep>::empty(),
                sessions: Seq::<(Seq<char>, SessionRep)>::empty(),
                initialized: false,
            });
        }
        r
    }

    /// Adds (or replaces, by name) an endpoint configuration.
    pub fn add_server(&mut self, config: MCPServerConfig)
        requires
            old(self).wf(),
        ensures
            final(self)@ == (ClientRep {
                servers: keyed_insert(old(self)@.servers, config_key(), config@),
                ..old(self)@
            }),
            final(self).wf(),
    {
        let ghost m = configs_view(self.servers_config@);
        let mut j: usize = 0;
        let n = self.servers_config.len();
        while j < n
            invariant
                j <= n,
                n == self.servers_config@.len(),
                m == configs_view(self.servers_config@),
                m == old(self)@.servers,
                self@ == (ClientRep { servers: self@.servers, ..old(self)@ }),
                unique_keys(m, config_key()),
                unique_keys(self@.sessions, entry_key()),
                forall|k: int| 0 <= k < j as int ==> (#[trigger] m[k]).name != config@.name,
            decreases n - j,
        {
            if self.servers_config[j].name == config.name {
                proof {
                    lemma_keyed_insert_update(m, config_key(), config@, j as int);
                }
                self.servers_config[j] = config;
                proof {
                    assert(configs_view(self.servers_config@) =~= m.update(j as int, config@));
                    let mm = m.update(j as int, config@);
                    assert forall|x: int, y: int| 0 <= x < y < mm.len() implies (
                    #[trigger] mm[x]).name != (#[trigger] mm[y]).name by {
                        if x != j {
                            assert(mm[x] == m[x]);
                        }
                        if y != j {
                            assert(mm[y] == m[y]);
                        }
                        assert(m[j as int].name == config@.name);
                    }
                    assert(self@ =~= ClientRep {
                        servers: keyed_insert(old(self)@.servers, config_key(), config@),
                        ..old(self)@
                    });
                }
                return;
            }
            j = j + 1;
        }
        proof {
            lemma_keyed_insert_push(m, config_key(), config@);
        }
        self.servers_config.push(config);
        proof {
            assert(configs_view(self.servers_config@) =~= m.push(config@));
        }
    }

    /// The names of the configured endpoints, in configuration order.
    pub fn server_names(&self) -> (r: Vec<String>)
        ensures
            strings_view(r@) == self@.servers.map_values(|c: ServerConfigRep| c.name),
    {
        let mut names: Vec<String> = Vec::new();
        let mut i: usize = 0;
        while i < self.servers_config.len()
            invariant
                i <= self.servers_config.len(),
                names@.len() == i as int,
                forall|j: int| 0 <= j < i as int ==> (#[trigger] names@[j])@
                    == self@.servers[j].name,
            decreases self.servers_config@.len() - i,
        {
            names.push(self.servers_config[i].name.clone());
            i = i + 1;
        }
        proof {
            assert(strings_view(names@) =~= self@.servers.map_values(
                |c: ServerConfigRep| c.name,
            ));
        }
        names
    }

    /// Builds the transport an endpoint locator selects; an unsupported
    /// scheme is rejected before anything is built.
    fn create_connector_from_url(url: &str) -> (r: Result<C, Error>)
        ensures
            r is Ok <==> spec_parse_locator(url@) is Ok,
            r is Err ==> r->Err_0 is InvalidRequest,
    {
        match parse_locator(url) {
            Ok(config) => Ok(C::from_config(config)),
            Err(e) => Err(e),
        }
    }

    /// Builds, connects and initializes a session for one configured
    /// endpoint. A configuration with neither a URL nor a full subprocess
    /// command is rejected as invalid.
    fn create_session_from_config(config: &MCPServerConfig) -> (r: Result<Session<C>, Error>)
        ensures
            config@.url is None && (config@.command is None || config@.args is None) ==> r is Err
                && r->Err_0 is InvalidRequest,
            r is Ok ==> r->Ok_0@.name == config@.name && r->Ok_0@.initialized == true
                && r->Ok_0.wf(),
    {
        let url: String = match &config.url {
            Some(u) => u.clone(),
            None => match (&config.command, &config.args) {
                (Some(cmd), Some(args)) => {
                    let mut built = String::from_str("stdio://");
                    built.append(cmd.as_str());
                    let mut i: usize = 0;
                    while i < args.len()
                        decreases args@.len() - i,
                    {
                        built.append(" ");
                        built.append(args[i].as_str());
                        i = i + 1;
                    }
                    built
                },
                _ => {
                    return Err(
                        Error::InvalidRequest(
                            String::from_str("Server has no valid transport configuration"),
                        ),
                    );
                },
            },
        };
        let connector = match Self::create_connector_from_url(url.as_str()) {
            Ok(c) => c,
            Err(e) => {
                return Err(e);
            },
        };
        let mut session = Session::new(config.name.as_str(), connector);
        match session.connect() {
            Ok(_) => {},
            Err(e) => {
                return Err(e);
            },
        }
        match session.initialize() {
            Ok(_) => {},
            Err(e) => {
                return Err(e);
            },
        }
        Ok(session)
    }

    /// Initializes the single-endpoint session eagerly: builds the
    /// transport from the stored locator, connects, shakes hands, and
    /// stores the session. Without a locator this is an internal error; on
    /// any failure nothing is stored.
    pub fn initialize(&mut self) -> (r: Result<JsonValue, Error>)
        requires
            old(self).wf(),
        ensures
            old(self)@.url is None ==> r is Err && r->Err_0 is InternalError && final(self)@ == old(
                self,
            )@,
            r is Err ==> final(self)@ == old(self)@,
            r is Ok ==> final(self)@ == (ClientRep {
                session: final(self)@.session,
                initialized: true,
                ..old(self)@
            }) && (final(self)@.session matches Some(srep) && srep.name == "default"@
                && srep.initialized == true),
            final(self).wf(),
    {
        let url = match &self.url {
            Some(u) => u.clone(),
            None => {
                return Err(Error::InternalError(String::from_str("No server URL configured")));
            },
        };
        let connector = match Self::create_connector_from_url(url.as_str()) {
            Ok(c) => c,
            Err(e) => {
                return Err(e);
            },
        };
        let mut session = Session::new("default", connector);
        match session.connect() {
            Ok(_) => {},
            Err(e) => {
                return Err(e);
            },
        }
        let capabilities = match session.initialize() {
            Ok(c) => c,
            Err(e) => {
                return Err(e);
            },
        };
        self.session = Some(session);
        self.initialized = true;
        Ok(capabilities)
    }

    /// Lists tools from the single endpoint. With a stored session its
    /// cache is refreshed and snapshotted; before `initialize`, a
    /// throwaway session is built for this one call and discarded, leaving
    /// the client unchanged.
    pub fn list_tools(&mut self) -> (r: Result<Vec<Tool>, Error>)
        requires
            old(self).wf(),
        ensures
            old(self)@.session is None ==> final(self)@ == old(self)@,
            old(self)@.session is None && old(self)@.url is None ==> r is Err
                && r->Err_0 is InternalError,
            r is Ok && old(self)@.session is Some ==> (final(self)@.session matches Some(srep)
                && tools_view(r->Ok_0@) == srep.tools && unique_keys(srep.tools, tool_key())),
            r is Err ==> final(self)@ == old(self)@,
            final(self).wf(),
    {
        match &mut self.session {
            Some(session) => {
                match session.refresh_tools() {
                    Ok(_) => {},
                    Err(e) => {
                        return Err(e);
                    },
                }
                Ok(session.get_tools())
            },
            None => match &self.url {
                Some(url) => {
                    let connector = match Self::create_connector_from_url(url.as_str()) {
                        Ok(c) => c,
                        Err(e) => {
                            return Err(e);
                        },
                    };
                    let mut session = Session::new("default", connector);
                    match session.connect() {
                        Ok(_) => {},
                        Err(e) => {
                            return Err(e);
                        },
                    }
                    match session.initialize() {
                        Ok(_) => {},
                        Err(e) => {
                            return Err(e);
                        },
                    }
                    match session.refresh_tools() {
                        Ok(_) => {},
                        Err(e) => {
                            return Err(e);
                        },
                    }
                    Ok(session.get_tools())
                },
                None => Err(Error::InternalError(String::from_str("No server configured"))),
            },
        }
    }

    /// Calls a tool on the single endpoint; before `initialize`, a
    /// throwaway session is built for this one call and discarded.
    pub fn call_tool(&self, tool_name: &str, arguments: JsonValue) -> (r: Result<ToolResult, Error>)
        ensures
            self@.session is None && self@.url is None ==> r is Err && r->Err_0 is InternalError,
    {
        match &self.session {
            Some(session) => session.call_tool(tool_name, arguments),
            None => match &self.url {
                Some(url) => {
                    let connector = match Self::create_connector_from_url(url.as_str()) {
                        Ok(c) => c,
                        Err(e) => {
                            return Err(e);
                        },
                    };
                    let mut session = Session::new("default", connector);
                    match session.connect() {
                        Ok(_) => {},
                        Err(e) => {
                            return Err(e);
                        },
                    }
                    match session.initialize() {
                        Ok(_) => {},
                        Err(e) => {
                            return Err(e);
                        },
                    }
                    session.call_tool(tool_name, arguments)
                },
                None => Err(Error::InternalError(String::from_str("No server configured"))),
            },
        }
    }

    /// Lists resources from the single endpoint, with the same throwaway
    /// behavior before `initialize`.
    pub fn list_resources(&mut self) -> (r: Result<Vec<Resource>, Error>)
        requires
            old(self).wf(),
        ensures
            old(self)@.session is None ==> final(self)@ == old(self)@,
            old(self)@.session is None && old(self)@.url is None ==> r is Err
                && r->Err_0 is InternalError,
            r is Ok && old(self)@.session is Some ==> (final(self)@.session matches Some(srep)
                && crate::protocol::resources_view(r->Ok_0@) == srep.resources && unique_keys(
                srep.resources,
                crate::registry::resource_key(),
            )),
            r is Err ==> final(self)@ == old(self)@,
            final(self).wf(),
    {
        match &mut self.session {
            Some(session) => {
                match session.refresh_resources() {
                    Ok(_) => {},
                    Err(e) => {
                        return Err(e);
                    },
                }
                Ok(session.get_resources())
            },
            None => match &self.url {
                Some(url) => {
                    let connector = match Self::create_connector_from_url(url.as_str()) {
                        Ok(c) => c,
                        Err(e) => {
                            return Err(e);
                        },
                    };
                    let mut session = Session::new("default", connector);
                    match session.connect() {
                        Ok(_) => {},
                        Err(e) => {
                            return Err(e);
                        },
                    }
                    match session.initialize() {
                        Ok(_) => {},
                        Err(e) => {
                            return Err(e);
                        },
                    }
                    match session.refresh_resources() {
                        Ok(_) => {},
                        Err(e) => {
                            return Err(e);
                        },
                    }
                    Ok(session.get_resources())
                },
                None => Err(Error::InternalError(String::from_str("No server configured"))),
            },
        }
    }

    /// Reads a resource from the single endpoint, with the same throwaway
    /// behavior before `initialize`.
    pub fn read_resource(&self, uri: &str) -> (r: Result<String, Error>)
        ensures
            self@.session is None && self@.url is None ==> r is Err && r->Err_0 is InternalError,
    {
        match &self.session {
            Some(session) => session.read_resource(uri),
            None => match &self.url {
                Some(url) => {
                    let connector = match Self::create_connector_from_url(url.as_str()) {
                        Ok(c) => c,
                        Err(e) => {
                            return Err(e);
                        },
                    };
                    let mut session = Session::new("default", connector);
                    match session.connect() {
                        Ok(_) => {},
                        Err(e) => {
                            return Err(e);
                        },
                    }
                    match session.initialize() {
                        Ok(_) => {},
                        Err(e) => {
                            return Err(e);
                        },
                    }
                    session.read_resource(uri)
                },
                None => Err(Error::InternalError(String::from_str("No server configured"))),
            },
        }
    }

    /// Lists prompts from the single endpoint, with the same throwaway
    /// behavior before `initialize`.
    pub fn list_prompts(&mut self) -> (r: Result<Vec<Prompt>, Error>)
        requires
            old(self).wf(),
        ensures
            old(self)@.session is None ==> final(self)@ == old(self)@,
            old(self)@.session is None && old(self)@.url is None ==> r is Err
                && r->Err_0 is InternalError,
            r is Ok && old(self)@.session is Some ==> (final(self)@.session matches Some(srep)
                && crate::protocol::prompts_view(r->Ok_0@) == srep.prompts && unique_keys(
                srep.prompts,
                crate::registry::prompt_key(),
            )),
            r is Err ==> final(self)@ == old(self)@,
            final(self).wf(),
    {
        match &mut self.session {
            Some(session) => {
                match session.refresh_prompts() {
                    Ok(_) => {},
                    Err(e) => {
                        return Err(e);
                    },
                }
                Ok(session.get_prompts())
            },
            None => match &self.url {
                Some(url) => {
                    let connector = match Self::create_connector_from_url(url.as_str()) {
                        Ok(c) => c,
                        Err(e) => {
                            return Err(e);
                        },
                    };
                    let mut session = Session::new("default", connector);
                    match session.connect() {
                        Ok(_) => {},
                        Err(e) => {
                            return Err(e);
                        },
                    }
                    match session.initialize() {
                        Ok(_) => {},
                        Err(e) => {
                            return Err(e);
                        },
                    }
                    match session.refresh_prompts() {
                        Ok(_) => {},
                        Err(e) => {
                            return Err(e);
                        },
                    }
                    Ok(session.get_prompts())
                },
                None => Err(Error::InternalError(String::from_str("No server configured"))),
            },
        }
    }

    /// Attempts to build and initialize one session per configured
    /// endpoint. Per-endpoint failures are skipped; the bulk call itself
    /// always succeeds, and partial connectivity is an accepted end state.
    /// No previously stored session name disappears, and every entry that
    /// was not already in the table is a freshly initialized session,
    /// stored under a configured endpoint name and carrying that name as
    /// its own.
    pub fn create_all_sessions(&mut self) -> (r: Result<(), Error>)
        requires
            old(self).wf(),
        ensures
            r is Ok,
            final(self)@ == (ClientRep { sessions: final(self)@.sessions, ..old(self)@ }),
            final(self).wf(),
            forall|k: Seq<char>|
                contains_key(old(self)@.sessions, entry_key(), k) ==> #[trigger] contains_key(
                    final(self)@.sessions,
                    entry_key(),
                    k,
                ),
            forall|i: int|
                0 <= i < final(self)@.sessions.len() ==> (exists|j: int|
                    0 <= j < old(self)@.sessions.len() && old(self)@.sessions[j]
                        == final(self)@.sessions[i]) || ((
                #[trigger] final(self)@.sessions[i]).1.initialized
                    && final(self)@.sessions[i].1.name == final(self)@.sessions[i].0
                    && contains_key(old(self)@.servers, config_key(), final(self)@.sessions[i].0)),
    {
        let mut i: usize = 0;
        let n = self.servers_config.len();
        while i < n
            invariant
                i <= n,
                n == self.servers_config@.len(),
                self@ == (ClientRep { sessions: self@.sessions, ..old(self)@ }),
                self.wf(),
                forall|k: Seq<char>|
                    contains_key(old(self)@.sessions, entry_key(), k) ==> #[trigger] contains_key(
                        self@.sessions,
                        entry_key(),
                        k,
                    ),
                forall|i2: int|
                    0 <= i2 < self@.sessions.len() ==> (exists|j: int|
                        0 <= j < old(self)@.sessions.len() && old(self)@.sessions[j]
                            == self@.sessions[i2]) || ((#[trigger] self@.sessions[i2]).1.initialized
                        && self@.sessions[i2].1.name == self@.sessions[i2].0 && contains_key(
                        old(self)@.servers,
                        config_key(),
                        self@.sessions[i2].0,
                    )),
            decreases n - i,
        {
            let created = Self::create_session_from_config(&self.servers_config[i]);
            match created {
                Ok(session) => {
                    let name = self.servers_config[i].name.clone();
                    let ghost before = entries_view(self.sessions@);
                    let ghost fresh = (name@, session@);
                    proof {
                        assert(name@ == configs_view(self.servers_config@)[i as int].name);
                        assert(contains_key(old(self)@.servers, config_key(), name@));
                    }
                    insert_session_entry(&mut self.sessions, name, session);
                    proof {
                        assert forall|k: Seq<char>|
                            contains_key(old(self)@.sessions, entry_key(), k)
                                implies #[trigger] contains_key(
                            entries_view(self.sessions@),
                            entry_key(),
                            k,
                        ) by {
                            lemma_keyed_insert_preserves_key(before, entry_key(), fresh, k);
                        }
                        lemma_keyed_insert_entries(before, entry_key(), fresh);
                        assert forall|i2: int|
                            0 <= i2 < entries_view(self.sessions@).len() implies (exists|j: int|
                            0 <= j < old(self)@.sessions.len() && old(self)@.sessions[j]
                                == entries_view(self.sessions@)[i2]) || ((#[trigger] entries_view(
                            self.sessions@,
                        )[i2]).1.initialized && entries_view(self.sessions@)[i2].1.name
                            == entries_view(self.sessions@)[i2].0 && contains_key(
                            old(self)@.servers,
                            config_key(),
                            entries_view(self.sessions@)[i2].0,
                        )) by {
                            let entry = entries_view(self.sessions@)[i2];
                            if entry == fresh {
                            } else {
                                let j0 = choose|j0: int|
                                    0 <= j0 < before.len() && #[trigger] before[j0] == entry;
                            }
                        }
                    }
                },
                Err(_) => {},
            }
            i = i + 1;
        }
        Ok(())
    }

    /// The position of a named entry in the session table.
    fn find_session_index(&self, server_name: &str) -> (r: Option<usize>)
        ensures
            match r {
                Some(i) => i < self@.sessions.len() && self@.sessions[i as int].0 == server_name@,
                None => !contains_key(self@.sessions, entry_key(), server_name@),
            },
    {
        let ghost m = entries_view(self.sessions@);
        let key_string = String::from_str(server_name);
        let mut i: usize = 0;
        let n = self.sessions.len();
        while i < n
            invariant
                i <= n,
                n == self.sessions@.len(),
                m == entries_view(self.sessions@),
                key_string@ == server_name@,
                forall|k: int| 0 <= k < i as int ==> (#[trigger] m[k]).0 != server_name@,
            decreases n - i,
        {
            if self.sessions[i].0 == key_string {
                return Some(i);
            }
            i = i + 1;
        }
        None
    }

    /// Lists tools from one named endpoint, refreshing its cache first. A
    /// name with no live session fails with a distinct server error.
    pub fn list_tools_for_server(&mut self, server_name: &str) -> (r: Result<Vec<Tool>, Error>)
        requires
            old(self).wf(),
        ensures
            !contains_key(old(self)@.sessions, entry_key(), server_name@) ==> (r matches Err(e)
                && e matches Error::ServerError(m) && m@ == "No active session for server '"@
                + server_name@ + "'"@ && final(self)@ == old(self)@),
            final(self)@ == (ClientRep { sessions: final(self)@.sessions, ..old(self)@ }),
            final(self)@.sessions.len() == old(self)@.sessions.len(),
            forall|k: int| 0 <= k < final(self)@.sessions.len() ==> (
            #[trigger] final(self)@.sessions[k]).0 == old(self)@.sessions[k].0,
            r is Ok ==> exists|ts: Seq<ToolRep>|
                tools_view(r->Ok_0@) == keyed_from(ts, tool_key()),
            final(self).wf(),
    {
        let found = self.find_session_index(server_name);
        match found {
            Some(i) => {
                let ghost m = entries_view(self.sessions@);
                let entry = &mut self.sessions[i];
                let refreshed = entry.1.refresh_tools();
                match refreshed {
                    Ok(_) => {
                        let tools = entry.1.get_tools();
                        proof {
                            assert(entries_view(self.sessions@) =~= m.update(
                                i as int,
                                (m[i as int].0, entry.1@),
                            ));
                            assert forall|x: int, y: int|
                                0 <= x < y < entries_view(self.sessions@).len() implies (
                            #[trigger] entries_view(self.sessions@)[x]).0 != (
                            #[trigger] entries_view(self.sessions@)[y]).0 by {
                                assert(entries_view(self.sessions@)[x].0 == m[x].0);
                                assert(entries_view(self.sessions@)[y].0 == m[y].0);
                            }
                        }
                        Ok(tools)
                    },
                    Err(e) => {
                        proof {
                            assert(entries_view(self.sessions@) =~= m);
                        }
                        Err(e)
                    },
                }
            },
            None => Err(Error::ServerError(missing_session_message(server_name))),
        }
    }

    /// Calls a tool on one named endpoint; a name with no live session
    /// fails with a distinct server error.
    pub fn call_tool_on_server(
        &self,
        server_name: &str,
        tool_name: &str,
        arguments: JsonValue,
    ) -> (r: Result<ToolResult, Error>)
        ensures
            !contains_key(self@.sessions, entry_key(), server_name@) ==> (r matches Err(e)
                && e matches Error::ServerError(m) && m@ == "No active session for server '"@
                + server_name@ + "'"@),
    {
        match self.find_session_index(server_name) {
            Some(i) => self.sessions[i].1.call_tool(tool_name, arguments),
            None => Err(Error::ServerError(missing_session_message(server_name))),
        }
    }

    /// Aggregates `(endpoint name, tools)` pairs across every live
    /// session whose refresh succeeds; endpoints that fail are left out of
    /// the result silently, and the bulk call itself always succeeds. The
    /// pairs follow the table order, each name appearing at most once, and
    /// each pair carries exactly the freshly refreshed cached tools of the
    /// session it names.
    pub fn list_all_tools(&mut self) -> (r: Result<Vec<(String, Vec<Tool>)>, Error>)
        requires
            old(self).wf(),
        ensures
            r is Ok,
            final(self)@ == (ClientRep { sessions: final(self)@.sessions, ..old(self)@ }),
            final(self)@.sessions.len() == old(self)@.sessions.len(),
            forall|k: int| 0 <= k < final(self)@.sessions.len() ==> (
            #[trigger] final(self)@.sessions[k]).0 == old(self)@.sessions[k].0,
            r matches Ok(pairs) ==> pairs@.len() <= final(self)@.sessions.len() && forall|k: int|
                0 <= k < pairs@.len() ==> contains_key(
                    final(self)@.sessions,
                    entry_key(),
                    (#[trigger] pairs@[k]).0@,
                ),
            r matches Ok(pairs) ==> exists|picks: Seq<int>|
                #[trigger] picks.len() == pairs@.len() && (forall|k: int|
                    0 <= k < picks.len() ==> 0 <= #[trigger] picks[k]
                        < final(self)@.sessions.len()) && (forall|k: int|
                    0 <= k < picks.len() - 1 ==> #[trigger] picks[k] < picks[k + 1]) && (forall|
                    k: int,
                |
                    0 <= k < picks.len() ==> final(self)@.sessions[#[trigger] picks[k]].0
                        == pairs@[k].0@ && final(self)@.sessions[picks[k]].1.tools == tools_view(
                        pairs@[k].1@,
                    )),
            final(self).wf(),
    {
        let mut out: Vec<(String, Vec<Tool>)> = Vec::new();
        let ghost mut picks = Seq::<int>::empty();
        let mut i: usize = 0;
        let n = self.sessions.len();
        while i < n
            invariant
                i <= n,
                n == self.sessions@.len(),
                self@ == (ClientRep { sessions: self@.sessions, ..old(self)@ }),
                self@.sessions.len() == old(self)@.sessions.len(),
                forall|k: int| 0 <= k < self@.sessions.len() ==> (
                #[trigger] self@.sessions[k]).0 == old(self)@.sessions[k].0,
                self.wf(),
                out@.len() <= i as int,
                forall|k: int| 0 <= k < out@.len() ==> contains_key(
                    self@.sessions,
                    entry_key(),
                    (#[trigger] out@[k]).0@,
                ),
                picks.len() == out@.len(),
                forall|k: int| 0 <= k < picks.len() ==> 0 <= #[trigger] picks[k] < i as int,
                forall|k: int| 0 <= k < picks.len() - 1 ==> #[trigger] picks[k] < picks[k + 1],
                forall|k: int|
                    0 <= k < picks.len() ==> self@.sessions[#[trigger] picks[k]].0 == out@[k].0@
                        && self@.sessions[picks[k]].1.tools == tools_view(out@[k].1@),
            decreases n - i,
        {
            let ghost m = entries_view(self.sessions@);
            let entry = &mut self.sessions[i];
            let refreshed = entry.1.refresh_tools();
            match refreshed {
                Ok(_) => {
                    let name = entry.0.clone();
                    let tools = entry.1.get_tools();
                    proof {
                        assert(entries_view(self.sessions@) =~= m.update(
                            i as int,
                            (m[i as int].0, entry.1@),
                        ));
                        assert(entries_view(self.sessions@)[i as int].0 == name@);
                        assert forall|x: int, y: int|
                            0 <= x < y < entries_view(self.sessions@).len() implies (
                        #[trigger] entries_view(self.sessions@)[x]).0 != (
                        #[trigger] entries_view(self.sessions@)[y]).0 by {
                            assert(entries_view(self.sessions@)[x].0 == m[x].0);
                            assert(entries_view(self.sessions@)[y].0 == m[y].0);
                        }
                        let m2 = entries_view(self.sessions@);
                        assert forall|k: int| 0 <= k < out@.len() + 1 implies contains_key(
                            m2,
                            entry_key(),
                            (#[trigger] out@.push((name, tools))[k]).0@,
                        ) by {
                            if k < out@.len() {
                                assert(out@.push((name, tools))[k] == out@[k]);
                                let idx = choose|idx: int|
                                    0 <= idx < m.len() && #[trigger] m[idx].0 == out@[k].0@;
                                assert(m2[idx].0 == m[idx].0);
                            } else {
                                assert(out@.push((name, tools))[k].0@ == name@);
                                assert(m2[i as int].0 == name@);
                            }
                        }
                    }
                    proof {
                        let m2 = entries_view(self.sessions@);
                        assert(m2[i as int].1.tools == tools_view(tools@));
                        assert forall|k: int| 0 <= k < picks.len() implies m2[
                        #[trigger] picks[k]].0 == out@[k].0@ && m2[picks[k]].1.tools == tools_view(
                            out@[k].1@,
                        ) by {
                            assert(m2[picks[k]] == m[picks[k]]);
                        }
                        picks = picks.push(i as int);
                    }
                    out.push((name, tools));
                },
                Err(_) => {
                    proof {
                        assert(entries_view(self.sessions@) =~= m);
                    }
                },
            }
            i = i + 1;
        }
        proof {
            assert(picks.len() == out@.len() && (forall|k: int|
                0 <= k < picks.len() ==> 0 <= #[trigger] picks[k] < self@.sessions.len()) && (
            forall|k: int| 0 <= k < picks.len() - 1 ==> #[trigger] picks[k] < picks[k + 1]) && (
            forall|k: int|
                0 <= k < picks.len() ==> self@.sessions[#[trigger] picks[k]].0 == out@[k].0@
                    && self@.sessions[picks[k]].1.tools == tools_view(out@[k].1@)));
        }
        Ok(out)
    }

    /// Disconnects and removes one named session; a missing name is not an
    /// error, and teardown errors are ignored — best-effort cleanup that
    /// always succeeds.
    pub fn close_session(&mut self, server_name: &str) -> (r: Result<(), Error>)
        requires
            old(self).wf(),
        ensures
            r is Ok,
            final(self)@ == (ClientRep {
                sessions: remove_by_key(old(self)@.sessions, entry_key(), server_name@),
                ..old(self)@
            }),
            final(self).wf(),
    {
        let ghost m = entries_view(self.sessions@);
        let found = self.find_session_index(server_name);
        match found {
            Some(i) => {
                proof {
                    let ghost k: int = choose|k: int|
                        0 <= k < m.len() && #[trigger] m[k].0 == server_name@ && forall|j: int|
                            0 <= j < k ==> (#[trigger] m[j]).0 != server_name@;
                }
                let removed = self.sessions.remove(i);
                let (_, mut session) = removed;
                proof {
                    assert(entries_view(self.sessions@) =~= m.remove(i as int));
                    assert forall|j: int| 0 <= j < i as int implies (#[trigger] m[j]).0
                        != server_name@ by {
                        assert(m[j].0 != m[i as int].0);
                    }
                    lemma_remove_by_key_at(m, entry_key(), server_name@, i as int);
                    lemma_remove_keeps_unique(m, entry_key(), i as int);
                }
                let closed = session.disconnect();
                match closed {
                    Ok(_) => {},
                    Err(_) => {},
                }
                Ok(())
            },
            None => {
                proof {
                    lemma_remove_by_key_absent(m, entry_key(), server_name@);
                }
                Ok(())
            },
        }
    }

    /// Disconnects and removes every session, ignoring teardown errors;
    /// best-effort cleanup that always succeeds.
    pub fn close_all_sessions(&mut self) -> (r: Result<(), Error>)
        requires
            old(self).wf(),
        ensures
            r is Ok,
            final(self)@ == (ClientRep {
                sessions: Seq::<(Seq<char>, SessionRep)>::empty(),
                ..old(self)@
            }),
            final(self).wf(),
    {
        while self.sessions.len() > 0
            invariant
                self@ == (ClientRep { sessions: self@.sessions, ..old(self)@ }),
                self.wf(),
            decreases self.sessions@.len(),
        {
            let ghost before = entries_view(self.sessions@);
            let popped = self.sessions.pop();
            proof {
                assert(entries_view(self.sessions@) =~= before.drop_last());
                let after = entries_view(self.sessions@);
                assert forall|x: int, y: int| 0 <= x < y < after.len() implies (
                #[trigger] after[x]).0 != (#[trigger] after[y]).0 by {
                    assert(after[x] == before[x]);
                    assert(after[y] == before[y]);
                }
                assert(self@ =~= ClientRep { sessions: self@.sessions, ..old(self)@ });
            }
            match popped {
                Some((_, mut session)) => {
                    let closed = session.disconnect();
                    match closed {
                        Ok(_) => {},
                        Err(_) => {},
                    }
                },
                None => {},
            }
        }
        proof {
            assert(entries_view(self.sessions@) =~= Seq::<(Seq<char>, SessionRep)>::empty());
        }
        Ok(())
    }

    /// Whether any endpoint is connected: a stored single session or at
    /// least one live multi-endpoint session.
    pub fn is_connected(&self) -> (r: bool)
        ensures
            r == (self@.sessions.len() > 0 || self@.session is Some),
    {
        self.sessions.len() > 0 || match &self.session {
            Some(_) => true,
            None => false,
        }
    }
}

impl<C: Connector> Default for McpClient<C> {
    /// The default client is an empty multi-endpoint client.
    fn default() -> (r: Self)
        ensures
            r@ == (ClientRep {
                url: None,
                session: None,
                servers: Seq::<ServerConfigRep>::empty(),
                sessions: Seq::<(Seq<char>, SessionRep)>::empty(),
                initialized: false,
            }),
            r.wf(),
    {
        McpClient::new_multi()
    }
}

/// The error text for an endpoint name with no live session.
fn missing_session_message(server_name: &str) -> (r: String)
    ensures
        r@ == "No active session for server '"@ + server_name@ + "'"@,
{
    let mut m = String::from_str("No active session for server '");
    m.append(server_name);
    m.append("'");
    proof {
        assert(m@ =~= "No active session for server '"@ + server_name@ + "'"@);
    }
    m
}

/// Inserts a session into the name-keyed table, replacing a same-named
/// entry.
pub fn insert_session_entry<C: Connector>(
    table: &mut Vec<(String, Session<C>)>,
    name: String,
    session: Session<C>,
)
    requires
        unique_keys(entries_view(old(table)@), entry_key()),
    ensures
        entries_view(final(table)@) == keyed_insert(
            entries_view(old(table)@),
            entry_key(),
            (name@, session@),
        ),
        unique_keys(entries_view(final(table)@), entry_key()),
{
    let ghost m = entries_view(table@);
    let mut j: usize = 0;
    let n = table.len();
    while j < n
        invariant
            j <= n,
            n == table@.len(),
            m == entries_view(table@),
            m == entries_view(old(table)@),
            unique_keys(m, entry_key()),
            forall|k: int| 0 <= k < j as int ==> (#[trigger] m[k]).0 != name@,
        decreases n - j,
    {
        if table[j].0 == name {
            proof {
                lemma_keyed_insert_update(m, entry_key(), (name@, session@), j as int);
            }
            table[j] = (name, session);
            proof {
                assert(entries_view(table@) =~= m.update(j as int, (name@, session@)));
                let mm = m.update(j as int, (name@, session@));
                assert forall|x: int, y: int| 0 <= x < y < mm.len() implies (
                #[trigger] mm[x]).0 != (#[trigger] mm[y]).0 by {
                    if x != j {
                        assert(mm[x] == m[x]);
                    }
                    if y != j {
                        assert(mm[y] == m[y]);
                    }
                    assert(m[j as int].0 == name@);
                }
            }
            return;
        }
        j = j + 1;
    }
    proof {
        lemma_keyed_insert_push(m, entry_key(), (name@, session@));
    }
    table.push((name, session));
    proof {
        assert(entries_view(table@) =~= m.push((name@, session@)));
    }
}

} // verus!
