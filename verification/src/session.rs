//! A session: one transport paired with cached catalogs for one endpoint.
//!
//! Each `refresh` replaces the matching cache wholesale from a fresh
//! listing; a failed refresh leaves the prior cache intact. Getters hand
//! out snapshot copies, never a live view. Disconnecting clears the
//! initialized flag but not the caches.

use vstd::prelude::*;
use crate::connectors::{self, Connector};
use crate::protocol::{
    Tool, ToolRep, Resource, ResourceRep, Prompt, PromptRep, ToolResult, tools_view,
    resources_view, prompts_view, clone_tools, clone_resources, clone_prompts,
};
use crate::registry::{
    keyed_from, unique_keys, lookup_by_key, tool_key, resource_key, prompt_key,
    catalog_from_tools, catalog_from_resources, catalog_from_prompts, find_tool, find_resource,
    find_prompt,
};
use crate::json::JsonValue;
use crate::error::Error;

verus! {

/// The model of a session: its name, whether the handshake succeeded, and
/// the three cached catalogs.
#[verifier::ext_equal]
pub struct SessionRep {
    pub name: Seq<char>,
    pub initialized: bool,
    pub tools: Seq<ToolRep>,
    pub resources: Seq<ResourceRep>,
    pub prompts: Seq<PromptRep>,
}

/// A session over one connector, with name-keyed catalog caches.
pub struct Session<C: Connector> {
    /// Unique name of this session, usually the endpoint's name.
    pub name: String,
    connector: C,
    initialized: bool,
    tools_cache: Vec<Tool>,
    resources_cache: Vec<Resource>,
    prompts_cache: Vec<Prompt>,
}

impl<C: Connector> View for Session<C> {
    type V = SessionRep;

    closed spec fn view(&self) -> SessionRep {
        SessionRep {
            name: self.name@,
            initialized: self.initialized,
            tools: tools_view(self.tools_cache@),
            resources: resources_view(self.resources_cache@),
            prompts: prompts_view(self.prompts_cache@),
        }
    }
}

impl<C: Connector> Session<C> {
    /// Each cached catalog holds its key at most once.
    pub open spec fn wf(&self) -> bool {
        &&& unique_keys(self@.tools, tool_key())
        &&& unique_keys(self@.resources, resource_key())
        &&& unique_keys(self@.prompts, prompt_key())
    }

    /// A fresh session: not initialized, all caches empty.
    pub fn new(name: &str, connector: C) -> (r: Session<C>)
        ensures
            r@ == (SessionRep {
                name: name@,
                initialized: false,
                tools: Seq::<ToolRep>::empty(),
                resources: Seq::<ResourceRep>::empty(),
                prompts: Seq::<PromptRep>::empty(),
            }),
            r.wf(),
    {
        let r = Session {
            name: String::from_str(name),
            connector,
            initialized: false,
            tools_cache: Vec::new(),
            resources_cache: Vec::new(),
            prompts_cache: Vec::new(),
        };
        proof {
            assert(r@ =~= SessionRep {
                name: name@,
                initialized: false,
                tools: Seq::<ToolRep>::empty(),
                resources: Seq::<ResourceRep>::empty(),
                prompts: Seq::<PromptRep>::empty(),
            });
        }
        r
    }

    /// Establishes the transport connection; the session state is
    /// untouched either way.
    pub fn connect(&mut self) -> (r: Result<(), Error>)
        ensures
            final(self)@ == old(self)@,
    {
        self.connector.connect()
    }

    /// Sends the initialize handshake. Success marks the session
    /// initialized and then warms the tool cache best-effort: a failed
    /// warm-up is swallowed and leaves the old tools in place. A failed
    /// handshake changes nothing.
    pub fn initialize(&mut self) -> (r: Result<JsonValue, Error>)
        ensures
            r is Err ==> final(self)@ == old(self)@,
            r is Ok ==> final(self)@.initialized == true && final(self)@.name == old(self)@.name
                && final(self)@.resources == old(self)@.resources && final(self)@.prompts == old(
                self,
            )@.prompts,
            r is Ok ==> final(self)@.tools == old(self)@.tools || (exists|ts: Seq<ToolRep>|
                final(self)@.tools == keyed_from(ts, tool_key()) && unique_keys(
                    final(self)@.tools,
                    tool_key(),
                )),
            old(self).wf() ==> final(self).wf(),
    {
        let capabilities = match connectors::initialize(&self.connector) {
            Ok(c) => c,
            Err(e) => {
                return Err(e);
            },
        };
        self.initialized = true;
        let warmed = self.refresh_tools();
        match warmed {
            Ok(_) => {},
            Err(_) => {},
        }
        Ok(capabilities)
    }

    /// Whether the transport reports itself connected.
    pub fn is_connected(&self) -> bool {
        self.connector.is_connected()
    }

    /// Whether the handshake has succeeded since the last disconnect.
    pub fn is_initialized(&self) -> (r: bool)
        ensures
            r == self@.initialized,
    {
        self.initialized
    }

    /// Tears the transport down and clears the initialized flag; the
    /// caches stay. A failed teardown changes nothing.
    pub fn disconnect(&mut self) -> (r: Result<(), Error>)
        ensures
            r is Err ==> final(self)@ == old(self)@,
            r is Ok ==> final(self)@ == (SessionRep { initialized: false, ..old(self)@ }),
    {
        match self.connector.disconnect() {
            Ok(_) => {
                self.initialized = false;
                Ok(())
            },
            Err(e) => Err(e),
        }
    }

    /// Replaces the tool cache wholesale from a fresh listing; a failed
    /// listing leaves the prior cache intact.
    pub fn refresh_tools(&mut self) -> (r: Result<(), Error>)
        ensures
            r is Err ==> final(self)@ == old(self)@,
            r is Ok ==> exists|ts: Seq<ToolRep>| final(self)@.tools == keyed_from(ts, tool_key()),
            r is Ok ==> unique_keys(final(self)@.tools, tool_key()) && final(self)@ == (SessionRep {
                tools: final(self)@.tools,
                ..old(self)@
            }),
    {
        match connectors::list_tools(&self.connector) {
            Ok(listing) => {
                self.tools_cache = crate::registry::catalog_from_tools(&listing);
                Ok(())
            },
            Err(e) => Err(e),
        }
    }

    /// A snapshot of the cached tools.
    pub fn get_tools(&self) -> (r: Vec<Tool>)
        ensures
            tools_view(r@) == self@.tools,
    {
        clone_tools(&self.tools_cache)
    }

    /// A snapshot of one cached tool, by name.
    pub fn get_tool(&self, name: &str) -> (r: Option<Tool>)
        ensures
            match r {
                Some(t) => lookup_by_key(self@.tools, tool_key(), name@) == Some(t@),
                None => lookup_by_key(self@.tools, tool_key(), name@) is None,
            },
    {
        match find_tool(&self.tools_cache, name) {
            Some(t) => Some(t.clone()),
            None => None,
        }
    }

    /// Calls a tool on the endpoint; results are never cached.
    pub fn call_tool(&self, tool_name: &str, arguments: JsonValue) -> Result<ToolResult, Error> {
        connectors::call_tool(&self.connector, tool_name, arguments)
    }

    /// Replaces the resource cache wholesale from a fresh listing; a
    /// failed listing leaves the prior cache intact.
    pub fn refresh_resources(&mut self) -> (r: Result<(), Error>)
        ensures
            r is Err ==> final(self)@ == old(self)@,
            r is Ok ==> exists|rs: Seq<ResourceRep>|
                final(self)@.resources == keyed_from(rs, resource_key()),
            r is Ok ==> unique_keys(final(self)@.resources, resource_key()) && final(self)@
                == (SessionRep { resources: final(self)@.resources, ..old(self)@ }),
    {
        match connectors::list_resources(&self.connector) {
            Ok(listing) => {
                self.resources_cache = crate::registry::catalog_from_resources(&listing);
                Ok(())
            },
            Err(e) => Err(e),
        }
    }

    /// A snapshot of the cached resources.
    pub fn get_resources(&self) -> (r: Vec<Resource>)
        ensures
            resources_view(r@) == self@.resources,
    {
        clone_resources(&self.resources_cache)
    }

    /// A snapshot of one cached resource, by URI.
    pub fn get_resource(&self, uri: &str) -> (r: Option<Resource>)
        ensures
            match r {
                Some(res) => lookup_by_key(self@.resources, resource_key(), uri@) == Some(res@),
                None => lookup_by_key(self@.resources, resource_key(), uri@) is None,
            },
    {
        match find_resource(&self.resources_cache, uri) {
            Some(res) => Some(res.clone()),
            None => None,
        }
    }

    /// Reads a resource from the endpoint; contents are never cached.
    pub fn read_resource(&self, uri: &str) -> Result<String, Error> {
        connectors::read_resource(&self.connector, uri)
    }

    /// Replaces the prompt cache wholesale from a fresh listing; a failed
    /// listing leaves the prior cache intact.
    pub fn refresh_prompts(&mut self) -> (r: Result<(), Error>)
        ensures
            r is Err ==> final(self)@ == old(self)@,
            r is Ok ==> exists|ps: Seq<PromptRep>|
                final(self)@.prompts == keyed_from(ps, prompt_key()),
            r is Ok ==> unique_keys(final(self)@.prompts, prompt_key()) && final(self)@
                == (SessionRep { prompts: final(self)@.prompts, ..old(self)@ }),
    {
        match connectors::list_prompts(&self.connector) {
            Ok(listing) => {
                self.prompts_cache = crate::registry::catalog_from_prompts(&listing);
                Ok(())
            },
            Err(e) => Err(e),
        }
    }

    /// A snapshot of the cached prompts.
    pub fn get_prompts(&self) -> (r: Vec<Prompt>)
        ensures
            prompts_view(r@) == self@.prompts,
    {
        clone_prompts(&self.prompts_cache)
    }

    /// A snapshot of one cached prompt, by name.
    pub fn get_prompt_info(&self, name: &str) -> (r: Option<Prompt>)
        ensures
            match r {
                Some(p) => lookup_by_key(self@.prompts, prompt_key(), name@) == Some(p@),
                None => lookup_by_key(self@.prompts, prompt_key(), name@) is None,
            },
    {
        match find_prompt(&self.prompts_cache, name) {
            Some(p) => Some(p.clone()),
            None => None,
        }
    }

    /// Fetches a prompt from the endpoint; results are never cached.
    pub fn get_prompt(&self, name: &str, arguments: Option<JsonValue>) -> Result<JsonValue, Error> {
        connectors::get_prompt(&self.connector, name, arguments)
    }
}

} // verus!
