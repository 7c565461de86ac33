//! The registry of agents that can be installed. Nothing is ever fetched into it.
use vstd::prelude::*;

use crate::list_map::ListMap;

verus! {

/// Identifies an agent.
#[derive(Debug)]
pub struct AgentId(pub String);

#[derive(Debug)]
pub struct RegistryAgentMetadata {
    pub id: AgentId,
    pub name: String,
    pub description: String,
    pub version: String,
    pub repository: Option<String>,
    pub website: Option<String>,
    pub icon_path: Option<String>,
}

/// How an agent is installed on one platform.
#[derive(Debug)]
pub struct RegistryTargetConfig {
    pub archive: String,
    pub cmd: String,
    pub args: Vec<String>,
    pub sha256: Option<String>,
    pub env: ListMap<String, String>,
}

/// An agent that is downloaded for each platform.
#[derive(Debug)]
pub struct RegistryBinaryAgent {
    pub metadata: RegistryAgentMetadata,
    pub targets: ListMap<String, RegistryTargetConfig>,
    pub supports_current_platform: bool,
}

/// An agent that is run from a package.
#[derive(Debug)]
pub struct RegistryNpxAgent {
    pub metadata: RegistryAgentMetadata,
    pub package: String,
    pub args: Vec<String>,
    pub env: ListMap<String, String>,
}

#[derive(Debug)]
pub enum RegistryAgent {
    Binary(RegistryBinaryAgent),
    Npx(RegistryNpxAgent),
}

impl RegistryAgent {
    pub open spec fn described_by(self) -> RegistryAgentMetadata {
        match self {
            RegistryAgent::Binary(agent) => agent.metadata,
            RegistryAgent::Npx(agent) => agent.metadata,
        }
    }

    pub fn metadata(&self) -> (metadata: &RegistryAgentMetadata)
        ensures
            *metadata == self.described_by(),
    {
        match self {
            RegistryAgent::Binary(agent) => &agent.metadata,
            RegistryAgent::Npx(agent) => &agent.metadata,
        }
    }

    pub fn id(&self) -> (id: &AgentId)
        ensures
            *id == self.described_by().id,
    {
        &self.metadata().id
    }

    pub fn name(&self) -> (name: &String)
        ensures
            *name == self.described_by().name,
    {
        &self.metadata().name
    }

    pub fn description(&self) -> (description: &String)
        ensures
            *description == self.described_by().description,
    {
        &self.metadata().description
    }

    pub fn version(&self) -> (version: &String)
        ensures
            *version == self.described_by().version,
    {
        &self.metadata().version
    }

    pub fn repository(&self) -> (repository: Option<&String>)
        ensures
            repository == (match self.described_by().repository {
                Some(text) => Some(&text),
                None => None,
            }),
    {
        self.metadata().repository.as_ref()
    }

    pub fn website(&self) -> (website: Option<&String>)
        ensures
            website == (match self.described_by().website {
                Some(text) => Some(&text),
                None => None,
            }),
    {
        self.metadata().website.as_ref()
    }

    pub fn icon_path(&self) -> (icon_path: Option<&String>)
        ensures
            icon_path == (match self.described_by().icon_path {
                Some(text) => Some(&text),
                None => None,
            }),
    {
        self.metadata().icon_path.as_ref()
    }

    /// An agent that is run from a package runs everywhere.
    pub fn supports_current_platform(&self) -> (supports: bool)
        ensures
            supports == match self {
                RegistryAgent::Binary(agent) => agent.supports_current_platform,
                RegistryAgent::Npx(_) => true,
            },
    {
        match self {
            RegistryAgent::Binary(agent) => agent.supports_current_platform,
            RegistryAgent::Npx(_) => true,
        }
    }
}

/// The agents of the registry: none, as it is never fetched.
#[derive(Debug)]
pub struct AgentRegistryStore {
    agents: Vec<RegistryAgent>,
}

impl View for AgentRegistryStore {
    type V = Seq<RegistryAgent>;

    closed spec fn view(&self) -> Seq<RegistryAgent> {
        self.agents@
    }
}

impl AgentRegistryStore {
    pub fn new() -> (store: Self)
        ensures
            store@.len() == 0,
    {
        AgentRegistryStore { agents: Vec::new() }
    }

    /// The store of the application: the one that is there, else a new one.
    pub fn init_global(existing: Option<Self>) -> (store: Self)
        ensures
            match existing {
                Some(there) => store == there,
                None => store@.len() == 0,
            },
    {
        match existing {
            Some(store) => store,
            None => Self::new(),
        }
    }

    pub fn agents(&self) -> (agents: &Vec<RegistryAgent>)
        ensures
            agents@ == self@,
    {
        &self.agents
    }

    /// No agent is offered.
    pub fn agent(&self, _id: &AgentId) -> (agent: Option<&RegistryAgent>)
        ensures
            agent is None,
    {
        None
    }

    pub fn is_fetching(&self) -> (fetching: bool)
        ensures
            !fetching,
    {
        false
    }

    pub fn fetch_error(&self) -> (error: Option<String>)
        ensures
            error is None,
    {
        None
    }

    /// Fetches nothing.
    pub fn refresh(&mut self)
        ensures
            *final(self) == *old(self),
    {
    }

    /// Fetches nothing.
    pub fn refresh_if_stale(&mut self)
        ensures
            *final(self) == *old(self),
    {
    }
}

/// What is told of an agent is what its own description says, however it is installed. An agent
/// that is downloaded runs where it is said to; one that is run from a package runs everywhere.
pub proof fn agents_are_described_by_their_metadata(
    agent: RegistryAgent,
    id: &AgentId,
    name: &String,
    description: &String,
    version: &String,
    repository: Option<&String>,
    website: Option<&String>,
    icon_path: Option<&String>,
    supports: bool,
)
    requires
        call_ensures(RegistryAgent::id, (&agent,), id),
        call_ensures(RegistryAgent::name, (&agent,), name),
        call_ensures(RegistryAgent::description, (&agent,), description),
        call_ensures(RegistryAgent::version, (&agent,), version),
        call_ensures(RegistryAgent::repository, (&agent,), repository),
        call_ensures(RegistryAgent::website, (&agent,), website),
        call_ensures(RegistryAgent::icon_path, (&agent,), icon_path),
        call_ensures(RegistryAgent::supports_current_platform, (&agent,), supports),
    ensures
        agent matches RegistryAgent::Binary(binary) ==> {
            &&& *id == binary.metadata.id
            &&& *name == binary.metadata.name
            &&& *description == binary.metadata.description
            &&& *version == binary.metadata.version
            &&& (repository is Some <==> binary.metadata.repository is Some)
            &&& (repository matches Some(text) ==> *text == binary.metadata.repository->0)
            &&& (website is Some <==> binary.metadata.website is Some)
            &&& (website matches Some(text) ==> *text == binary.metadata.website->0)
            &&& (icon_path is Some <==> binary.metadata.icon_path is Some)
            &&& (icon_path matches Some(text) ==> *text == binary.metadata.icon_path->0)
            &&& supports == binary.supports_current_platform
        },
        agent matches RegistryAgent::Npx(package) ==> {
            &&& *id == package.metadata.id
            &&& *name == package.metadata.name
            &&& *description == package.metadata.description
            &&& *version == package.metadata.version
            &&& (repository is Some <==> package.metadata.repository is Some)
            &&& (repository matches Some(text) ==> *text == package.metadata.repository->0)
            &&& (website is Some <==> package.metadata.website is Some)
            &&& (website matches Some(text) ==> *text == package.metadata.website->0)
            &&& (icon_path is Some <==> package.metadata.icon_path is Some)
            &&& (icon_path matches Some(text) ==> *text == package.metadata.icon_path->0)
            &&& supports
        },
{
}

/// However often the registry is refreshed, it stays as it is, and a new one offers no agent.
pub proof fn nothing_is_ever_fetched(
    made: AgentRegistryStore,
    there: AgentRegistryStore,
    taken: AgentRegistryStore,
    store: &mut AgentRegistryStore,
    agents: &Vec<RegistryAgent>,
    id: &AgentId,
    agent: Option<&RegistryAgent>,
    fetching: bool,
    error: Option<String>,
)
    requires
        call_ensures(AgentRegistryStore::new, (), made),
        call_ensures(AgentRegistryStore::agents, (&made,), agents),
        call_ensures(AgentRegistryStore::init_global, (Some(there),), taken),
        call_ensures(AgentRegistryStore::refresh, (store,), ()),
        call_ensures(AgentRegistryStore::agent, (&made, id), agent),
        call_ensures(AgentRegistryStore::is_fetching, (&made,), fetching),
        call_ensures(AgentRegistryStore::fetch_error, (&made,), error),
    ensures
        agents@.len() == 0,
        taken == there,
        *final(store) == *old(store),
        agent is None,
        !fetching,
        error is None,
{
}

} // verus!
