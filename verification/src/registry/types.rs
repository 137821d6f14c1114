//! An installed server and the names under which its parts are stored.

use crate::json::{opt_json, Json};
use crate::text::{copy_list, copy_opt, opt_text, same, texts};
use vstd::prelude::*;

verus! {

/// How the command of a server is started.
#[derive(Clone, Copy, Debug, PartialEq, Eq, Structural)]
pub enum CommandKind {
    Node,
    Python,
    Binary,
}

impl CommandKind {
    /// The stored name of a kind.
    pub open spec fn name(self) -> Seq<char> {
        match self {
            CommandKind::Node => "node"@,
            CommandKind::Python => "python"@,
            CommandKind::Binary => "binary"@,
        }
    }

    /// The kind that a stored name stands for; a name that is not known stands for `Node`.
    pub open spec fn named(name: Seq<char>) -> CommandKind {
        if name == "python"@ {
            CommandKind::Python
        } else if name == "binary"@ {
            CommandKind::Binary
        } else {
            CommandKind::Node
        }
    }

    /// The stored name of this kind.
    pub fn as_str(&self) -> (r: &'static str)
        ensures
            r@ == self.name(),
    {
        match self {
            CommandKind::Node => "node",
            CommandKind::Python => "python",
            CommandKind::Binary => "binary",
        }
    }

    /// The kind that a stored name stands for.
    pub fn parse(name: &str) -> (r: CommandKind)
        ensures
            r == CommandKind::named(name@),
    {
        if same(name, "python") {
            CommandKind::Python
        } else if same(name, "binary") {
            CommandKind::Binary
        } else {
            CommandKind::Node
        }
    }
}

/// How a server is reached.
#[derive(Debug, PartialEq, Eq)]
pub enum Transport {
    Stdio,
    HttpRemote { url: String },
}

/// What a [`Transport`] says.
pub enum TransportView {
    Stdio,
    HttpRemote { url: Seq<char> },
}

impl View for Transport {
    type V = TransportView;

    open spec fn view(&self) -> TransportView {
        match self {
            Transport::Stdio => TransportView::Stdio,
            Transport::HttpRemote { url } => TransportView::HttpRemote { url: url@ },
        }
    }
}

impl Clone for Transport {
    fn clone(&self) -> (r: Self)
        ensures
            r == *self,
    {
        match self {
            Transport::Stdio => Transport::Stdio,
            Transport::HttpRemote { url } => Transport::HttpRemote { url: url.clone() },
        }
    }
}

impl TransportView {
    /// The stored name of a transport.
    pub open spec fn kind(self) -> Seq<char> {
        match self {
            TransportView::Stdio => "stdio"@,
            TransportView::HttpRemote { .. } => "http_remote"@,
        }
    }

    /// The stored address of a transport.
    pub open spec fn url(self) -> Option<Seq<char>> {
        match self {
            TransportView::Stdio => None,
            TransportView::HttpRemote { url } => Some(url),
        }
    }

    /// The transport that a stored name and address stand for. Anything but a remote with an
    /// address is `Stdio`.
    pub open spec fn stored(kind: Seq<char>, url: Option<Seq<char>>) -> TransportView {
        match url {
            Some(address) => if kind == "http_remote"@ {
                TransportView::HttpRemote { url: address }
            } else {
                TransportView::Stdio
            },
            None => TransportView::Stdio,
        }
    }
}

impl Transport {
    /// The stored name of this transport.
    pub fn dispatch_kind(&self) -> (r: &'static str)
        ensures
            r@ == self@.kind(),
    {
        match self {
            Transport::Stdio => "stdio",
            Transport::HttpRemote { .. } => "http_remote",
        }
    }

    /// The address of this transport, where it has one.
    pub fn deployment_url(&self) -> (r: Option<&str>)
        ensures
            r is Some == self@.url() is Some,
            r is Some ==> r->0@ == self@.url()->0,
    {
        match self {
            Transport::Stdio => None,
            Transport::HttpRemote { url } => Some(url.as_str()),
        }
    }

    /// The transport that a stored name and address stand for.
    pub fn parse(kind: &str, deployment_url: Option<&str>) -> (r: Transport)
        ensures
            r@ == TransportView::stored(
                kind@,
                match deployment_url {
                    Some(url) => Some(url@),
                    None => None,
                },
            ),
    {
        match deployment_url {
            Some(url) => if same(kind, "http_remote") {
                Transport::HttpRemote { url: url.to_owned() }
            } else {
                Transport::Stdio
            },
            None => Transport::Stdio,
        }
    }
}

/// Where a server came from.
#[derive(Clone, Copy, Debug, PartialEq, Eq, Structural)]
pub enum ServerProvenance {
    Registry,
    Custom,
}

impl ServerProvenance {
    /// The stored name of a provenance.
    pub open spec fn name(self) -> Seq<char> {
        match self {
            ServerProvenance::Registry => "registry"@,
            ServerProvenance::Custom => "custom"@,
        }
    }

    /// The provenance that a stored name stands for; a name that is not known stands for
    /// `Registry`.
    pub open spec fn named(name: Seq<char>) -> ServerProvenance {
        if name == "custom"@ {
            ServerProvenance::Custom
        } else {
            ServerProvenance::Registry
        }
    }

    /// The stored name of this provenance.
    pub fn as_str(&self) -> (r: &'static str)
        ensures
            r@ == self.name(),
    {
        match self {
            ServerProvenance::Registry => "registry",
            ServerProvenance::Custom => "custom",
        }
    }

    /// The provenance that a stored name stands for.
    pub fn parse(name: &str) -> (r: ServerProvenance)
        ensures
            r == ServerProvenance::named(name@),
    {
        if same(name, "custom") {
            ServerProvenance::Custom
        } else {
            ServerProvenance::Registry
        }
    }
}

/// An installed server. The values of its environment are kept elsewhere; only their keys are here.
#[derive(Debug, PartialEq)]
pub struct InstalledServer {
    pub server_id: String,
    pub qualified_name: String,
    pub display_name: String,
    pub description: Option<String>,
    pub icon_url: Option<String>,
    pub command_kind: CommandKind,
    pub command: String,
    pub args: Vec<String>,
    pub env_keys: Vec<String>,
    pub config: Option<serde_json::Value>,
    pub installed_at: i64,
    pub last_connected_at: Option<i64>,
    pub transport: Transport,
    pub enabled: bool,
    pub provenance: ServerProvenance,
}

/// What an [`InstalledServer`] says.
pub struct InstalledServerView {
    pub server_id: Seq<char>,
    pub qualified_name: Seq<char>,
    pub display_name: Seq<char>,
    pub description: Option<Seq<char>>,
    pub icon_url: Option<Seq<char>>,
    pub command_kind: CommandKind,
    pub command: Seq<char>,
    pub args: Seq<Seq<char>>,
    pub env_keys: Seq<Seq<char>>,
    pub config: Option<Json>,
    pub installed_at: int,
    pub last_connected_at: Option<i64>,
    pub transport: TransportView,
    pub enabled: bool,
    pub provenance: ServerProvenance,
}

impl View for InstalledServer {
    type V = InstalledServerView;

    open spec fn view(&self) -> InstalledServerView {
        InstalledServerView {
            server_id: self.server_id@,
            qualified_name: self.qualified_name@,
            display_name: self.display_name@,
            description: opt_text(self.description),
            icon_url: opt_text(self.icon_url),
            command_kind: self.command_kind,
            command: self.command@,
            args: texts(self.args@),
            env_keys: texts(self.env_keys@),
            config: opt_json(self.config),
            installed_at: self.installed_at as int,
            last_connected_at: self.last_connected_at,
            transport: self.transport@,
            enabled: self.enabled,
            provenance: self.provenance,
        }
    }
}

impl Clone for InstalledServer {
    fn clone(&self) -> (r: Self)
        ensures
            r@ == self@,
    {
        InstalledServer {
            server_id: self.server_id.clone(),
            qualified_name: self.qualified_name.clone(),
            display_name: self.display_name.clone(),
            description: copy_opt(&self.description),
            icon_url: copy_opt(&self.icon_url),
            command_kind: self.command_kind,
            command: self.command.clone(),
            args: copy_list(&self.args),
            env_keys: copy_list(&self.env_keys),
            config: match &self.config {
                Some(value) => Some(value.clone()),
                None => None,
            },
            installed_at: self.installed_at,
            last_connected_at: self.last_connected_at,
            transport: self.transport.clone(),
            enabled: self.enabled,
            provenance: self.provenance,
        }
    }
}

/// A stored transport is read back as it was.
pub proof fn law_transport_round_trips(transport: TransportView)
    ensures
        TransportView::stored(transport.kind(), transport.url()) == transport,
{
    reveal_strlit("stdio");
    reveal_strlit("http_remote");
}

/// A stored command kind is read back as it was.
pub proof fn law_command_kind_round_trips(kind: CommandKind)
    ensures
        CommandKind::named(kind.name()) == kind,
{
    reveal_strlit("node");
    reveal_strlit("python");
    reveal_strlit("binary");
    assert("node"@[0] != "python"@[0] && "node"@[0] != "binary"@[0] && "binary"@[0]
        != "python"@[0]);
}

/// A stored provenance is read back as it was.
pub proof fn law_provenance_round_trips(provenance: ServerProvenance)
    ensures
        ServerProvenance::named(provenance.name()) == provenance,
{
    reveal_strlit("registry");
    reveal_strlit("custom");
    assert("registry"@[0] != "custom"@[0]);
}

/// What no name stands for is read as a registry install over standard streams, started as a Node
/// command.
pub proof fn law_unknown_names_fall_back(name: Seq<char>, url: Option<Seq<char>>)
    ensures
        name != "http_remote"@ ==> TransportView::stored(name, url) == TransportView::Stdio,
        TransportView::stored(name, None) == TransportView::Stdio,
        name != "custom"@ ==> ServerProvenance::named(name) == ServerProvenance::Registry,
        name != "python"@ && name != "binary"@ ==> CommandKind::named(name) == CommandKind::Node,
{
}

/// The stored names, and what each name is read as: a kind, a provenance or a transport other than
/// the usual one is read from exactly its own name, and a remote only with an address, which it
/// keeps.
pub proof fn law_a_stored_name_is_read_exactly(name: Seq<char>, url: Seq<char>)
    ensures
        CommandKind::Node.name() == "node"@,
        CommandKind::Python.name() == "python"@,
        CommandKind::Binary.name() == "binary"@,
        CommandKind::named(name) == CommandKind::Python <==> name == "python"@,
        CommandKind::named(name) == CommandKind::Binary <==> name == "binary"@,
        ServerProvenance::Registry.name() == "registry"@,
        ServerProvenance::Custom.name() == "custom"@,
        ServerProvenance::named(name) == ServerProvenance::Custom <==> name == "custom"@,
        TransportView::Stdio.kind() == "stdio"@,
        TransportView::Stdio.url() is None,
        (TransportView::HttpRemote { url }).kind() == "http_remote"@,
        (TransportView::HttpRemote { url }).url() == Some(url),
        TransportView::stored(name, None) == TransportView::Stdio,
        name == "http_remote"@ ==> TransportView::stored(name, Some(url)) == (
        TransportView::HttpRemote { url }),
        name != "http_remote"@ ==> TransportView::stored(name, Some(url)) == TransportView::Stdio,
{
    reveal_strlit("python");
    reveal_strlit("binary");
    assert("python"@[0] != "binary"@[0]);
}

/// What an installed server says is what it holds, field by field.
pub proof fn law_a_server_says_what_it_holds(server: InstalledServer)
    ensures
        server@.server_id == server.server_id@,
        server@.qualified_name == server.qualified_name@,
        server@.display_name == server.display_name@,
        server.description is Some <==> server@.description is Some,
        server.description is Some ==> server@.description->0 == server.description->0@,
        server.icon_url is Some <==> server@.icon_url is Some,
        server.icon_url is Some ==> server@.icon_url->0 == server.icon_url->0@,
        server@.command_kind == server.command_kind,
        server@.command == server.command@,
        server@.args == texts(server.args@),
        server@.env_keys == texts(server.env_keys@),
        server@.config == opt_json(server.config),
        server@.installed_at == server.installed_at,
        server@.last_connected_at == server.last_connected_at,
        server@.enabled == server.enabled,
        server@.provenance == server.provenance,
        server.transport is Stdio <==> server@.transport is Stdio,
        server.transport is HttpRemote ==> server@.transport->url == server.transport->url@,
{
}

} // verus!
