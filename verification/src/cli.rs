//! What a user says on the command line.

use crate::config::opt_view;
use crate::text::{
    before_first, concat3, find_char, first_place, lemma_first_place, lemma_split_at,
    lemma_split_none, split, split_text, text_after, text_before,
};
use crate::text_laws::{join, law_joined_pieces_are_split};
use std::path::PathBuf;
use vstd::prelude::*;
use vstd::string::*;

verus! {

/// A path in the file system. It is carried along and never looked into.
#[verifier::external_type_specification]
#[verifier::external_body]
pub struct ExPathBuf(std::path::PathBuf);

/// The curve of a key pair.
#[derive(Debug, Clone, Copy, PartialEq, Eq, Structural)]
pub enum KeypairType {
    X25519,
    X448,
}

/// A service to forward, as the command line defines it.
#[derive(Debug, Clone)]
pub struct ServiceDef {
    pub name: String,
    pub local_addr: String,
    pub bind_addr: Option<String>,
}

/// What a definition of a service says.
#[verifier::ext_equal]
pub struct ServiceDefView {
    pub name: Seq<char>,
    pub local_addr: Seq<char>,
    pub bind_addr: Option<Seq<char>>,
}

impl View for ServiceDef {
    type V = ServiceDefView;

    open spec fn view(&self) -> ServiceDefView {
        ServiceDefView {
            name: self.name@,
            local_addr: self.local_addr@,
            bind_addr: opt_view(self.bind_addr),
        }
    }
}

/// What a text of the form `name:local_addr[:bind_addr]` defines. The name ends
/// at the first colon, and an address is a host, a colon and a port.
pub open spec fn service_def(s: Seq<char>) -> Result<ServiceDefView, Seq<char>> {
    if !s.contains(':') {
        Err("Service format: name:local_addr[:bind_addr]"@)
    } else {
        let parts = split(s.skip(first_place(s, ':') + 1), ':');
        if parts.len() < 2 {
            Err("local_addr must be in host:port format"@)
        } else {
            Ok(
                ServiceDefView {
                    name: before_first(s, ':'),
                    local_addr: parts[0] + ":"@ + parts[1],
                    bind_addr: if parts.len() >= 4 {
                        Some(parts[2] + ":"@ + parts[3])
                    } else {
                        None
                    },
                },
            )
        }
    }
}

impl std::str::FromStr for ServiceDef {
    type Err = String;

    /// Read a definition, such as `my_svc:127.0.0.1:8080` or
    /// `my_svc:127.0.0.1:8080:0.0.0.0:0`.
    fn from_str(s: &str) -> (r: Result<Self, String>)
        ensures
            match r {
                Ok(def) => service_def(s@) == Ok::<ServiceDefView, Seq<char>>(def@),
                Err(e) => service_def(s@) == Err::<ServiceDefView, Seq<char>>(e@),
            },
    {
        let at = find_char(s, ':');
        proof {
            lemma_first_place(s@, ':');
        }
        if at == s.unicode_len() {
            return Err("Service format: name:local_addr[:bind_addr]".to_owned());
        }
        let name = text_before(s, ':');
        let parts = split_text(text_after(s, at + 1), ':');
        let ghost views = parts@.map_values(|p: String| p@);
        assert(views.len() == parts@.len());
        if parts.len() < 2 {
            return Err("local_addr must be in host:port format".to_owned());
        }
        let local_addr = concat3(parts[0].as_str(), ":", parts[1].as_str());
        assert(views[0] == parts@[0]@ && views[1] == parts@[1]@);
        let bind_addr = if parts.len() >= 4 {
            assert(views[2] == parts@[2]@ && views[3] == parts@[3]@);
            Some(concat3(parts[2].as_str(), ":", parts[3].as_str()))
        } else {
            None
        };
        Ok(ServiceDef { name: name.to_owned(), local_addr, bind_addr })
    }
}

/// A name and the address that it is forwarded to, written one behind the other
/// with colons between, are read back, and so is a bind address behind them.
/// Neither the name nor a host nor a port holds a colon.
pub proof fn law_definition_is_read_back(
    name: Seq<char>,
    host: Seq<char>,
    port: Seq<char>,
    bind_host: Seq<char>,
    bind_port: Seq<char>,
)
    requires
        !name.contains(':'),
        !host.contains(':'),
        !port.contains(':'),
        !bind_host.contains(':'),
        !bind_port.contains(':'),
    ensures
        service_def(name + ":"@ + host + ":"@ + port) == Ok::<ServiceDefView, Seq<char>>(
            ServiceDefView { name, local_addr: host + ":"@ + port, bind_addr: None },
        ),
        service_def(
            name + ":"@ + host + ":"@ + port + ":"@ + bind_host + ":"@ + bind_port,
        ) == Ok::<ServiceDefView, Seq<char>>(
            ServiceDefView {
                name,
                local_addr: host + ":"@ + port,
                bind_addr: Some(bind_host + ":"@ + bind_port),
            },
        ),
{
    reveal_strlit(":");
    let colon = ":"@;
    assert(colon =~= seq![':']);
    let short = host + colon + port;
    let tail = bind_host + colon + bind_port;
    let long = host + colon + (port + colon + tail);
    lemma_split_none(port, ':');
    lemma_split_none(bind_port, ':');
    lemma_split_at(host, port, ':');
    lemma_split_at(bind_host, bind_port, ':');
    lemma_split_at(port, tail, ':');
    lemma_split_at(host, port + colon + tail, ':');
    lemma_split_at(name, short, ':');
    lemma_split_at(name, long, ':');
    let a = name + colon + host + colon + port;
    let b = a + colon + bind_host + colon + bind_port;
    assert(a =~= name + colon + short);
    assert(b =~= name + colon + long);
    assert(split(short, ':') =~= seq![host, port]);
    assert(split(long, ':') =~= seq![host, port, bind_host, bind_port]);
    assert(a.skip(name.len() as int + 1) =~= short);
    assert(b.skip(name.len() as int + 1) =~= long);
    assert(a.take(name.len() as int) =~= name);
    assert(b.take(name.len() as int) =~= name);
}

/// A text defines a service exactly where it has two colons or more.
pub proof fn law_what_defines_a_service(s: Seq<char>)
    ensures
        service_def(s) is Ok <==> s.contains(':') && s.skip(first_place(s, ':') + 1).contains(':'),
{
    let rest = s.skip(first_place(s, ':') + 1);
    lemma_first_place(rest, ':');
    if !rest.contains(':') {
        lemma_split_none(rest, ':');
    } else {
        let n = first_place(rest, ':');
        assert(split(rest.skip(n + 1), ':').len() >= 1);
    }
}

/// What a user says on the command line.
#[derive(Debug, Clone)]
pub struct Cli {
    /// The path of the configuration file.
    pub config_path: Option<PathBuf>,
    /// Run as a server.
    pub server: bool,
    /// Run as a client.
    pub client: bool,
    /// Generate a key pair, of this curve if one is named.
    pub genkey: Option<Option<KeypairType>>,
    /// The address of the server, for a client without a configuration file.
    pub remote: Option<String>,
    /// The token of the services.
    pub token: Option<String>,
    /// The address of the control interface, for registering services with it.
    pub api: Option<String>,
    /// The token of the control interface.
    pub api_token: Option<String>,
    /// The services to forward.
    pub services: Vec<ServiceDef>,
    /// The address to bind, for a server without a configuration file.
    pub bind: Option<String>,
    /// The address that the control interface binds.
    pub api_bind: Option<String>,
    /// The address of the control interface to fetch the configuration from.
    pub config_server: Option<String>,
}

impl Default for Cli {
    fn default() -> (r: Self)
        ensures
            r.config_path is None,
            !r.server,
            !r.client,
            r.genkey is None,
            r.remote is None,
            r.token is None,
            r.api is None,
            r.api_token is None,
            r.services@.len() == 0,
            r.bind is None,
            r.api_bind is None,
            r.config_server is None,
    {
        Cli {
            config_path: None,
            server: false,
            client: false,
            genkey: None,
            remote: None,
            token: None,
            api: None,
            api_token: None,
            services: Vec::new(),
            bind: None,
            api_bind: None,
            config_server: None,
        }
    }
}

/// Whatever stands behind the colons of a definition, the name is what stands
/// before the first; the first two parts behind it are the local address, and the
/// third and fourth, where there are four, the bind address. What is left is not
/// looked at. With fewer than two parts, or without a colon, there is no
/// definition, and the reason says which of the two it is.
pub proof fn law_definition_of_parts(name: Seq<char>, parts: Seq<Seq<char>>)
    requires
        !name.contains(':'),
        parts.len() > 0,
        forall|i: int| 0 <= i < parts.len() ==> !(#[trigger] parts[i]).contains(':'),
    ensures
        service_def(name) == Err::<ServiceDefView, Seq<char>>(
            "Service format: name:local_addr[:bind_addr]"@,
        ),
        parts.len() == 1 ==> service_def(name + seq![':'] + join(parts, ':')) == Err::<
            ServiceDefView,
            Seq<char>,
        >("local_addr must be in host:port format"@),
        parts.len() >= 2 ==> {
            &&& service_def(name + seq![':'] + join(parts, ':')) matches Ok(def)
            &&& def.name == name
            &&& split(def.local_addr, ':') == seq![parts[0], parts[1]]
            &&& def.bind_addr is Some <==> parts.len() >= 4
            &&& def.bind_addr matches Some(addr) ==> split(addr, ':') == seq![parts[2], parts[3]]
        },
{
    reveal_strlit(":");
    let colon = ":"@;
    assert(colon =~= seq![':']);
    let rest = join(parts, ':');
    let s = name + seq![':'] + rest;
    law_joined_pieces_are_split(parts, ':');
    lemma_split_at(name, rest, ':');
    assert(s.skip(name.len() as int + 1) =~= rest);
    assert(s.take(name.len() as int) =~= name);
    if parts.len() >= 2 {
        lemma_split_none(parts[1], ':');
        lemma_split_at(parts[0], parts[1], ':');
        assert(seq![parts[0]] + seq![parts[1]] =~= seq![parts[0], parts[1]]);
    }
    if parts.len() >= 4 {
        lemma_split_none(parts[3], ':');
        lemma_split_at(parts[2], parts[3], ':');
        assert(seq![parts[2]] + seq![parts[3]] =~= seq![parts[2], parts[3]]);
    }
}

/// A definition stands for its fields.
pub proof fn law_definition_fields(d: ServiceDef)
    ensures
        d@.name == d.name@,
        d@.local_addr == d.local_addr@,
        d@.bind_addr == opt_view(d.bind_addr),
{
}

}
