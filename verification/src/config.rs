//! The configuration of a server and of a client.

use crate::name_map::{listed_map, NameMap};
use crate::text::{lower, to_lower};
use vstd::prelude::*;
use vstd::string::*;

verus! {

/// What an optional value stands for.
pub open spec fn opt_view<T: View>(o: Option<T>) -> Option<T::V> {
    match o {
        Some(t) => Some(t@),
        None => None,
    }
}

/// A copy of an optional text.
pub(crate) fn copy_text(o: &Option<String>) -> (r: Option<String>)
    ensures
        opt_view(r) == opt_view(*o),
{
    match o {
        Some(s) => Some(s.clone()),
        None => None,
    }
}

/// The transport protocol of a service.
#[derive(Debug, Clone, Copy, PartialEq, Eq, Structural)]
pub enum ServiceType {
    Tcp,
    Udp,
}

impl View for ServiceType {
    type V = ServiceType;

    open spec fn view(&self) -> ServiceType {
        *self
    }
}

/// How a service type is written.
pub open spec fn type_text(t: ServiceType) -> Seq<char> {
    match t {
        ServiceType::Tcp => "tcp"@,
        ServiceType::Udp => "udp"@,
    }
}

/// The service type that a text names, in any case.
pub open spec fn named_type(text: Seq<char>) -> Option<ServiceType> {
    if lower(text) == "tcp"@ {
        Some(ServiceType::Tcp)
    } else if lower(text) == "udp"@ {
        Some(ServiceType::Udp)
    } else {
        None
    }
}

impl ServiceType {
    /// How the type is written.
    pub fn text(self) -> (r: String)
        ensures
            r@ == type_text(self),
    {
        match self {
            ServiceType::Tcp => "tcp".to_owned(),
            ServiceType::Udp => "udp".to_owned(),
        }
    }

    /// The type that a text names, in any case.
    pub fn named(text: &str) -> (r: Option<ServiceType>)
        ensures
            r == named_type(text@),
    {
        let name = to_lower(text);
        if *name.as_str() == *"tcp" {
            Some(ServiceType::Tcp)
        } else if *name.as_str() == *"udp" {
            Some(ServiceType::Udp)
        } else {
            None
        }
    }
}

/// How a service type is written names that type.
pub proof fn law_type_text_names_type(t: ServiceType)
    ensures
        named_type(type_text(t)) == Some(t),
{
    reveal_strlit("tcp");
    reveal_strlit("udp");
    let s = type_text(t);
    assert(vstd::utf8::is_ascii_chars(s));
    assert(crate::text::ascii_lower(s) =~= s);
    assert("tcp"@[0] != "udp"@[0]);
}

/// A text that is not to be shown, such as a token.
pub struct MaskedString {
    text: String,
}

impl View for MaskedString {
    type V = Seq<char>;

    closed spec fn view(&self) -> Seq<char> {
        self.text@
    }
}

impl MaskedString {
    /// The masked form of a text.
    pub fn from(text: &str) -> (r: MaskedString)
        ensures
            r@ == text@,
    {
        MaskedString { text: text.to_owned() }
    }

    /// The text itself.
    pub fn as_str(&self) -> (r: &str)
        ensures
            r@ == self@,
    {
        self.text.as_str()
    }
}

impl Clone for MaskedString {
    fn clone(&self) -> (r: Self)
        ensures
            r@ == self@,
    {
        MaskedString::from(self.text.as_str())
    }
}

/// A copy of an optional token.
pub(crate) fn copy_masked(o: &Option<MaskedString>) -> (r: Option<MaskedString>)
    ensures
        opt_view(r) == opt_view(*o),
{
    match o {
        Some(s) => Some(s.clone()),
        None => None,
    }
}

/// The masked form of an optional text.
pub(crate) fn mask_text(o: &Option<String>) -> (r: Option<MaskedString>)
    ensures
        opt_view(r) == opt_view(*o),
{
    match o {
        Some(s) => Some(MaskedString::from(s.as_str())),
        None => None,
    }
}

/// A service as the server offers it.
pub struct ServerServiceConfig {
    pub service_type: ServiceType,
    pub name: String,
    pub bind_addr: String,
    pub token: Option<MaskedString>,
    pub nodelay: Option<bool>,
}

/// What a service of the server stands for.
#[verifier::ext_equal]
pub struct ServerServiceView {
    pub service_type: ServiceType,
    pub name: Seq<char>,
    pub bind_addr: Seq<char>,
    pub token: Option<Seq<char>>,
    pub nodelay: Option<bool>,
}

impl View for ServerServiceConfig {
    type V = ServerServiceView;

    open spec fn view(&self) -> ServerServiceView {
        ServerServiceView {
            service_type: self.service_type,
            name: self.name@,
            bind_addr: self.bind_addr@,
            token: opt_view(self.token),
            nodelay: self.nodelay,
        }
    }
}

impl Clone for ServerServiceConfig {
    fn clone(&self) -> (r: Self)
        ensures
            r@ == self@,
    {
        ServerServiceConfig {
            service_type: self.service_type,
            name: self.name.clone(),
            bind_addr: self.bind_addr.clone(),
            token: copy_masked(&self.token),
            nodelay: self.nodelay,
        }
    }
}

/// A service as the client forwards it.
pub struct ClientServiceConfig {
    pub service_type: ServiceType,
    pub name: String,
    pub local_addr: String,
    pub prefer_ipv6: bool,
    pub token: Option<MaskedString>,
    pub nodelay: Option<bool>,
    pub retry_interval: Option<u64>,
    pub bind_addr: Option<String>,
}

/// What a service of the client stands for.
#[verifier::ext_equal]
pub struct ClientServiceView {
    pub service_type: ServiceType,
    pub name: Seq<char>,
    pub local_addr: Seq<char>,
    pub prefer_ipv6: bool,
    pub token: Option<Seq<char>>,
    pub nodelay: Option<bool>,
    pub retry_interval: Option<u64>,
    pub bind_addr: Option<Seq<char>>,
}

impl View for ClientServiceConfig {
    type V = ClientServiceView;

    open spec fn view(&self) -> ClientServiceView {
        ClientServiceView {
            service_type: self.service_type,
            name: self.name@,
            local_addr: self.local_addr@,
            prefer_ipv6: self.prefer_ipv6,
            token: opt_view(self.token),
            nodelay: self.nodelay,
            retry_interval: self.retry_interval,
            bind_addr: opt_view(self.bind_addr),
        }
    }
}

impl Clone for ClientServiceConfig {
    fn clone(&self) -> (r: Self)
        ensures
            r@ == self@,
    {
        ClientServiceConfig {
            service_type: self.service_type,
            name: self.name.clone(),
            local_addr: self.local_addr.clone(),
            prefer_ipv6: self.prefer_ipv6,
            token: copy_masked(&self.token),
            nodelay: self.nodelay,
            retry_interval: self.retry_interval,
            bind_addr: copy_text(&self.bind_addr),
        }
    }
}

/// The services that the server keeps for the clients of one token.
pub struct StoredClientConfig {
    pub services: NameMap<ClientServiceConfig>,
}

/// What a stored client configuration stands for.
#[verifier::ext_equal]
pub struct StoredClientView {
    pub services: Map<Seq<char>, ClientServiceView>,
}

impl View for StoredClientConfig {
    type V = StoredClientView;

    open spec fn view(&self) -> StoredClientView {
        StoredClientView { services: self.services@ }
    }
}

impl Clone for StoredClientConfig {
    fn clone(&self) -> (r: Self)
        ensures
            r@ == self@,
    {
        let ghost entries = self.services.listing();
        let n = self.services.len();
        let mut services: NameMap<ClientServiceConfig> = NameMap::new();
        let mut i: usize = 0;
        assert(entries.take(0) =~= Seq::empty());
        while i < n
            invariant
                i <= n,
                n == entries.len(),
                entries == self.services.listing(),
                services@ == listed_map(entries.take(i as int)),
            decreases n - i,
        {
            proof {
                assert(entries.take(i + 1).drop_last() =~= entries.take(i as int));
                assert(entries.take(i + 1).last() == entries[i as int]);
            }
            services.insert(self.services.name_at(i).clone(), self.services.value_at(i).clone());
            i = i + 1;
        }
        assert(entries.take(i as int) =~= entries);
        StoredClientConfig { services }
    }
}

/// How the server's control interface is reached.
pub struct ApiConfig {
    pub enabled: bool,
    pub bind_addr: String,
    pub token: Option<MaskedString>,
}

/// What an interface configuration stands for.
#[verifier::ext_equal]
pub struct ApiConfigView {
    pub enabled: bool,
    pub bind_addr: Seq<char>,
    pub token: Option<Seq<char>>,
}

impl View for ApiConfig {
    type V = ApiConfigView;

    open spec fn view(&self) -> ApiConfigView {
        ApiConfigView {
            enabled: self.enabled,
            bind_addr: self.bind_addr@,
            token: opt_view(self.token),
        }
    }
}

/// How a client registers its services with the server by itself.
pub struct AutoRegisterConfig {
    pub enabled: bool,
    pub api_addr: Option<String>,
    pub api_token: Option<MaskedString>,
}

/// What a registration configuration stands for.
#[verifier::ext_equal]
pub struct AutoRegisterView {
    pub enabled: bool,
    pub api_addr: Option<Seq<char>>,
    pub api_token: Option<Seq<char>>,
}

impl View for AutoRegisterConfig {
    type V = AutoRegisterView;

    open spec fn view(&self) -> AutoRegisterView {
        AutoRegisterView {
            enabled: self.enabled,
            api_addr: opt_view(self.api_addr),
            api_token: opt_view(self.api_token),
        }
    }
}

/// The settings of the transport below the services. The built-in ones are all
/// that is chosen here.
#[derive(Debug, Clone, Copy, PartialEq, Eq, Structural)]
pub struct TransportConfig {}

impl Default for TransportConfig {
    fn default() -> (r: Self)
        ensures
            r == (TransportConfig {  }),
    {
        TransportConfig {  }
    }
}

/// The configuration of a client.
pub struct ClientConfig {
    pub remote_addr: String,
    pub default_token: Option<MaskedString>,
    pub prefer_ipv6: Option<bool>,
    pub services: NameMap<ClientServiceConfig>,
    pub transport: TransportConfig,
    pub heartbeat_timeout: u64,
    pub retry_interval: u64,
    pub auto_register: Option<AutoRegisterConfig>,
}

/// What a client configuration stands for.
#[verifier::ext_equal]
pub struct ClientConfigView {
    pub remote_addr: Seq<char>,
    pub default_token: Option<Seq<char>>,
    pub prefer_ipv6: Option<bool>,
    pub services: Map<Seq<char>, ClientServiceView>,
    pub transport: TransportConfig,
    pub heartbeat_timeout: u64,
    pub retry_interval: u64,
    pub auto_register: Option<AutoRegisterView>,
}

impl View for ClientConfig {
    type V = ClientConfigView;

    open spec fn view(&self) -> ClientConfigView {
        ClientConfigView {
            remote_addr: self.remote_addr@,
            default_token: opt_view(self.default_token),
            prefer_ipv6: self.prefer_ipv6,
            services: self.services@,
            transport: self.transport,
            heartbeat_timeout: self.heartbeat_timeout,
            retry_interval: self.retry_interval,
            auto_register: opt_view(self.auto_register),
        }
    }
}

/// A client configuration in which nothing is set.
pub open spec fn unset_client() -> ClientConfigView {
    ClientConfigView {
        remote_addr: Seq::empty(),
        default_token: None,
        prefer_ipv6: None,
        services: Map::empty(),
        transport: (TransportConfig {  }),
        heartbeat_timeout: 0,
        retry_interval: 0,
        auto_register: None,
    }
}

impl Default for ClientConfig {
    fn default() -> (r: Self)
        ensures
            r@ == unset_client(),
            r@ == (ClientConfigView {
                remote_addr: Seq::empty(),
                default_token: None,
                prefer_ipv6: None,
                services: Map::empty(),
                transport: (TransportConfig {  }),
                heartbeat_timeout: 0,
                retry_interval: 0,
                auto_register: None,
            }),
    {
        ClientConfig {
            remote_addr: String::new(),
            default_token: None,
            prefer_ipv6: None,
            services: NameMap::new(),
            transport: TransportConfig {  },
            heartbeat_timeout: 0,
            retry_interval: 0,
            auto_register: None,
        }
    }
}

/// The configuration of a server.
pub struct ServerConfig {
    pub bind_addr: String,
    pub default_token: Option<MaskedString>,
    pub services: NameMap<ServerServiceConfig>,
    pub transport: TransportConfig,
    pub heartbeat_interval: u64,
    pub api: Option<ApiConfig>,
    pub client_configs: NameMap<StoredClientConfig>,
}

/// What a server configuration stands for.
#[verifier::ext_equal]
pub struct ServerConfigView {
    pub bind_addr: Seq<char>,
    pub default_token: Option<Seq<char>>,
    pub services: Map<Seq<char>, ServerServiceView>,
    pub transport: TransportConfig,
    pub heartbeat_interval: u64,
    pub api: Option<ApiConfigView>,
    pub client_configs: Map<Seq<char>, StoredClientView>,
}

impl View for ServerConfig {
    type V = ServerConfigView;

    open spec fn view(&self) -> ServerConfigView {
        ServerConfigView {
            bind_addr: self.bind_addr@,
            default_token: opt_view(self.default_token),
            services: self.services@,
            transport: self.transport,
            heartbeat_interval: self.heartbeat_interval,
            api: opt_view(self.api),
            client_configs: self.client_configs@,
        }
    }
}

/// A server configuration in which nothing is set.
pub open spec fn unset_server() -> ServerConfigView {
    ServerConfigView {
        bind_addr: Seq::empty(),
        default_token: None,
        services: Map::empty(),
        transport: (TransportConfig {  }),
        heartbeat_interval: 0,
        api: None,
        client_configs: Map::empty(),
    }
}

impl Default for ServerConfig {
    fn default() -> (r: Self)
        ensures
            r@ == unset_server(),
            r@ == (ServerConfigView {
                bind_addr: Seq::empty(),
                default_token: None,
                services: Map::empty(),
                transport: (TransportConfig {  }),
                heartbeat_interval: 0,
                api: None,
                client_configs: Map::empty(),
            }),
    {
        ServerConfig {
            bind_addr: String::new(),
            default_token: None,
            services: NameMap::new(),
            transport: TransportConfig {  },
            heartbeat_interval: 0,
            api: None,
            client_configs: NameMap::new(),
        }
    }
}

/// A configuration: of a server, of a client, or of both.
pub struct Config {
    pub server: Option<ServerConfig>,
    pub client: Option<ClientConfig>,
}

/// What a configuration stands for.
#[verifier::ext_equal]
pub struct ConfigView {
    pub server: Option<ServerConfigView>,
    pub client: Option<ClientConfigView>,
}

impl View for Config {
    type V = ConfigView;

    open spec fn view(&self) -> ConfigView {
        ConfigView { server: opt_view(self.server), client: opt_view(self.client) }
    }
}

/// A change to the services of a running server.
pub enum ServerServiceChange {
    Add(ServerServiceConfig),
    Delete(String),
}

/// A change of the configuration while an instance runs.
pub enum ConfigChange {
    /// The configuration as a whole is another.
    General(Box<Config>),
    /// A service of the server came or went.
    ServerChange(ServerServiceChange),
}

}
