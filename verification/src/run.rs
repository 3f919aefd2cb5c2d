//! How a program is started: what its arguments ask for, the configuration that
//! they make up, and what becomes of a running instance when the configuration
//! changes.

use crate::api::{
    handed_out_services, ClientConfigResponse, ClientConfigResponseView, ClientServiceInfoView,
};
use crate::cli::{Cli, KeypairType, ServiceDef, ServiceDefView};
use crate::config::{
    copy_text, mask_text, opt_view, ApiConfig, ApiConfigView, AutoRegisterConfig, AutoRegisterView,
    ClientConfig, ClientConfigView, ClientServiceConfig, ClientServiceView, Config, ConfigChange,
    ConfigView, MaskedString, ServerConfig, ServerConfigView, ServiceType,
    TransportConfig,
};
use crate::name_map::{listed_map, NameMap};
use crate::text::concat;
use std::path::PathBuf;
use vstd::prelude::*;
use vstd::string::*;

verus! {

/// What the arguments ask a program to do.
pub enum StartMode<'a> {
    /// Generate a key pair, of this curve if one is named.
    Genkey(Option<KeypairType>),
    /// Run a client of the server at this address.
    Client(&'a str),
    /// Run a server at this address.
    Server(&'a str),
    /// Run a client with the configuration that is fetched from this address.
    PullConfig(&'a str),
    /// Follow the configuration file at this path.
    Watch(&'a PathBuf),
}

/// What a start mode says.
#[verifier::ext_equal]
pub enum StartModeView {
    Genkey(Option<KeypairType>),
    Client(Seq<char>),
    Server(Seq<char>),
    PullConfig(Seq<char>),
    Watch(PathBuf),
}

impl<'a> View for StartMode<'a> {
    type V = StartModeView;

    open spec fn view(&self) -> StartModeView {
        match *self {
            StartMode::Genkey(curve) => StartModeView::Genkey(curve),
            StartMode::Client(remote) => StartModeView::Client(remote@),
            StartMode::Server(bind) => StartModeView::Server(bind@),
            StartMode::PullConfig(addr) => StartModeView::PullConfig(addr@),
            StartMode::Watch(path) => StartModeView::Watch(*path),
        }
    }
}

/// What the arguments ask for: the first of a key pair, a client, a server, a
/// fetched configuration and a configuration file that they name.
pub open spec fn asked_mode(args: Cli) -> Option<StartModeView> {
    if let Some(curve) = args.genkey {
        Some(StartModeView::Genkey(curve))
    } else if let Some(remote) = args.remote {
        Some(StartModeView::Client(remote@))
    } else if let Some(bind) = args.bind {
        Some(StartModeView::Server(bind@))
    } else if let Some(addr) = args.config_server {
        Some(StartModeView::PullConfig(addr@))
    } else if let Some(path) = args.config_path {
        Some(StartModeView::Watch(path))
    } else {
        None
    }
}

/// What the arguments ask for. They ask for something.
pub fn start_mode(args: &Cli) -> (r: StartMode<'_>)
    requires
        asked_mode(*args) is Some,
    ensures
        asked_mode(*args) == Some(r@),
{
    if let Some(curve) = args.genkey {
        return StartMode::Genkey(curve);
    }
    if let Some(remote) = &args.remote {
        return StartMode::Client(remote.as_str());
    }
    if let Some(bind) = &args.bind {
        return StartMode::Server(bind.as_str());
    }
    if let Some(addr) = &args.config_server {
        return StartMode::PullConfig(addr.as_str());
    }
    match &args.config_path {
        Some(path) => StartMode::Watch(path),
        None => vstd::pervasive::unreached(),
    }
}

/// A service of a client that takes no more than its token, its addresses and
/// its type from elsewhere.
pub open spec fn plain_service(
    service_type: ServiceType,
    name: Seq<char>,
    local_addr: Seq<char>,
    bind_addr: Option<Seq<char>>,
    token: Seq<char>,
) -> ClientServiceView {
    ClientServiceView {
        service_type,
        name,
        local_addr,
        prefer_ipv6: false,
        token: Some(token),
        nodelay: None,
        retry_interval: Some(1),
        bind_addr,
    }
}

/// A configuration of a client that has the built-in settings throughout.
pub open spec fn plain_client(
    remote_addr: Seq<char>,
    token: Seq<char>,
    services: Map<Seq<char>, ClientServiceView>,
    auto_register: Option<AutoRegisterView>,
) -> ConfigView {
    ConfigView {
        server: None,
        client: Some(
            ClientConfigView {
                remote_addr,
                default_token: Some(token),
                prefer_ipv6: None,
                services,
                transport: (TransportConfig {  }),
                heartbeat_timeout: 40,
                retry_interval: 1,
                auto_register,
            },
        ),
    }
}

fn plain_client_config(
    remote_addr: String,
    token: &str,
    services: NameMap<ClientServiceConfig>,
    auto_register: Option<AutoRegisterConfig>,
) -> (r: Config)
    ensures
        r@ == plain_client(remote_addr@, token@, services@, opt_view(auto_register)),
{
    Config {
        server: None,
        client: Some(
            ClientConfig {
                remote_addr,
                default_token: Some(MaskedString::from(token)),
                prefer_ipv6: None,
                services,
                transport: TransportConfig::default(),
                heartbeat_timeout: 40,
                retry_interval: 1,
                auto_register,
            },
        ),
    }
}

/// What the definitions of the command line say.
pub open spec fn def_views(defs: Seq<ServiceDef>) -> Seq<ServiceDefView> {
    defs.map_values(|d: ServiceDef| d@)
}

/// The services that definitions make up: of two with one name the later counts.
pub open spec fn defined_services(defs: Seq<ServiceDefView>, token: Seq<char>) -> Map<
    Seq<char>,
    ClientServiceView,
>
    decreases defs.len(),
{
    if defs.len() == 0 {
        Map::empty()
    } else {
        let d = defs.last();
        defined_services(defs.drop_last(), token).insert(
            d.name,
            plain_service(ServiceType::Tcp, d.name, d.local_addr, d.bind_addr, token),
        )
    }
}

/// How a client is to register its services: with the interface at the address
/// that the arguments name, if they do.
pub open spec fn asked_registration(args: Cli) -> Option<AutoRegisterView> {
    match args.api {
        Some(addr) => Some(
            AutoRegisterView {
                enabled: true,
                api_addr: Some(addr@),
                api_token: opt_view(args.api_token),
            },
        ),
        None => None,
    }
}

/// The configuration that the arguments make up for a client of `remote`.
pub open spec fn client_cli_view(args: Cli, remote: Seq<char>) -> Result<ConfigView, Seq<char>> {
    match args.token {
        None => Err("--token is required when using --remote"@),
        Some(token) => if args.services@.len() == 0 {
            Err("At least one service is required. Use -L name:local_addr[:bind_addr]"@)
        } else {
            Ok(
                plain_client(
                    remote,
                    token@,
                    defined_services(def_views(args.services@), token@),
                    asked_registration(args),
                ),
            )
        },
    }
}

fn define_services(defs: &Vec<ServiceDef>, token: &str) -> (r: NameMap<ClientServiceConfig>)
    ensures
        r@ == defined_services(def_views(defs@), token@),
{
    let ghost views = def_views(defs@);
    let mut services: NameMap<ClientServiceConfig> = NameMap::new();
    let mut i: usize = 0;
    assert(views.take(0) =~= Seq::empty());
    while i < defs.len()
        invariant
            i <= defs@.len(),
            views == def_views(defs@),
            services@ == defined_services(views.take(i as int), token@),
        decreases defs@.len() - i,
    {
        let d = &defs[i];
        proof {
            assert(views.take(i + 1).drop_last() =~= views.take(i as int));
            assert(views.take(i + 1).last() == d@);
        }
        services.insert(
            d.name.clone(),
            ClientServiceConfig {
                service_type: ServiceType::Tcp,
                name: d.name.clone(),
                local_addr: d.local_addr.clone(),
                prefer_ipv6: false,
                token: Some(MaskedString::from(token)),
                nodelay: None,
                retry_interval: Some(1),
                bind_addr: copy_text(&d.bind_addr),
            },
        );
        i = i + 1;
    }
    assert(views.take(i as int) =~= views);
    services
}

/// The configuration that the arguments make up for a client of `remote`.
pub fn client_cli_config(args: &Cli, remote: &str) -> (r: Result<Config, String>)
    ensures
        match r {
            Ok(config) => client_cli_view(*args, remote@) == Ok::<ConfigView, Seq<char>>(config@),
            Err(e) => client_cli_view(*args, remote@) == Err::<ConfigView, Seq<char>>(e@),
        },
{
    let token = match &args.token {
        Some(token) => token,
        None => {
            return Err("--token is required when using --remote".to_owned());
        },
    };
    let services = define_services(&args.services, token.as_str());
    proof {
        law_defined_names(def_views(args.services@), token@);
    }
    if services.is_empty() {
        return Err(
            "At least one service is required. Use -L name:local_addr[:bind_addr]".to_owned(),
        );
    }
    let auto_register = match &args.api {
        Some(addr) => Some(
            AutoRegisterConfig {
                enabled: true,
                api_addr: Some(addr.clone()),
                api_token: mask_text(&args.api_token),
            },
        ),
        None => None,
    };
    Ok(plain_client_config(remote.to_owned(), token.as_str(), services, auto_register))
}

/// The services that definitions make up have exactly the names that are
/// defined, each with the token and the addresses of its last definition.
pub proof fn law_defined_names(defs: Seq<ServiceDefView>, token: Seq<char>)
    ensures
        forall|k: Seq<char>| #[trigger]
            defined_services(defs, token).contains_key(k) <==> exists|i: int|
                0 <= i < defs.len() && (#[trigger] defs[i]).name == k,
        forall|i: int|
            0 <= i < defs.len() && (forall|j: int|
                i < j < defs.len() ==> (#[trigger] defs[j]).name != defs[i].name) ==> defined_services(
                defs,
                token,
            )[(#[trigger] defs[i]).name] == plain_service(
                ServiceType::Tcp,
                defs[i].name,
                defs[i].local_addr,
                defs[i].bind_addr,
                token,
            ),
        defined_services(defs, token).is_empty() <==> defs.len() == 0,
{
    let services = defined_services(defs, token);
    assert forall|k: Seq<char>| #[trigger] services.contains_key(k) <==> exists|i: int|
        0 <= i < defs.len() && (#[trigger] defs[i]).name == k by {
        lemma_defined_name(defs, token, k);
    }
    assert forall|i: int|
        0 <= i < defs.len() && (forall|j: int|
            i < j < defs.len() ==> (#[trigger] defs[j]).name != defs[i].name) implies services[(
    #[trigger] defs[i]).name] == plain_service(
        ServiceType::Tcp,
        defs[i].name,
        defs[i].local_addr,
        defs[i].bind_addr,
        token,
    ) by {
        lemma_last_definition(defs, token, i);
    }
    if defs.len() > 0 {
        lemma_defined_name(defs, token, defs[0].name);
        assert(services.contains_key(defs[0].name));
    } else {
        assert(services =~= Map::empty());
    }
}

proof fn lemma_defined_name(defs: Seq<ServiceDefView>, token: Seq<char>, k: Seq<char>)
    ensures
        defined_services(defs, token).contains_key(k) <==> exists|i: int|
            0 <= i < defs.len() && (#[trigger] defs[i]).name == k,
    decreases defs.len(),
{
    if defs.len() > 0 {
        let rest = defs.drop_last();
        lemma_defined_name(rest, token, k);
        assert(defs[defs.len() - 1] == defs.last());
        if defined_services(rest, token).contains_key(k) {
            let i = choose|i: int| 0 <= i < rest.len() && (#[trigger] rest[i]).name == k;
            assert(defs[i] == rest[i]);
        }
        if exists|i: int| 0 <= i < defs.len() && (#[trigger] defs[i]).name == k {
            let i = choose|i: int| 0 <= i < defs.len() && (#[trigger] defs[i]).name == k;
            if i < rest.len() {
                assert(rest[i] == defs[i]);
            }
        }
    }
}

proof fn lemma_last_definition(defs: Seq<ServiceDefView>, token: Seq<char>, i: int)
    requires
        0 <= i < defs.len(),
        forall|j: int| i < j < defs.len() ==> (#[trigger] defs[j]).name != defs[i].name,
    ensures
        defined_services(defs, token)[defs[i].name] == plain_service(
            ServiceType::Tcp,
            defs[i].name,
            defs[i].local_addr,
            defs[i].bind_addr,
            token,
        ),
    decreases defs.len(),
{
    let rest = defs.drop_last();
    if i < rest.len() {
        assert(rest[i] == defs[i]);
        assert(defs[defs.len() - 1].name != defs[i].name);
        assert forall|j: int| i < j < rest.len() implies (#[trigger] rest[j]).name
            != rest[i].name by {
            assert(rest[j] == defs[j]);
        }
        lemma_last_definition(rest, token, i);
    }
}

/// The type of a service that was fetched: `udp` written so, or else TCP.
pub open spec fn pulled_type(text: Seq<char>) -> ServiceType {
    if text == "udp"@ {
        ServiceType::Udp
    } else {
        ServiceType::Tcp
    }
}

/// The services that a fetched configuration makes up.
pub open spec fn pulled_services(
    services: Map<Seq<char>, ClientServiceInfoView>,
    token: Seq<char>,
) -> Map<Seq<char>, ClientServiceView> {
    Map::new(
        |k: Seq<char>| services.contains_key(k),
        |k: Seq<char>|
            plain_service(
                pulled_type(services[k].service_type),
                k,
                services[k].local_addr,
                services[k].bind_addr,
                token,
            ),
    )
}

/// The token that a client needs to fetch its configuration.
pub open spec fn needed_token(args: Cli) -> Result<Seq<char>, Seq<char>> {
    match args.token {
        Some(token) => Ok(token@),
        None => Err("--token is required when using --config-server"@),
    }
}

/// The token that a client needs to fetch its configuration.
pub fn pull_token(args: &Cli) -> (r: Result<&String, String>)
    ensures
        match r {
            Ok(token) => args.token == Some(*token),
            Err(e) => args.token is None && e@
                == "--token is required when using --config-server"@,
        },
        match r {
            Ok(token) => needed_token(*args) == Ok::<Seq<char>, Seq<char>>(token@),
            Err(e) => needed_token(*args) == Err::<Seq<char>, Seq<char>>(e@),
        },
{
    match &args.token {
        Some(token) => Ok(token),
        None => Err("--token is required when using --config-server".to_owned()),
    }
}

/// The configuration of a client that a fetched one makes up.
pub open spec fn pulled_view(pulled: ClientConfigResponseView, token: Seq<char>) -> Result<
    ConfigView,
    Seq<char>,
> {
    if pulled.services.is_empty() {
        Err("No services configured for token: "@ + token)
    } else {
        Ok(
            plain_client(
                pulled.remote_addr,
                token,
                pulled_services(pulled.services, token),
                None,
            ),
        )
    }
}

/// The configuration of a client that a fetched one makes up.
pub fn pulled_config(pulled: &ClientConfigResponse, token: &str) -> (r: Result<Config, String>)
    ensures
        match r {
            Ok(config) => pulled_view(pulled@, token@) == Ok::<ConfigView, Seq<char>>(config@),
            Err(e) => pulled_view(pulled@, token@) == Err::<ConfigView, Seq<char>>(e@),
        },
{
    let ghost entries = pulled.services.listing();
    let n = pulled.services.len();
    let mut services: NameMap<ClientServiceConfig> = NameMap::new();
    let mut i: usize = 0;
    proof {
        assert(entries.take(0) =~= Seq::empty());
        assert(services@ =~= pulled_services(listed_map(entries.take(0)), token@));
    }
    while i < n
        invariant
            i <= n,
            n == entries.len(),
            entries == pulled.services.listing(),
            services@ == pulled_services(listed_map(entries.take(i as int)), token@),
        decreases n - i,
    {
        let name = pulled.services.name_at(i);
        let info = pulled.services.value_at(i);
        let ghost before = listed_map(entries.take(i as int));
        let service_type = if *info.service_type.as_str() == *"udp" {
            ServiceType::Udp
        } else {
            ServiceType::Tcp
        };
        services.insert(
            name.clone(),
            ClientServiceConfig {
                service_type,
                name: name.clone(),
                local_addr: info.local_addr.clone(),
                prefer_ipv6: false,
                token: Some(MaskedString::from(token)),
                nodelay: None,
                retry_interval: Some(1),
                bind_addr: copy_text(&info.bind_addr),
            },
        );
        proof {
            assert(entries.take(i + 1).drop_last() =~= entries.take(i as int));
            assert(entries.take(i + 1).last() == entries[i as int]);
            assert(services@ =~= pulled_services(before.insert(name@, info@), token@));
        }
        i = i + 1;
    }
    proof {
        assert(entries.take(i as int) =~= entries);
        assert(services@.dom() =~= pulled.services@.dom());
    }
    if services.is_empty() {
        return Err(concat("No services configured for token: ", token));
    }
    Ok(plain_client_config(pulled.remote_addr.clone(), token, services, None))
}

/// What a server stored for a token is what a client that fetches it forwards:
/// the same names, and for each the type and the addresses that were stored.
pub proof fn law_pulled_services_are_the_stored_ones(
    stored: Map<Seq<char>, ClientServiceView>,
    token: Seq<char>,
)
    ensures
        pulled_services(handed_out_services(stored), token).dom() == stored.dom(),
        forall|name: Seq<char>| #[trigger]
            stored.contains_key(name) ==> pulled_services(handed_out_services(stored), token)[name]
                == plain_service(
                stored[name].service_type,
                name,
                stored[name].local_addr,
                stored[name].bind_addr,
                token,
            ),
{
    reveal_strlit("tcp");
    reveal_strlit("udp");
    assert("tcp"@[0] != "udp"@[0]);
    assert(pulled_services(handed_out_services(stored), token).dom() =~= stored.dom());
}

/// The configuration that the arguments make up for a server at `bind`.
pub open spec fn server_cli_view(args: Cli, bind: Seq<char>) -> Result<ConfigView, Seq<char>> {
    match args.token {
        None => Err("--token is required when using --bind"@),
        Some(token) => Ok(
            ConfigView {
                server: Some(
                    ServerConfigView {
                        bind_addr: bind,
                        default_token: Some(token@),
                        services: Map::empty(),
                        transport: (TransportConfig {  }),
                        heartbeat_interval: 30,
                        api: match args.api_bind {
                            Some(addr) => Some(
                                ApiConfigView {
                                    enabled: true,
                                    bind_addr: addr@,
                                    token: opt_view(args.api_token),
                                },
                            ),
                            None => None,
                        },
                        client_configs: Map::empty(),
                    },
                ),
                client: None,
            },
        ),
    }
}

/// The configuration that the arguments make up for a server at `bind`.
pub fn server_cli_config(args: &Cli, bind: &str) -> (r: Result<Config, String>)
    ensures
        match r {
            Ok(config) => server_cli_view(*args, bind@) == Ok::<ConfigView, Seq<char>>(config@),
            Err(e) => server_cli_view(*args, bind@) == Err::<ConfigView, Seq<char>>(e@),
        },
{
    let token = match &args.token {
        Some(token) => token,
        None => {
            return Err("--token is required when using --bind".to_owned());
        },
    };
    let api = match &args.api_bind {
        Some(addr) => Some(
            ApiConfig {
                enabled: true,
                bind_addr: addr.clone(),
                token: mask_text(&args.api_token),
            },
        ),
        None => None,
    };
    Ok(
        Config {
            server: Some(
                ServerConfig {
                    bind_addr: bind.to_owned(),
                    default_token: Some(MaskedString::from(token.as_str())),
                    services: NameMap::new(),
                    transport: TransportConfig::default(),
                    heartbeat_interval: 30,
                    api,
                    client_configs: NameMap::new(),
                },
            ),
            client: None,
        },
    )
}

/// As what an instance runs.
#[derive(Debug, Clone, Copy, PartialEq, Eq, Structural)]
pub enum RunMode {
    Server,
    Client,
    Undetermine,
}

/// As what an instance runs: as the arguments say, or else as the one that the
/// configuration is of.
pub open spec fn run_mode(
    has_server: bool,
    has_client: bool,
    as_server: bool,
    as_client: bool,
) -> RunMode {
    let server = as_server || (!as_client && has_server);
    let client = as_client || (!as_server && has_client);
    if server && !client {
        RunMode::Server
    } else if client && !server {
        RunMode::Client
    } else {
        RunMode::Undetermine
    }
}

/// As what an instance with this configuration and these arguments runs.
pub open spec fn determined_mode(config: Config, args: Cli) -> RunMode {
    run_mode(config.server is Some, config.client is Some, args.server, args.client)
}

/// As what an instance with this configuration and these arguments runs.
pub fn determine_run_mode(config: &Config, args: &Cli) -> (r: RunMode)
    ensures
        r == run_mode(
            config.server is Some,
            config.client is Some,
            args.server,
            args.client,
        ),
        r == determined_mode(*config, *args),
{
    if args.client && args.server {
        RunMode::Undetermine
    } else if args.client {
        RunMode::Client
    } else if args.server {
        RunMode::Server
    } else if config.client.is_some() && config.server.is_none() {
        RunMode::Client
    } else if config.server.is_some() && config.client.is_none() {
        RunMode::Server
    } else {
        RunMode::Undetermine
    }
}

/// A configuration that the arguments or a fetched configuration make up runs,
/// where the arguments do not say otherwise, as what it was made for.
pub proof fn law_made_config_determines_mode(
    args: Cli,
    addr: Seq<char>,
    pulled: ClientConfigResponseView,
    token: Seq<char>,
)
    ensures
        client_cli_view(args, addr) matches Ok(c) ==> run_mode(
            c.server is Some,
            c.client is Some,
            false,
            false,
        ) == RunMode::Client,
        pulled_view(pulled, token) matches Ok(c) ==> run_mode(
            c.server is Some,
            c.client is Some,
            false,
            false,
        ) == RunMode::Client,
        server_cli_view(args, addr) matches Ok(c) ==> run_mode(
            c.server is Some,
            c.client is Some,
            false,
            false,
        ) == RunMode::Server,
{
}

/// What is to be done when the configuration changed.
pub enum ChangeAction {
    /// Start an instance with this configuration.
    Start(Box<Config>),
    /// Stop the instance that runs, and start one with this configuration.
    Restart(Box<Config>),
    /// Tell the instance that runs of this change.
    Forward(ConfigChange),
    /// There is no instance that the change is for.
    Ignore,
}

/// Whether an instance runs after a change, by whether one ran before.
pub open spec fn runs_after(running: bool, change: ConfigChange) -> bool {
    running || change is General
}

/// What is to be done on a change, by whether an instance runs.
pub open spec fn action_on(running: bool, change: ConfigChange) -> ChangeAction {
    match change {
        ConfigChange::General(config) => if running {
            ChangeAction::Restart(config)
        } else {
            ChangeAction::Start(config)
        },
        _ => if running {
            ChangeAction::Forward(change)
        } else {
            ChangeAction::Ignore
        },
    }
}

/// What looks after an instance.
pub struct Supervisor {
    /// Whether an instance was started.
    pub running: bool,
}

impl Supervisor {
    /// What looks after an instance that is not started yet.
    pub fn new() -> (r: Self)
        ensures
            !r.running,
    {
        Supervisor { running: false }
    }

    /// Decide on a change of the configuration. From the first configuration on
    /// an instance runs; each further one takes the place of the one before, and
    /// every other change goes to the instance that runs.
    pub fn config_changed(&mut self, change: ConfigChange) -> (r: ChangeAction)
        ensures
            final(self).running == runs_after(old(self).running, change),
            r == action_on(old(self).running, change),
            match change {
                ConfigChange::General(config) => {
                    &&& final(self).running
                    &&& r == (if old(self).running {
                        ChangeAction::Restart(config)
                    } else {
                        ChangeAction::Start(config)
                    })
                },
                _ => {
                    &&& final(self).running == old(self).running
                    &&& r == (if old(self).running {
                        ChangeAction::Forward(change)
                    } else {
                        ChangeAction::Ignore
                    })
                },
            },
    {
        match change {
            ConfigChange::General(config) => {
                if self.running {
                    ChangeAction::Restart(config)
                } else {
                    self.running = true;
                    ChangeAction::Start(config)
                }
            },
            other => {
                if self.running {
                    ChangeAction::Forward(other)
                } else {
                    ChangeAction::Ignore
                }
            },
        }
    }
}

}
