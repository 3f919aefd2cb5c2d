//! What holds of starting a program and of looking after its instance.

use crate::api::{handed_out_services, ClientConfigResponseView};
use crate::cli::{Cli, ServiceDef};
use crate::config::{
    opt_view, ClientServiceView, Config, ConfigChange, ConfigView, ServiceType,
};
use crate::run::{
    action_on, asked_mode, client_cli_view, def_views, defined_services, determined_mode,
    law_defined_names, needed_token, pulled_view, run_mode, runs_after, server_cli_view,
    ChangeAction, RunMode, StartMode, StartModeView,
};
use std::path::PathBuf;
use vstd::prelude::*;

verus! {

/// The other of server and client.
pub open spec fn other_mode(mode: RunMode) -> RunMode {
    match mode {
        RunMode::Server => RunMode::Client,
        RunMode::Client => RunMode::Server,
        RunMode::Undetermine => RunMode::Undetermine,
    }
}

/// Where exactly one of the arguments for a server and for a client is given, the
/// instance runs as what it names, whatever the configuration is of. Where both
/// are given, nothing is determined. Where neither is, a configuration of one of
/// the two alone decides, and no other does.
pub proof fn law_arguments_decide_before_configuration(
    has_server: bool,
    has_client: bool,
    as_server: bool,
    as_client: bool,
)
    ensures
        as_server && !as_client ==> run_mode(has_server, has_client, as_server, as_client)
            == RunMode::Server,
        as_client && !as_server ==> run_mode(has_server, has_client, as_server, as_client)
            == RunMode::Client,
        as_server && as_client ==> run_mode(has_server, has_client, as_server, as_client)
            == RunMode::Undetermine,
        !as_server && !as_client ==> {
            &&& run_mode(has_server, has_client, as_server, as_client) == RunMode::Server <==> (
            has_server && !has_client)
            &&& run_mode(has_server, has_client, as_server, as_client) == RunMode::Client <==> (
            has_client && !has_server)
        },
{
}

/// Server and client are treated alike: where all that is said of the one is said
/// of the other, the other is what runs.
pub proof fn law_server_and_client_are_alike(
    has_server: bool,
    has_client: bool,
    as_server: bool,
    as_client: bool,
)
    ensures
        run_mode(has_client, has_server, as_client, as_server) == other_mode(
            run_mode(has_server, has_client, as_server, as_client),
        ),
{
}

/// The arguments ask for something exactly where they name a command or a file.
/// What they ask for is what one of them says, and a later one counts only where
/// all earlier ones are missing.
pub proof fn law_first_named_command_counts(args: Cli, path: PathBuf)
    ensures
        asked_mode(args) is None <==> args.genkey is None && args.remote is None && args.bind is None
            && args.config_server is None && args.config_path is None,
        args.genkey matches Some(curve) ==> asked_mode(args) == Some(StartModeView::Genkey(curve)),
        asked_mode(args) matches Some(StartModeView::Genkey(_)) ==> args.genkey is Some,
        asked_mode(args) matches Some(StartModeView::Client(a)) ==> args.genkey is None && opt_view(
            args.remote,
        ) == Some(a),
        asked_mode(args) matches Some(StartModeView::Server(a)) ==> args.genkey is None
            && args.remote is None && opt_view(args.bind) == Some(a),
        asked_mode(args) matches Some(StartModeView::PullConfig(a)) ==> args.genkey is None
            && args.remote is None && args.bind is None && opt_view(args.config_server) == Some(a),
        asked_mode(args) == Some(StartModeView::Watch(path)) <==> args.genkey is None
            && args.remote is None && args.bind is None && args.config_server is None
            && args.config_path == Some(path),
{
}

/// A service that a client forwards with the built-in settings: what it says of
/// its name, its type, its addresses and its token, and nothing out of the
/// ordinary besides.
pub open spec fn forwards(
    svc: ClientServiceView,
    service_type: ServiceType,
    name: Seq<char>,
    local_addr: Seq<char>,
    bind_addr: Option<Seq<char>>,
    token: Seq<char>,
) -> bool {
    &&& svc.service_type == service_type
    &&& svc.name == name
    &&& svc.local_addr == local_addr
    &&& svc.bind_addr == bind_addr
    &&& svc.token == Some(token)
    &&& svc.retry_interval == Some(1u64)
    &&& !svc.prefer_ipv6
    &&& svc.nodelay is None
}

/// A configuration of a client of `remote` with the built-in settings.
pub open spec fn configures_client(c: ConfigView, remote: Seq<char>, token: Seq<char>) -> bool {
    &&& c.server is None
    &&& c.client matches Some(client)
    &&& client.remote_addr == remote
    &&& client.default_token == Some(token)
    &&& client.prefer_ipv6 is None
    &&& client.heartbeat_timeout == 40
    &&& client.retry_interval == 1
}

/// Arguments make up the configuration of a client exactly where they have a token
/// and a service. It is of the server that they name, with their token; it has a
/// TCP service for each name that is defined, with the addresses of the last
/// definition of that name; and it registers them where an interface is named, and
/// only there, with that interface.
pub proof fn law_client_configuration_from_arguments(args: Cli, remote: Seq<char>)
    ensures
        args.token is None ==> client_cli_view(args, remote) == Err::<ConfigView, Seq<char>>(
            "--token is required when using --remote"@,
        ),
        args.token is Some && args.services@.len() == 0 ==> client_cli_view(args, remote) == Err::<
            ConfigView,
            Seq<char>,
        >("At least one service is required. Use -L name:local_addr[:bind_addr]"@),
        args.token is Some && args.services@.len() > 0 ==> {
            &&& client_cli_view(args, remote) matches Ok(c)
            &&& configures_client(c, remote, args.token->Some_0@)
            &&& forall|k: Seq<char>| #[trigger]
                c.client->Some_0.services.contains_key(k) <==> exists|i: int|
                    0 <= i < args.services@.len() && (#[trigger] args.services@[i]).name@ == k
            &&& forall|i: int|
                0 <= i < args.services@.len() && (forall|j: int|
                    i < j < args.services@.len() ==> (#[trigger] args.services@[j]).name@
                        != args.services@[i].name@) ==> forwards(
                    c.client->Some_0.services[(#[trigger] args.services@[i]).name@],
                    ServiceType::Tcp,
                    args.services@[i].name@,
                    args.services@[i].local_addr@,
                    opt_view(args.services@[i].bind_addr),
                    args.token->Some_0@,
                )
            &&& c.client->Some_0.auto_register is Some <==> args.api is Some
            &&& c.client->Some_0.auto_register matches Some(register) ==> register.enabled
                && register.api_addr == opt_view(args.api) && register.api_token == opt_view(
                args.api_token,
            )
        },
{
    if args.token is Some && args.services@.len() > 0 {
        let token = args.token->Some_0@;
        let defs = def_views(args.services@);
        let services = defined_services(defs, token);
        law_defined_names(defs, token);
        assert forall|k: Seq<char>| #[trigger] services.contains_key(k) <==> exists|i: int|
            0 <= i < args.services@.len() && (#[trigger] args.services@[i]).name@ == k by {
            if services.contains_key(k) {
                let i = choose|i: int| 0 <= i < defs.len() && (#[trigger] defs[i]).name == k;
                assert(args.services@[i].name@ == k);
            }
            if exists|i: int|
                0 <= i < args.services@.len() && (#[trigger] args.services@[i]).name@ == k {
                let i = choose|i: int|
                    0 <= i < args.services@.len() && (#[trigger] args.services@[i]).name@ == k;
                assert(defs[i].name == k);
            }
        }
        assert forall|i: int|
            0 <= i < args.services@.len() && (forall|j: int|
                i < j < args.services@.len() ==> (#[trigger] args.services@[j]).name@
                    != args.services@[i].name@) implies forwards(
            services[(#[trigger] args.services@[i]).name@],
            ServiceType::Tcp,
            args.services@[i].name@,
            args.services@[i].local_addr@,
            opt_view(args.services@[i].bind_addr),
            token,
        ) by {
            assert(defs[i] == args.services@[i]@);
            assert forall|j: int| i < j < defs.len() implies (#[trigger] defs[j]).name
                != defs[i].name by {
                assert(args.services@[j].name@ != args.services@[i].name@);
            }
        }
    }
}

/// A fetched configuration makes up that of a client exactly where it has a
/// service. It is of the server that was fetched, with the client's token; it has
/// the fetched services under their names, each with its addresses, of UDP exactly
/// where its type is written so; and it registers nothing.
pub proof fn law_client_configuration_from_fetched(
    pulled: ClientConfigResponseView,
    token: Seq<char>,
)
    ensures
        pulled.services.is_empty() ==> pulled_view(pulled, token) == Err::<ConfigView, Seq<char>>(
            "No services configured for token: "@ + token,
        ),
        !pulled.services.is_empty() ==> {
            &&& pulled_view(pulled, token) matches Ok(c)
            &&& configures_client(c, pulled.remote_addr, token)
            &&& c.client->Some_0.auto_register is None
            &&& c.client->Some_0.services.dom() == pulled.services.dom()
            &&& forall|k: Seq<char>| #[trigger]
                pulled.services.contains_key(k) ==> forwards(
                    c.client->Some_0.services[k],
                    if pulled.services[k].service_type == "udp"@ {
                        ServiceType::Udp
                    } else {
                        ServiceType::Tcp
                    },
                    k,
                    pulled.services[k].local_addr,
                    pulled.services[k].bind_addr,
                    token,
                )
        },
{
    if !pulled.services.is_empty() {
        let c = pulled_view(pulled, token)->Ok_0;
        assert(c.client->Some_0.services.dom() =~= pulled.services.dom());
    }
}

/// What a server stored for a token is what a client that fetches it forwards: the
/// same names, and for each the type and the addresses that were stored.
pub proof fn law_fetched_services_forward_the_stored_ones(
    remote_addr: Seq<char>,
    stored: Map<Seq<char>, ClientServiceView>,
    token: Seq<char>,
    name: Seq<char>,
)
    requires
        stored.contains_key(name),
    ensures
        pulled_view(
            ClientConfigResponseView { remote_addr, services: handed_out_services(stored) },
            token,
        ) matches Ok(c) && c.client->Some_0.services.dom() == stored.dom() && forwards(
            c.client->Some_0.services[name],
            stored[name].service_type,
            name,
            stored[name].local_addr,
            stored[name].bind_addr,
            token,
        ),
{
    reveal_strlit("tcp");
    reveal_strlit("udp");
    assert("tcp"@[0] != "udp"@[0]);
    let handed = handed_out_services(stored);
    let pulled = ClientConfigResponseView { remote_addr, services: handed };
    assert(handed.contains_key(name));
    law_client_configuration_from_fetched(pulled, token);
    assert(handed.dom() =~= stored.dom());
}

/// Arguments make up the configuration of a server exactly where they have a
/// token. It is at the address that they name, with their token, no services and
/// no client configurations; and it has an interface where an address for one is
/// named, and only there.
pub proof fn law_server_configuration_from_arguments(args: Cli, bind: Seq<char>)
    ensures
        args.token is None ==> server_cli_view(args, bind) == Err::<ConfigView, Seq<char>>(
            "--token is required when using --bind"@,
        ),
        args.token is Some ==> {
            &&& server_cli_view(args, bind) matches Ok(c)
            &&& c.client is None
            &&& c.server matches Some(server)
            &&& server.bind_addr == bind
            &&& server.default_token == opt_view(args.token)
            &&& server.services.is_empty()
            &&& server.client_configs.is_empty()
            &&& server.heartbeat_interval == 30
            &&& server.api is Some <==> args.api_bind is Some
            &&& server.api matches Some(api) ==> api.enabled && Some(api.bind_addr) == opt_view(
                args.api_bind,
            ) && api.token == opt_view(args.api_token)
        },
{
    if args.token is Some {
        let server = server_cli_view(args, bind)->Ok_0.server->Some_0;
        assert(server.services =~= Map::empty());
        assert(server.client_configs =~= Map::empty());
    }
}

/// Whether an instance runs after these changes, where none ran before.
pub open spec fn running_after(changes: Seq<ConfigChange>) -> bool
    decreases changes.len(),
{
    if changes.len() == 0 {
        false
    } else {
        runs_after(running_after(changes.drop_last()), changes.last())
    }
}

/// An instance runs exactly from the first whole configuration on.
pub proof fn law_first_configuration_starts(changes: Seq<ConfigChange>)
    ensures
        running_after(changes) <==> exists|i: int|
            0 <= i < changes.len() && (#[trigger] changes[i]) is General,
    decreases changes.len(),
{
    if changes.len() > 0 {
        let rest = changes.drop_last();
        law_first_configuration_starts(rest);
        assert(changes[changes.len() - 1] == changes.last());
        if running_after(rest) {
            let i = choose|i: int| 0 <= i < rest.len() && (#[trigger] rest[i]) is General;
            assert(changes[i] == rest[i]);
        }
        if exists|i: int| 0 <= i < changes.len() && (#[trigger] changes[i]) is General {
            let i = choose|i: int| 0 <= i < changes.len() && (#[trigger] changes[i]) is General;
            if i < rest.len() {
                assert(rest[i] == changes[i]);
            }
        }
    }
}

/// A whole configuration is what an instance is started with: the first one
/// starts it, and each further one takes the place of the one before. Any other
/// change is handed on as it is from the first configuration on, and nothing is
/// done on it earlier.
pub proof fn law_changes_reach_the_instance(changes: Seq<ConfigChange>, change: ConfigChange)
    ensures
        ({
            let earlier = exists|i: int|
                0 <= i < changes.len() && (#[trigger] changes[i]) is General;
            let action = action_on(running_after(changes), change);
            &&& change matches ConfigChange::General(config) ==> (if earlier {
                action == ChangeAction::Restart(config)
            } else {
                action == ChangeAction::Start(config)
            })
            &&& !(change is General) ==> (if earlier {
                action == ChangeAction::Forward(change)
            } else {
                action == ChangeAction::Ignore
            })
        }),
{
    law_first_configuration_starts(changes);
}

/// What a start mode stands for is what it was made of.
pub proof fn law_start_mode_stands_for_its_parts(mode: StartMode<'_>)
    ensures
        match mode {
            StartMode::Genkey(curve) => mode@ == StartModeView::Genkey(curve),
            StartMode::Client(a) => mode@ == StartModeView::Client(a@),
            StartMode::Server(a) => mode@ == StartModeView::Server(a@),
            StartMode::PullConfig(a) => mode@ == StartModeView::PullConfig(a@),
            StartMode::Watch(path) => mode@ == StartModeView::Watch(*path),
        },
{
}

/// The definitions of the command line stand for what each of them says, in their
/// order.
pub proof fn law_definitions_stand_for_their_parts(defs: Seq<ServiceDef>, i: int)
    requires
        0 <= i < defs.len(),
    ensures
        def_views(defs).len() == defs.len(),
        def_views(defs)[i].name == defs[i].name@,
        def_views(defs)[i].local_addr == defs[i].local_addr@,
        def_views(defs)[i].bind_addr == opt_view(defs[i].bind_addr),
{
}

/// A client fetches its configuration with the token of its arguments, and is told
/// to name one where they have none.
pub proof fn law_token_for_fetching(args: Cli, token: Seq<char>)
    ensures
        needed_token(args) == Ok::<Seq<char>, Seq<char>>(token) <==> opt_view(args.token) == Some(
            token,
        ),
        needed_token(args) matches Err(e) ==> e == "--token is required when using --config-server"@,
{
}

/// An instance runs as the one of server and client that its arguments name alone,
/// whatever its configuration. Without such an argument it runs as what its
/// configuration is of, where that is one of the two alone.
pub proof fn law_what_an_instance_runs_as(config: Config, args: Cli)
    ensures
        args.server && !args.client ==> determined_mode(config, args) == RunMode::Server,
        args.client && !args.server ==> determined_mode(config, args) == RunMode::Client,
        args.client && args.server ==> determined_mode(config, args) == RunMode::Undetermine,
        !args.client && !args.server ==> {
            &&& determined_mode(config, args) == RunMode::Server <==> config.server is Some
                && config.client is None
            &&& determined_mode(config, args) == RunMode::Client <==> config.client is Some
                && config.server is None
        },
{
}

}
