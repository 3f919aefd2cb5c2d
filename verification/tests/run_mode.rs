use rathole::api::{ClientConfigResponse, ClientServiceInfo};
use rathole::cli::{KeypairType, ServiceDef};
use rathole::config::{
    ClientConfig, ConfigChange, ServerConfig, ServerServiceChange, ServiceType,
};
use rathole::name_map::NameMap;
use rathole::run::{
    client_cli_config, determine_run_mode, pull_token, pulled_config, server_cli_config,
    start_mode, ChangeAction, RunMode, StartMode, Supervisor,
};
use rathole::{Cli, Config};
use std::path::PathBuf;

#[test]
fn test_determine_run_mode() {
    struct T {
        cfg_s: bool,
        cfg_c: bool,
        arg_s: bool,
        arg_c: bool,
        run_mode: RunMode,
    }

    let tests = [
        T {
            cfg_s: false,
            cfg_c: false,
            arg_s: false,
            arg_c: false,
            run_mode: RunMode::Undetermine,
        },
        T {
            cfg_s: true,
            cfg_c: false,
            arg_s: false,
            arg_c: false,
            run_mode: RunMode::Server,
        },
        T {
            cfg_s: false,
            cfg_c: true,
            arg_s: false,
            arg_c: false,
            run_mode: RunMode::Client,
        },
        T {
            cfg_s: true,
            cfg_c: true,
            arg_s: false,
            arg_c: false,
            run_mode: RunMode::Undetermine,
        },
        T {
            cfg_s: true,
            cfg_c: true,
            arg_s: true,
            arg_c: false,
            run_mode: RunMode::Server,
        },
        T {
            cfg_s: true,
            cfg_c: true,
            arg_s: false,
            arg_c: true,
            run_mode: RunMode::Client,
        },
        T {
            cfg_s: true,
            cfg_c: true,
            arg_s: true,
            arg_c: true,
            run_mode: RunMode::Undetermine,
        },
    ];

    for t in tests {
        let config = Config {
            server: match t.cfg_s {
                true => Some(ServerConfig::default()),
                false => None,
            },
            client: match t.cfg_c {
                true => Some(ClientConfig::default()),
                false => None,
            },
        };

        let args = Cli {
            config_path: Some(PathBuf::new()),
            server: t.arg_s,
            client: t.arg_c,
            ..Default::default()
        };

        assert_eq!(determine_run_mode(&config, &args), t.run_mode);
    }
}

#[test]
fn arguments_overrule_the_configuration() {
    let config = Config { server: Some(ServerConfig::default()), client: None };
    let args = Cli { client: true, ..Default::default() };
    assert_eq!(determine_run_mode(&config, &args), RunMode::Client);
}

#[test]
fn first_named_command_is_started() {
    let mut args = Cli {
        config_path: Some(PathBuf::from("a.toml")),
        genkey: Some(None),
        remote: Some("r:1".to_string()),
        bind: Some("b:2".to_string()),
        config_server: Some("c:3".to_string()),
        ..Default::default()
    };
    assert!(matches!(start_mode(&args), StartMode::Genkey(None)));
    args.genkey = Some(Some(KeypairType::X448));
    assert!(matches!(start_mode(&args), StartMode::Genkey(Some(KeypairType::X448))));
    args.genkey = None;
    assert!(matches!(start_mode(&args), StartMode::Client("r:1")));
    args.remote = None;
    assert!(matches!(start_mode(&args), StartMode::Server("b:2")));
    args.bind = None;
    assert!(matches!(start_mode(&args), StartMode::PullConfig("c:3")));
    args.config_server = None;
    match start_mode(&args) {
        StartMode::Watch(path) => assert_eq!(path, &PathBuf::from("a.toml")),
        _ => panic!("the configuration file is to be followed"),
    }
}

fn def(name: &str, local_addr: &str, bind_addr: Option<&str>) -> ServiceDef {
    ServiceDef {
        name: name.to_string(),
        local_addr: local_addr.to_string(),
        bind_addr: bind_addr.map(|a| a.to_string()),
    }
}

#[test]
fn client_configuration_is_made_from_arguments() {
    let args = Cli {
        token: Some("secret".to_string()),
        api: Some("n100:3000".to_string()),
        api_token: Some("admin".to_string()),
        services: vec![
            def("web", "127.0.0.1:8080", None),
            def("ssh", "127.0.0.1:22", Some("0.0.0.0:2222")),
        ],
        ..Default::default()
    };
    let config = client_cli_config(&args, "n100:2333").unwrap();
    assert_eq!(determine_run_mode(&config, &Cli::default()), RunMode::Client);
    assert!(config.server.is_none());
    let client = config.client.unwrap();
    assert_eq!(client.remote_addr, "n100:2333");
    assert_eq!(client.default_token.as_ref().unwrap().as_str(), "secret");
    assert_eq!(client.prefer_ipv6, None);
    assert_eq!(client.heartbeat_timeout, 40);
    assert_eq!(client.retry_interval, 1);
    assert_eq!(client.services.len(), 2);
    let web = client.services.get("web").unwrap();
    assert_eq!(web.service_type, ServiceType::Tcp);
    assert_eq!(web.name, "web");
    assert_eq!(web.local_addr, "127.0.0.1:8080");
    assert!(!web.prefer_ipv6);
    assert_eq!(web.token.as_ref().unwrap().as_str(), "secret");
    assert_eq!(web.nodelay, None);
    assert_eq!(web.retry_interval, Some(1));
    assert_eq!(web.bind_addr, None);
    let ssh = client.services.get("ssh").unwrap();
    assert_eq!(ssh.bind_addr, Some("0.0.0.0:2222".to_string()));
    let register = client.auto_register.unwrap();
    assert!(register.enabled);
    assert_eq!(register.api_addr, Some("n100:3000".to_string()));
    assert_eq!(register.api_token.unwrap().as_str(), "admin");
}

#[test]
fn client_without_interface_registers_nothing() {
    let args = Cli {
        token: Some("secret".to_string()),
        api_token: Some("admin".to_string()),
        services: vec![def("web", "127.0.0.1:8080", None)],
        ..Default::default()
    };
    let config = client_cli_config(&args, "n100:2333").unwrap();
    assert!(config.client.unwrap().auto_register.is_none());
}

#[test]
fn later_definition_of_a_name_counts() {
    let args = Cli {
        token: Some("secret".to_string()),
        services: vec![
            def("web", "127.0.0.1:1", Some("0.0.0.0:9")),
            def("web", "127.0.0.1:2", None),
        ],
        ..Default::default()
    };
    let client = client_cli_config(&args, "r").unwrap().client.unwrap();
    assert_eq!(client.services.len(), 1);
    assert_eq!(client.services.get("web").unwrap().local_addr, "127.0.0.1:2");
    assert_eq!(client.services.get("web").unwrap().bind_addr, None);
}

#[test]
fn client_without_token_is_refused() {
    let args = Cli { services: vec![def("web", "127.0.0.1:1", None)], ..Default::default() };
    assert_eq!(
        client_cli_config(&args, "r").err(),
        Some("--token is required when using --remote".to_string())
    );
}

#[test]
fn client_without_service_is_refused() {
    let args = Cli { token: Some("secret".to_string()), ..Default::default() };
    assert_eq!(
        client_cli_config(&args, "r").err(),
        Some("At least one service is required. Use -L name:local_addr[:bind_addr]".to_string())
    );
}

fn info(name: &str, service_type: &str) -> ClientServiceInfo {
    ClientServiceInfo {
        name: name.to_string(),
        service_type: service_type.to_string(),
        local_addr: "127.0.0.1:53".to_string(),
        bind_addr: Some("0.0.0.0:53".to_string()),
    }
}

#[test]
fn client_configuration_is_made_from_a_fetched_one() {
    let mut services = NameMap::new();
    services.insert("dns".to_string(), info("other", "udp"));
    services.insert("web".to_string(), info("web", "UDP"));
    let pulled = ClientConfigResponse { remote_addr: "n100:2333".to_string(), services };
    let config = pulled_config(&pulled, "secret").unwrap();
    assert_eq!(determine_run_mode(&config, &Cli::default()), RunMode::Client);
    let client = config.client.unwrap();
    assert_eq!(client.remote_addr, "n100:2333");
    assert_eq!(client.default_token.as_ref().unwrap().as_str(), "secret");
    assert_eq!(client.heartbeat_timeout, 40);
    assert_eq!(client.retry_interval, 1);
    assert!(client.auto_register.is_none());
    let dns = client.services.get("dns").unwrap();
    assert_eq!(dns.service_type, ServiceType::Udp);
    assert_eq!(dns.name, "dns");
    assert_eq!(dns.local_addr, "127.0.0.1:53");
    assert_eq!(dns.bind_addr, Some("0.0.0.0:53".to_string()));
    assert_eq!(dns.token.as_ref().unwrap().as_str(), "secret");
    assert_eq!(dns.retry_interval, Some(1));
    assert_eq!(client.services.get("web").unwrap().service_type, ServiceType::Tcp);
}

#[test]
fn fetched_configuration_without_services_is_refused() {
    let pulled =
        ClientConfigResponse { remote_addr: "n100:2333".to_string(), services: NameMap::new() };
    assert_eq!(
        pulled_config(&pulled, "secret").err(),
        Some("No services configured for token: secret".to_string())
    );
}

#[test]
fn fetching_needs_a_token() {
    assert_eq!(
        pull_token(&Cli::default()),
        Err("--token is required when using --config-server".to_string())
    );
    let args = Cli { token: Some("secret".to_string()), ..Default::default() };
    assert_eq!(pull_token(&args), Ok(&"secret".to_string()));
}

#[test]
fn server_configuration_is_made_from_arguments() {
    let args = Cli {
        token: Some("secret".to_string()),
        api_bind: Some("0.0.0.0:3000".to_string()),
        api_token: Some("admin".to_string()),
        ..Default::default()
    };
    let config = server_cli_config(&args, "0.0.0.0:2333").unwrap();
    assert_eq!(determine_run_mode(&config, &Cli::default()), RunMode::Server);
    assert!(config.client.is_none());
    let server = config.server.unwrap();
    assert_eq!(server.bind_addr, "0.0.0.0:2333");
    assert_eq!(server.default_token.as_ref().unwrap().as_str(), "secret");
    assert_eq!(server.heartbeat_interval, 30);
    assert!(server.services.is_empty());
    assert!(server.client_configs.is_empty());
    let api = server.api.unwrap();
    assert!(api.enabled);
    assert_eq!(api.bind_addr, "0.0.0.0:3000");
    assert_eq!(api.token.unwrap().as_str(), "admin");
}

#[test]
fn server_without_interface_has_none() {
    let args = Cli { token: Some("secret".to_string()), ..Default::default() };
    let config = server_cli_config(&args, "0.0.0.0:2333").unwrap();
    assert!(config.server.unwrap().api.is_none());
}

#[test]
fn server_without_token_is_refused() {
    assert_eq!(
        server_cli_config(&Cli::default(), "b").err(),
        Some("--token is required when using --bind".to_string())
    );
}

#[test]
fn changes_go_to_the_instance_that_runs() {
    let general = || {
        ConfigChange::General(Box::new(Config {
            server: Some(ServerConfig::default()),
            client: None,
        }))
    };
    let delete = |name: &str| {
        ConfigChange::ServerChange(ServerServiceChange::Delete(name.to_string()))
    };
    let mut supervisor = Supervisor::new();
    assert!(matches!(supervisor.config_changed(delete("early")), ChangeAction::Ignore));
    assert!(!supervisor.running);
    match supervisor.config_changed(general()) {
        ChangeAction::Start(config) => assert!(config.server.is_some()),
        _ => panic!("the first configuration starts an instance"),
    }
    assert!(supervisor.running);
    match supervisor.config_changed(delete("web")) {
        ChangeAction::Forward(ConfigChange::ServerChange(ServerServiceChange::Delete(name))) => {
            assert_eq!(name, "web")
        }
        _ => panic!("a change of a service is handed on"),
    }
    assert!(matches!(supervisor.config_changed(general()), ChangeAction::Restart(_)));
    assert!(supervisor.running);
}
