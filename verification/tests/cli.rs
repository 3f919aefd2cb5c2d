use rathole::cli::{Cli, ServiceDef};

#[test]
fn definition_without_bind_address() {
    let def: ServiceDef = "my_svc:127.0.0.1:8080".parse().unwrap();
    assert_eq!(def.name, "my_svc");
    assert_eq!(def.local_addr, "127.0.0.1:8080");
    assert_eq!(def.bind_addr, None);
}

#[test]
fn definition_with_bind_address() {
    let def: ServiceDef = "my_svc:127.0.0.1:8080:0.0.0.0:0".parse().unwrap();
    assert_eq!(def.name, "my_svc");
    assert_eq!(def.local_addr, "127.0.0.1:8080");
    assert_eq!(def.bind_addr, Some("0.0.0.0:0".to_string()));
}

#[test]
fn lone_bind_host_is_left_out() {
    let def: ServiceDef = "web:127.0.0.1:8080:0.0.0.0".parse().unwrap();
    assert_eq!(def.bind_addr, None);
}

#[test]
fn what_follows_the_bind_address_is_left_out() {
    let def: ServiceDef = "web:a:1:b:2:c:3".parse().unwrap();
    assert_eq!(def.local_addr, "a:1");
    assert_eq!(def.bind_addr, Some("b:2".to_string()));
}

#[test]
fn parts_may_be_empty() {
    let def: ServiceDef = "::".parse().unwrap();
    assert_eq!(def.name, "");
    assert_eq!(def.local_addr, ":");
    assert_eq!(def.bind_addr, None);
}

#[test]
fn definition_without_colon_is_refused() {
    let r = "web".parse::<ServiceDef>();
    assert_eq!(r.err(), Some("Service format: name:local_addr[:bind_addr]".to_string()));
}

#[test]
fn definition_without_port_is_refused() {
    let r = "web:127.0.0.1".parse::<ServiceDef>();
    assert_eq!(r.err(), Some("local_addr must be in host:port format".to_string()));
}

#[test]
fn nothing_is_asked_for_by_default() {
    let args = Cli::default();
    assert!(args.config_path.is_none() && args.genkey.is_none() && args.services.is_empty());
    assert!(!args.server && !args.client);
    assert!(args.remote.is_none() && args.bind.is_none() && args.config_server.is_none());
    assert!(args.token.is_none() && args.api.is_none() && args.api_token.is_none());
    assert!(args.api_bind.is_none());
}
