use axum::http::{HeaderMap, HeaderName, HeaderValue};
use rathole::api::{
    create_client_config, create_service, default_service_type, delete_client_config,
    delete_service, get_client_config, get_service, health_check, list_client_configs,
    list_services, port_allocated, service_announced, service_deleted, validate_token, ApiFailure,
    ApiState, ClientServiceInfo, CreateClientConfigRequest, CreateServiceRequest, CreateStep,
    PendingService, PortOutcome, StatusCode,
};
use rathole::config::{
    ApiConfig, MaskedString, ServerServiceChange, ServerServiceConfig, ServiceType,
};
use rathole::name_map::NameMap;

fn auth(value: &str) -> HeaderMap<HeaderValue> {
    let mut headers = HeaderMap::new();
    headers.insert(
        HeaderName::from_static("authorization"),
        HeaderValue::from_str(value).unwrap(),
    );
    headers
}

fn admin() -> HeaderMap<HeaderValue> {
    auth("Bearer admin")
}

fn no_headers() -> HeaderMap<HeaderValue> {
    HeaderMap::new()
}

fn svc(name: &str, bind_addr: &str, service_type: ServiceType) -> ServerServiceConfig {
    ServerServiceConfig {
        service_type,
        name: name.to_string(),
        bind_addr: bind_addr.to_string(),
        token: Some(MaskedString::from("service token")),
        nodelay: None,
    }
}

fn state_with(token: Option<&str>, services: Vec<ServerServiceConfig>) -> ApiState {
    let mut table = Vec::new();
    for (i, s) in services.into_iter().enumerate() {
        table.push(([i as u8; 32], s));
    }
    ApiState::new(
        ApiConfig {
            enabled: true,
            bind_addr: "0.0.0.0:3000".to_string(),
            token: token.map(MaskedString::from),
        },
        table,
        None,
        NameMap::new(),
        "n100:2333".to_string(),
    )
}

fn state() -> ApiState {
    state_with(
        Some("admin"),
        vec![
            svc("web", "0.0.0.0:80", ServiceType::Tcp),
            svc("dns", "0.0.0.0:53", ServiceType::Udp),
        ],
    )
}

fn says(f: &ApiFailure, status: StatusCode, error: &str) {
    assert_eq!(f.status, status);
    assert_eq!(f.error.error, error);
}

fn request(name: &str, service_type: &str, bind_addr: &str) -> CreateServiceRequest {
    CreateServiceRequest {
        name: name.to_string(),
        service_type: service_type.to_string(),
        bind_addr: bind_addr.to_string(),
        token: "fresh".to_string(),
    }
}

#[test]
fn token_is_accepted_with_and_without_bearer() {
    let state = state();
    assert!(validate_token(&state, &auth("Bearer admin")).is_ok());
    assert!(validate_token(&state, &auth("admin")).is_ok());
}

#[test]
fn wrong_token_is_refused() {
    let state = state();
    for wrong in ["Bearer other", "bearer admin", "Bearer  admin", "", "Bearer Bearer admin"] {
        let f = validate_token(&state, &auth(wrong)).unwrap_err();
        says(&f, StatusCode::Unauthorized, "Invalid token");
    }
}

#[test]
fn missing_token_is_refused() {
    let f = validate_token(&state(), &no_headers()).unwrap_err();
    says(&f, StatusCode::Unauthorized, "Missing Authorization header");
    let mut unreadable = HeaderMap::new();
    unreadable.insert(
        HeaderName::from_static("authorization"),
        HeaderValue::from_bytes(b"admin\xff").unwrap(),
    );
    let f = validate_token(&state(), &unreadable).unwrap_err();
    says(&f, StatusCode::Unauthorized, "Missing Authorization header");
}

#[test]
fn interface_without_token_lets_nobody_in() {
    let state = state_with(None, vec![]);
    let f = validate_token(&state, &admin()).unwrap_err();
    says(&f, StatusCode::InternalServerError, "API token not configured");
}

#[test]
fn token_that_starts_with_bearer_is_not_accepted_alone() {
    let state = state_with(Some("Bearer x"), vec![]);
    assert!(validate_token(&state, &auth("Bearer x")).is_err());
    assert!(validate_token(&state, &auth("Bearer Bearer x")).is_ok());
}

#[test]
fn server_that_is_up_says_so() {
    assert_eq!(health_check().status, "ok");
}

#[test]
fn statuses_have_numbers() {
    assert_eq!(StatusCode::Okay.as_u16(), 200);
    assert_eq!(StatusCode::Created.as_u16(), 201);
    assert_eq!(StatusCode::NoContent.as_u16(), 204);
    assert_eq!(StatusCode::BadRequest.as_u16(), 400);
    assert_eq!(StatusCode::Unauthorized.as_u16(), 401);
    assert_eq!(StatusCode::NotFound.as_u16(), 404);
    assert_eq!(StatusCode::InternalServerError.as_u16(), 500);
}

#[test]
fn service_type_is_tcp_by_default() {
    assert_eq!(default_service_type(), "tcp");
}

#[test]
fn services_are_listed_without_tokens() {
    let mut state = state();
    let list = list_services(&mut state, &admin()).unwrap();
    assert_eq!(list.services.len(), 2);
    assert_eq!(list.services[0].name, "web");
    assert_eq!(list.services[0].service_type, "tcp");
    assert_eq!(list.services[0].bind_addr, "0.0.0.0:80");
    assert_eq!(list.services[1].name, "dns");
    assert_eq!(list.services[1].service_type, "udp");
    assert!(list.services.iter().all(|s| s.token.is_none()));
}

#[test]
fn list_agrees_with_single_questions() {
    let mut state = state();
    let list = list_services(&mut state, &admin()).unwrap();
    for shown in &list.services {
        let one = get_service(&mut state, &admin(), &shown.name).unwrap();
        assert_eq!(one.bind_addr, shown.bind_addr);
        assert_eq!(one.service_type, shown.service_type);
    }
}

#[test]
fn later_service_of_a_name_counts() {
    let mut state = state_with(
        Some("admin"),
        vec![
            svc("web", "0.0.0.0:80", ServiceType::Tcp),
            svc("web", "0.0.0.0:81", ServiceType::Tcp),
        ],
    );
    assert_eq!(list_services(&mut state, &admin()).unwrap().services.len(), 1);
    assert_eq!(get_service(&mut state, &admin(), "web").unwrap().bind_addr, "0.0.0.0:81");
}

#[test]
fn services_are_shown_to_nobody_without_token() {
    let mut state = state();
    says(
        &list_services(&mut state, &no_headers()).unwrap_err(),
        StatusCode::Unauthorized,
        "Missing Authorization header",
    );
    says(
        &get_service(&mut state, &auth("x"), "web").unwrap_err(),
        StatusCode::Unauthorized,
        "Invalid token",
    );
    says(
        &delete_service(&mut state, &auth("x"), "web").err().unwrap(),
        StatusCode::Unauthorized,
        "Invalid token",
    );
    assert!(state.services_by_name.is_empty());
}

#[test]
fn unknown_service_is_not_found() {
    let mut state = state();
    says(
        &get_service(&mut state, &admin(), "ftp").unwrap_err(),
        StatusCode::NotFound,
        "Service 'ftp' not found",
    );
    says(
        &delete_service(&mut state, &admin(), "ftp").err().unwrap(),
        StatusCode::NotFound,
        "Service 'ftp' not found",
    );
}

#[test]
fn service_is_found_once_the_server_has_it() {
    let mut state = state_with(Some("admin"), vec![]);
    assert!(get_service(&mut state, &admin(), "web").is_err());
    state.services.push(([7; 32], svc("web", "0.0.0.0:80", ServiceType::Tcp)));
    assert_eq!(get_service(&mut state, &admin(), "web").unwrap().name, "web");
    state.services.clear();
    state.sync_services_by_name();
    assert!(state.services_by_name.is_empty());
}

#[test]
fn new_service_is_announced_and_shown() {
    let mut state = state();
    let announced = match create_service(&mut state, &admin(), &request("ssh", "TCP", "0.0.0.0:22"))
    {
        CreateStep::Announce(c) => c,
        _ => panic!("the service is new"),
    };
    assert_eq!(announced.name, "ssh");
    assert_eq!(announced.service_type, ServiceType::Tcp);
    assert_eq!(announced.bind_addr, "0.0.0.0:22");
    assert_eq!(announced.token.as_ref().unwrap().as_str(), "fresh");
    assert_eq!(announced.nodelay, None);

    let (status, shown) = service_announced(&announced, true).unwrap();
    assert_eq!(status, StatusCode::Created);
    assert_eq!(shown.name, "ssh");
    assert_eq!(shown.service_type, "tcp");
    assert_eq!(shown.bind_addr, "0.0.0.0:22");
    assert_eq!(shown.token, None);

    says(
        &service_announced(&announced, false).unwrap_err(),
        StatusCode::InternalServerError,
        "Failed to add service",
    );

    // Once the server has it, asking again shows it.
    state.services.push(([9; 32], announced));
    match create_service(&mut state, &admin(), &request("ssh", "udp", "0.0.0.0:1")) {
        CreateStep::Existing(info) => {
            assert_eq!(info.service_type, "tcp");
            assert_eq!(info.bind_addr, "0.0.0.0:22");
            assert_eq!(info.token, None);
        }
        _ => panic!("the service is there"),
    }
}

#[test]
fn new_service_is_refused_without_token() {
    let mut state = state();
    match create_service(&mut state, &no_headers(), &request("ssh", "tcp", "0.0.0.0:22")) {
        CreateStep::Refuse(f) => {
            says(&f, StatusCode::Unauthorized, "Missing Authorization header")
        }
        _ => panic!("the request has no token"),
    }
}

#[test]
fn unknown_service_type_is_refused() {
    let mut state = state();
    match create_service(&mut state, &admin(), &request("web", "Http", "0.0.0.0:22")) {
        CreateStep::Refuse(f) => {
            says(&f, StatusCode::BadRequest, "Invalid service type: Http")
        }
        _ => panic!("the type is none"),
    }
}

fn pending(bind_addr: &str) -> PendingService {
    let mut state = state();
    match create_service(&mut state, &admin(), &request("ssh", "udp", bind_addr)) {
        CreateStep::AllocatePort(pending) => pending,
        _ => panic!("the address asks for any port"),
    }
}

#[test]
fn free_port_is_taken() {
    let step = port_allocated(
        pending("127.0.0.1:0"),
        PortOutcome::Allocated { ip: "127.0.0.1".to_string(), port: 40123 },
    );
    match step {
        CreateStep::Announce(c) => {
            assert_eq!(c.name, "ssh");
            assert_eq!(c.service_type, ServiceType::Udp);
            assert_eq!(c.bind_addr, "127.0.0.1:40123");
            assert_eq!(c.token.unwrap().as_str(), "fresh");
        }
        _ => panic!("there is a free port"),
    }
}

#[test]
fn failures_to_find_a_port_are_told() {
    match port_allocated(pending("nowhere:0"), PortOutcome::InvalidAddress) {
        CreateStep::Refuse(f) => {
            says(&f, StatusCode::BadRequest, "Invalid bind address: nowhere:0")
        }
        _ => panic!("the address is none"),
    }
    match port_allocated(pending("127.0.0.1:0"), PortOutcome::BindFailed("busy".to_string())) {
        CreateStep::Refuse(f) => {
            says(&f, StatusCode::InternalServerError, "Failed to allocate port: busy")
        }
        _ => panic!("no port was bound"),
    }
    match port_allocated(pending("127.0.0.1:0"), PortOutcome::AddressUnknown("gone".to_string())) {
        CreateStep::Refuse(f) => {
            says(&f, StatusCode::InternalServerError, "Failed to get allocated port: gone")
        }
        _ => panic!("the port is not known"),
    }
}

#[test]
fn port_that_ends_in_zero_is_a_port() {
    let mut state = state();
    match create_service(&mut state, &admin(), &request("ssh", "tcp", "0.0.0.0:8080")) {
        CreateStep::Announce(c) => assert_eq!(c.bind_addr, "0.0.0.0:8080"),
        _ => panic!("the address names a port"),
    }
}

#[test]
fn service_is_deleted() {
    let mut state = state();
    match delete_service(&mut state, &admin(), "web") {
        Ok(ServerServiceChange::Delete(name)) => assert_eq!(name, "web"),
        _ => panic!("the service is there"),
    }
    assert_eq!(service_deleted(true).unwrap(), StatusCode::NoContent);
    says(
        &service_deleted(false).unwrap_err(),
        StatusCode::InternalServerError,
        "Failed to delete service",
    );
}

fn client_request(entries: &[(&str, &str)]) -> CreateClientConfigRequest {
    let mut services = NameMap::new();
    for (name, service_type) in entries {
        services.insert(
            name.to_string(),
            ClientServiceInfo {
                name: "ignored".to_string(),
                service_type: service_type.to_string(),
                local_addr: "127.0.0.1:80".to_string(),
                bind_addr: Some("0.0.0.0:8080".to_string()),
            },
        );
    }
    CreateClientConfigRequest { services }
}

#[test]
fn stored_configuration_is_handed_out() {
    let mut state = state();
    let req = client_request(&[("web", "TCP"), ("dns", "Udp")]);
    let (status, response) = create_client_config(&mut state, &admin(), "t1", &req).ok().unwrap();
    assert_eq!(status, StatusCode::Created);
    assert_eq!(response.remote_addr, "n100:2333");
    let config = get_client_config(&state, "t1").ok().unwrap();
    assert_eq!(config.remote_addr, "n100:2333");
    assert_eq!(config.services.len(), 2);
    let web = config.services.get("web").unwrap();
    assert_eq!(web.name, "web");
    assert_eq!(web.service_type, "tcp");
    assert_eq!(web.local_addr, "127.0.0.1:80");
    assert_eq!(web.bind_addr, Some("0.0.0.0:8080".to_string()));
    assert_eq!(config.services.get("dns").unwrap().service_type, "udp");
    let stored = state.client_configs.get("t1").unwrap();
    let stored_web = stored.services.get("web").unwrap();
    assert_eq!(stored_web.token.as_ref().unwrap().as_str(), "t1");
    assert_eq!(stored_web.retry_interval, None);
    assert!(!stored_web.prefer_ipv6);
}

#[test]
fn stored_configuration_is_replaced() {
    let mut state = state();
    create_client_config(&mut state, &admin(), "t1", &client_request(&[("web", "tcp")]))
        .ok()
        .unwrap();
    create_client_config(&mut state, &admin(), "t2", &client_request(&[("a", "tcp")]))
        .ok()
        .unwrap();
    create_client_config(&mut state, &admin(), "t1", &client_request(&[("dns", "udp")]))
        .ok()
        .unwrap();
    let config = get_client_config(&state, "t1").ok().unwrap();
    assert!(config.services.get("web").is_none());
    assert!(config.services.get("dns").is_some());
    assert!(get_client_config(&state, "t2").ok().unwrap().services.contains_key("a"));
}

#[test]
fn configuration_with_unknown_type_is_refused() {
    let mut state = state();
    let req = client_request(&[("web", "tcp"), ("x", "first"), ("y", "second")]);
    let f = create_client_config(&mut state, &admin(), "t1", &req).err().unwrap();
    says(&f, StatusCode::BadRequest, "Invalid service type: first");
    assert!(state.client_configs.is_empty());
    let f = create_client_config(&mut state, &no_headers(), "t1", &req).err().unwrap();
    says(&f, StatusCode::Unauthorized, "Missing Authorization header");
}

#[test]
fn unknown_configuration_is_not_found() {
    let mut state = state();
    let f = get_client_config(&state, "t1").err().unwrap();
    says(&f, StatusCode::NotFound, "No configuration found for token");
    let f = delete_client_config(&mut state, &admin(), "t1").unwrap_err();
    says(&f, StatusCode::NotFound, "No configuration found for token");
    let f = delete_client_config(&mut state, &auth("x"), "t1").unwrap_err();
    says(&f, StatusCode::Unauthorized, "Invalid token");
}

#[test]
fn deleted_configuration_is_gone() {
    let mut state = state();
    create_client_config(&mut state, &admin(), "t1", &client_request(&[("web", "tcp")]))
        .ok()
        .unwrap();
    create_client_config(&mut state, &admin(), "t2", &client_request(&[("web", "tcp")]))
        .ok()
        .unwrap();
    assert_eq!(delete_client_config(&mut state, &admin(), "t1").unwrap(), StatusCode::NoContent);
    assert!(get_client_config(&state, "t1").is_err());
    assert!(get_client_config(&state, "t2").is_ok());
}

#[test]
fn all_configurations_are_listed() {
    let mut state = state();
    create_client_config(&mut state, &admin(), "t1", &client_request(&[("web", "tcp")]))
        .ok()
        .unwrap();
    create_client_config(&mut state, &admin(), "t2", &client_request(&[("dns", "udp")]))
        .ok()
        .unwrap();
    let list = list_client_configs(&state, &admin()).ok().unwrap();
    assert_eq!(list.len(), 2);
    assert_eq!(list.get("t2").unwrap().remote_addr, "n100:2333");
    assert_eq!(list.get("t2").unwrap().services.get("dns").unwrap().service_type, "udp");
    let f = list_client_configs(&state, &no_headers()).err().unwrap();
    says(&f, StatusCode::Unauthorized, "Missing Authorization header");
}

#[test]
fn table_of_services_stays_as_it_is() {
    let mut state = state();
    let digests = |s: &ApiState| -> Vec<[u8; 32]> { s.services.iter().map(|e| e.0).collect() };
    let before = digests(&state);
    assert_eq!(before, vec![[0; 32], [1; 32]]);
    state.sync_services_by_name();
    let _ = list_services(&mut state, &admin());
    let _ = get_service(&mut state, &admin(), "web");
    let _ = create_service(&mut state, &admin(), &request("ssh", "tcp", "0.0.0.0:22"));
    let _ = create_service(&mut state, &no_headers(), &request("ssh", "tcp", "0.0.0.0:22"));
    let _ = delete_service(&mut state, &admin(), "web");
    let _ = create_client_config(&mut state, &admin(), "t1", &client_request(&[("web", "tcp")]));
    let _ = delete_client_config(&mut state, &admin(), "t1");
    assert_eq!(digests(&state), before);
}
