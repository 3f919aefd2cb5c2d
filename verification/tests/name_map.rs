use rathole::config::{ClientServiceConfig, MaskedString, ServiceType, StoredClientConfig};
use rathole::name_map::NameMap;

fn masked(s: &str) -> MaskedString {
    MaskedString::from(s)
}

#[test]
fn names_keep_their_first_place() {
    let mut map = NameMap::new();
    assert!(map.is_empty());
    map.insert("b".to_string(), masked("1"));
    map.insert("a".to_string(), masked("2"));
    map.insert("b".to_string(), masked("3"));
    assert_eq!(map.len(), 2);
    assert_eq!(map.name_at(0), "b");
    assert_eq!(map.value_at(0).as_str(), "3");
    assert_eq!(map.name_at(1), "a");
    assert!(map.contains_key("a") && !map.contains_key("c"));
    assert_eq!(map.get("a").unwrap().as_str(), "2");
    assert!(map.get("A").is_none());
}

#[test]
fn removed_names_are_gone() {
    let mut map = NameMap::new();
    map.insert("a".to_string(), masked("1"));
    map.insert("b".to_string(), masked("2"));
    assert_eq!(map.remove("a").unwrap().as_str(), "1");
    assert!(map.remove("a").is_none());
    assert_eq!(map.len(), 1);
    assert_eq!(map.name_at(0), "b");
}

#[test]
fn masked_text_is_kept() {
    let m = masked("secret");
    assert_eq!(m.clone().as_str(), "secret");
}

#[test]
fn service_types_are_named_in_any_case() {
    assert_eq!(ServiceType::named("TCP"), Some(ServiceType::Tcp));
    assert_eq!(ServiceType::named("uDp"), Some(ServiceType::Udp));
    assert_eq!(ServiceType::named("tcp "), None);
    assert_eq!(ServiceType::named("\u{fc}dp"), None);
    assert_eq!(ServiceType::named(&ServiceType::Udp.text()), Some(ServiceType::Udp));
    assert_eq!(ServiceType::Tcp.text(), "tcp");
}

#[test]
fn stored_configurations_are_copied() {
    let mut services = NameMap::new();
    services.insert(
        "web".to_string(),
        ClientServiceConfig {
            service_type: ServiceType::Udp,
            name: "web".to_string(),
            local_addr: "127.0.0.1:80".to_string(),
            prefer_ipv6: true,
            token: Some(masked("t")),
            nodelay: Some(false),
            retry_interval: Some(3),
            bind_addr: Some("0.0.0.0:1".to_string()),
        },
    );
    let copy = StoredClientConfig { services }.clone();
    assert_eq!(copy.services.len(), 1);
    let web = copy.services.get("web").unwrap();
    assert_eq!(web.service_type, ServiceType::Udp);
    assert_eq!(web.local_addr, "127.0.0.1:80");
    assert!(web.prefer_ipv6);
    assert_eq!(web.token.as_ref().unwrap().as_str(), "t");
    assert_eq!((web.nodelay, web.retry_interval), (Some(false), Some(3)));
    assert_eq!(web.bind_addr, Some("0.0.0.0:1".to_string()));
}
