use rathole::config::{
    ClientServiceConfig, MaskedString, ServerServiceConfig, ServiceType, StoredClientConfig,
};
use rathole::config_file::{
    persist_client_config_to_file, persist_service_to_config, put_entry_in_document,
    remove_client_config_from_file, remove_entry_from_document, remove_service_from_config,
    ConfigFileError,
};
use rathole::name_map::NameMap;
use toml::Value;

fn svc(name: &str, token: Option<&str>) -> ServerServiceConfig {
    ServerServiceConfig {
        service_type: ServiceType::Udp,
        name: name.to_string(),
        bind_addr: "0.0.0.0:53".to_string(),
        token: token.map(MaskedString::from),
        nodelay: Some(true),
    }
}

fn stored() -> StoredClientConfig {
    let mut services = NameMap::new();
    services.insert(
        "web".to_string(),
        ClientServiceConfig {
            service_type: ServiceType::Tcp,
            name: "web".to_string(),
            local_addr: "127.0.0.1:80".to_string(),
            prefer_ipv6: false,
            token: Some(MaskedString::from("t1")),
            nodelay: None,
            retry_interval: None,
            bind_addr: Some("0.0.0.0:8080".to_string()),
        },
    );
    services.insert(
        "dns".to_string(),
        ClientServiceConfig {
            service_type: ServiceType::Udp,
            name: "dns".to_string(),
            local_addr: "127.0.0.1:53".to_string(),
            prefer_ipv6: false,
            token: Some(MaskedString::from("t1")),
            nodelay: None,
            retry_interval: None,
            bind_addr: None,
        },
    );
    StoredClientConfig { services }
}

fn parsed(text: &str) -> Value {
    text.parse::<Value>().unwrap()
}

const FILE: &str = "[server]\nbind_addr = \"0.0.0.0:2333\"\nheartbeat_interval = 30\n\n[server.services.web]\nbind_addr = \"0.0.0.0:80\"\n";

#[test]
fn kept_service_is_read_back() {
    let text = persist_service_to_config(FILE, &svc("dns", Some("secret"))).ok().unwrap();
    let doc = parsed(&text);
    let server = &doc["server"];
    assert_eq!(server["bind_addr"].as_str(), Some("0.0.0.0:2333"));
    assert_eq!(server["heartbeat_interval"].as_integer(), Some(30));
    assert_eq!(server["services"]["web"]["bind_addr"].as_str(), Some("0.0.0.0:80"));
    let dns = server["services"]["dns"].as_table().unwrap();
    assert_eq!(dns.len(), 3);
    assert_eq!(dns["type"].as_str(), Some("udp"));
    assert_eq!(dns["bind_addr"].as_str(), Some("0.0.0.0:53"));
    assert_eq!(dns["token"].as_str(), Some("secret"));
}

#[test]
fn service_without_token_is_kept_without() {
    let text = persist_service_to_config(FILE, &svc("dns", None)).ok().unwrap();
    let doc = parsed(&text);
    assert_eq!(doc["server"]["services"]["dns"].as_table().unwrap().len(), 2);
}

#[test]
fn kept_service_replaces_the_one_of_its_name() {
    let text = persist_service_to_config(FILE, &svc("web", None)).ok().unwrap();
    let doc = parsed(&text);
    assert_eq!(doc["server"]["services"]["web"]["type"].as_str(), Some("udp"));
    assert_eq!(doc["server"]["services"].as_table().unwrap().len(), 1);
}

#[test]
fn section_is_made_where_it_is_missing() {
    let text = persist_service_to_config("[server]\n", &svc("a b\"c", None)).ok().unwrap();
    let doc = parsed(&text);
    assert_eq!(doc["server"]["services"]["a b\"c"]["type"].as_str(), Some("udp"));
}

#[test]
fn removing_undoes_keeping() {
    let kept = persist_service_to_config(FILE, &svc("dns", None)).ok().unwrap();
    let removed = remove_service_from_config(&kept, "dns").ok().unwrap();
    assert_eq!(parsed(&removed), parsed(FILE));
    let kept = persist_client_config_to_file(FILE, "t1", &stored()).ok().unwrap();
    let removed = remove_client_config_from_file(&kept, "t1").ok().unwrap();
    let doc = parsed(&removed);
    assert!(doc["server"]["client_configs"].as_table().unwrap().is_empty());
}

#[test]
fn removing_what_is_not_there_changes_nothing() {
    for file in [FILE, "", "server = 1\n", "[server]\nservices = 2\n"] {
        let removed = remove_service_from_config(file, "dns").ok().unwrap();
        assert_eq!(parsed(&removed), parsed(file));
        let removed = remove_client_config_from_file(file, "t1").ok().unwrap();
        assert_eq!(parsed(&removed), parsed(file));
    }
}

#[test]
fn kept_client_configuration_is_read_back() {
    let text = persist_client_config_to_file(FILE, "t1", &stored()).ok().unwrap();
    let doc = parsed(&text);
    let services = doc["server"]["client_configs"]["t1"]["services"].as_table().unwrap();
    assert_eq!(services.len(), 2);
    let web = services["web"].as_table().unwrap();
    assert_eq!(web.len(), 3);
    assert_eq!(web["type"].as_str(), Some("tcp"));
    assert_eq!(web["local_addr"].as_str(), Some("127.0.0.1:80"));
    assert_eq!(web["bind_addr"].as_str(), Some("0.0.0.0:8080"));
    let dns = services["dns"].as_table().unwrap();
    assert_eq!(dns.len(), 2);
    assert_eq!(dns["type"].as_str(), Some("udp"));
    assert_eq!(doc["server"]["services"]["web"]["bind_addr"].as_str(), Some("0.0.0.0:80"));
}

#[test]
fn text_that_is_no_document_is_refused() {
    let e = persist_service_to_config("= 1", &svc("dns", None)).err().unwrap();
    assert!(matches!(e, ConfigFileError::Read(_)));
    assert_eq!(e.message(), None);
    let e = remove_service_from_config("= 1", "dns").err().unwrap();
    assert!(matches!(e, ConfigFileError::Read(_)));
    let e = persist_client_config_to_file("= 1", "t", &stored()).err().unwrap();
    assert!(matches!(e, ConfigFileError::Read(_)));
    let e = remove_client_config_from_file("= 1", "t").err().unwrap();
    assert!(matches!(e, ConfigFileError::Read(_)));
}

#[test]
fn document_without_server_is_refused() {
    let e = persist_service_to_config("a = 1\n", &svc("dns", None)).err().unwrap();
    assert!(matches!(e, ConfigFileError::NoServer));
    assert_eq!(e.message(), Some("No [server] section in config".to_string()));
}

#[test]
fn server_that_is_no_table_is_refused() {
    let e = persist_service_to_config("server = 1\n", &svc("dns", None)).err().unwrap();
    assert!(matches!(e, ConfigFileError::InvalidServer));
    assert_eq!(e.message(), Some("Invalid server section".to_string()));
}

#[test]
fn section_that_is_no_table_is_refused() {
    let e = persist_service_to_config("[server]\nservices = 1\n", &svc("dns", None)).err().unwrap();
    assert_eq!(e.message(), Some("Invalid services section".to_string()));
    let e = persist_client_config_to_file("[server]\nclient_configs = 1\n", "t", &stored())
        .err()
        .unwrap();
    assert_eq!(e.message(), Some("Invalid client_configs section".to_string()));
}

#[test]
fn document_that_cannot_be_written_is_told() {
    let file = "x = [[{a = 1}]]\ny = 1\n[server]\n";
    let e = persist_service_to_config(file, &svc("dns", None)).err().unwrap();
    assert!(matches!(e, ConfigFileError::Write(_)));
    assert_eq!(e.message(), None);
    let e = remove_service_from_config(file, "dns").err().unwrap();
    assert!(matches!(e, ConfigFileError::Write(_)));
}

#[test]
fn value_that_is_no_table_takes_no_entry() {
    let mut doc = Value::Integer(1);
    let r = put_entry_in_document(&mut doc, "services", "x".to_string(), Value::Integer(2));
    assert!(matches!(r, Err(ConfigFileError::NoServer)));
    assert_eq!(doc, Value::Integer(1));
}

#[test]
fn plain_documents_are_read_back() {
    let files = [
        "[server]\n",
        "a = 1\n[server]\n[server.services]\n[z]\n",
        "min = -9223372036854775808\nmax = 9223372036854775807\nzero = 0\nyes = true\nno = false\n[server]\nx = 'y'\n",
        "[server.services.a.b.c.d]\n[server.services.a.b.e]\nx = 1\n[server.services.a]\ny = 2\n",
        "true = 'true'\n1 = 'one'\n-1 = 'minus'\ninf = 'inf'\nnan = 'nan'\n_ = ''\n- = 'h'\n[server.1-2.3_4]\n[server.true]\n",
        "a = \"\\\"quoted\\\"\"\nb = \"back\\\\slash\"\nc = '# = [x]'\nd = \"\u{feff}\u{85}\u{1f600}\u{e9}\"\ne = ' '\n[server]\n[server.services.x]\nt = 'u'\n",
        "[a.a.a]\nv = 1\n[a.a.b]\n[a.b]\nv = 2\n[b.a]\n[server.a]\nv = 3\n",
    ];
    for file in files {
        let before = parsed(file);
        let unchanged = remove_service_from_config(file, "missing").ok().unwrap();
        assert_eq!(parsed(&unchanged), before);

        let kept = persist_service_to_config(file, &svc("dns-1", Some("se\"c\\ret"))).ok().unwrap();
        let mut expected = before.clone();
        let mut entry = toml::map::Map::new();
        entry.insert("type".to_string(), Value::String("udp".to_string()));
        entry.insert("bind_addr".to_string(), Value::String("0.0.0.0:53".to_string()));
        entry.insert("token".to_string(), Value::String("se\"c\\ret".to_string()));
        let r = put_entry_in_document(
            &mut expected,
            "services",
            "dns-1".to_string(),
            Value::Table(entry),
        );
        assert!(r.is_ok());
        assert_eq!(parsed(&kept), expected);

        let kept = persist_client_config_to_file(file, "t_1", &stored()).ok().unwrap();
        let removed = remove_client_config_from_file(&kept, "t_1").ok().unwrap();
        let mut expected = before.clone();
        let r = put_entry_in_document(
            &mut expected,
            "client_configs",
            "t_1".to_string(),
            Value::Boolean(true),
        );
        assert!(r.is_ok());
        remove_entry_from_document(&mut expected, "client_configs", "t_1");
        assert_eq!(parsed(&removed), expected);
    }
}

#[test]
fn entries_come_and_go_in_a_document() {
    let mut doc = parsed(FILE);
    let r = put_entry_in_document(&mut doc, "extra", "x".to_string(), Value::Boolean(true));
    assert!(r.is_ok());
    assert_eq!(doc["server"]["extra"]["x"].as_bool(), Some(true));
    assert_eq!(doc["server"]["services"], parsed(FILE)["server"]["services"]);
    remove_entry_from_document(&mut doc, "extra", "x");
    assert!(doc["server"]["extra"].as_table().unwrap().is_empty());
    remove_entry_from_document(&mut doc, "missing", "x");
    assert!(doc["server"].get("missing").is_none());
}

/// Numbers that look random and are the same in every run.
struct Numbers(u64);

impl Numbers {
    fn below(&mut self, n: usize) -> usize {
        self.0 ^= self.0 << 13;
        self.0 ^= self.0 >> 7;
        self.0 ^= self.0 << 17;
        ((self.0 >> 11) % (n as u64)) as usize
    }
}

fn some_text(r: &mut Numbers) -> String {
    let chars = [
        'a', 'Z', '0', '-', '_', '.', ' ', '\t', '\n', '\r', '\'', '\'', '"', '\\', '#', '=', '[', ']',
        '{', ',', '\u{0}', '\u{8}', '\u{c}', '\u{1f}', '\u{7f}', '\u{85}', '\u{feff}', '\u{e9}',
        '\u{1f600}', 'u', 'n', '$',
    ];
    (0..r.below(6)).map(|_| chars[r.below(chars.len())]).collect()
}

fn some_scalar(r: &mut Numbers) -> Value {
    let dates = [
        "1979-05-27T07:32:00Z",
        "1979-05-27T00:32:00.999999-07:00",
        "0000-01-31T24:59:59.000000001+99:99",
        "9999-12-01T00:00:00",
        "1979-05-27",
        "00:32:00.5",
        "07:32:00",
    ];
    match r.below(5) {
        0 => Value::Integer([0, 1, -1, i64::MAX, i64::MIN, 1979][r.below(6)]),
        1 => Value::Boolean(r.below(2) == 0),
        2 => Value::Datetime(dates[r.below(dates.len())].parse().unwrap()),
        _ => Value::String(some_text(r)),
    }
}

fn some_flat_array(r: &mut Numbers, depth: usize) -> Value {
    let mut items = Vec::new();
    for _ in 0..r.below(4) {
        items.push(if depth > 0 && r.below(2) == 0 {
            some_flat_array(r, depth - 1)
        } else {
            some_scalar(r)
        });
    }
    Value::Array(items)
}

fn some_table(r: &mut Numbers, depth: usize) -> Value {
    let keys = ["a", "b", "", "x.y", "x==", "true", "1", "-", "'", "\"", "\n", "[x]", "# y"];
    let mut table = toml::map::Map::new();
    for _ in 0..r.below(4) {
        let key = if r.below(3) == 0 { some_text(r) } else { keys[r.below(keys.len())].to_string() };
        let value = match r.below(6) {
            0 => some_scalar(r),
            1 => some_flat_array(r, 2),
            2 if depth > 0 => {
                Value::Array((0..1 + r.below(3)).map(|_| some_table(r, depth - 1)).collect())
            }
            _ if depth > 0 => some_table(r, depth - 1),
            _ => some_scalar(r),
        };
        table.insert(key, value);
    }
    Value::Table(table)
}

#[test]
fn documents_of_many_shapes_are_read_back() {
    let mut r = Numbers(88172645463325252);
    for i in 0..1500 {
        let mut doc = some_table(&mut r, 1 + i % 4);
        let text = toml::to_string_pretty(&doc).unwrap();
        let unchanged = remove_service_from_config(&text, "missing").ok().unwrap();
        assert_eq!(parsed(&unchanged), doc);

        let server = some_table(&mut r, 2);
        doc.as_table_mut().unwrap().insert("server".to_string(), server);
        let text = toml::to_string_pretty(&doc).unwrap();
        let name = some_text(&mut r);
        let kept = persist_service_to_config(&text, &svc(&name, Some(&some_text(&mut r)))).ok().unwrap();
        assert_eq!(parsed(&kept)["server"]["services"][&name]["type"].as_str(), Some("udp"));
        let dropped = remove_service_from_config(&kept, &name).ok().unwrap();
        remove_entry_from_document(&mut doc, "services", &name);
        let _ = doc["server"]
            .as_table_mut()
            .unwrap()
            .entry("services")
            .or_insert(Value::Table(toml::map::Map::new()));
        assert_eq!(parsed(&dropped), doc);
    }
}

#[test]
fn names_and_tokens_that_need_quotes_are_read_back() {
    let kept = persist_service_to_config(FILE, &svc("a.b", Some("it's == \"x\"\n'''"))).ok().unwrap();
    assert_eq!(
        parsed(&kept)["server"]["services"]["a.b"]["token"].as_str(),
        Some("it's == \"x\"\n'''")
    );
    let kept = persist_client_config_to_file(FILE, "x==", &stored()).ok().unwrap();
    assert_eq!(
        parsed(&kept)["server"]["client_configs"]["x=="]["services"]["web"]["type"].as_str(),
        Some("tcp")
    );
}
