//! What the configuration file says of what was kept in it, and what of it stays.

use crate::config::{
    law_type_text_names_type, named_type, ClientServiceView, ServerServiceView, ServiceType,
    StoredClientView,
};
use crate::config_file::{
    client_config_toml, client_service_toml, drops_client_config, drops_service, file_with_entry,
    file_without_entry, keeps_client_config, keeps_service, law_client_config_is_writable,
    law_document_stays_writable, law_entry_can_be_kept, law_kept_entry_is_read_back,
    law_removed_entry_is_gone, law_service_is_writable, ordinary_key, section_entries, service_toml,
    text_result, toml_read, toml_written, with_entry, without_entry, writable_document,
    ConfigFileError, ConfigFileErrorView, Toml,
};
use vstd::prelude::*;

verus! {

proof fn lemma_keys_differ()
    ensures
        "type"@ != "bind_addr"@,
        "type"@ != "local_addr"@,
        "type"@ != "token"@,
        "bind_addr"@ != "local_addr"@,
        "bind_addr"@ != "token"@,
{
    reveal_strlit("type");
    reveal_strlit("bind_addr");
    reveal_strlit("local_addr");
    reveal_strlit("token");
    assert("bind_addr"@[0] != "token"@[0]);
    assert("type"@.len() != "bind_addr"@.len());
}

/// Whether a value is a table that says exactly this of a service: its type, and
/// texts under these keys.
pub open spec fn says_of_service(
    value: Toml,
    service_type: ServiceType,
    texts: Map<Seq<char>, Seq<char>>,
) -> bool {
    &&& value matches Toml::Table(entries)
    &&& entries.contains_key("type"@)
    &&& entries["type"@] matches Toml::Text(t) && named_type(t) == Some(service_type) && (t
        == "tcp"@ || t == "udp"@)
    &&& forall|k: Seq<char>|
        k != "type"@ ==> (#[trigger] entries.contains_key(k) <==> texts.contains_key(k))
    &&& forall|k: Seq<char>| #[trigger]
        texts.contains_key(k) && k != "type"@ ==> entries[k] == Toml::Text(texts[k])
}

/// The texts that are kept of a service of the server: its address, and its token
/// where it has one.
pub open spec fn server_texts(svc: ServerServiceView) -> Map<Seq<char>, Seq<char>> {
    match svc.token {
        Some(token) => map!["bind_addr"@ => svc.bind_addr, "token"@ => token],
        None => map!["bind_addr"@ => svc.bind_addr],
    }
}

/// The texts that are kept of a service of a client: its local address, and its
/// bind address where it has one.
pub open spec fn client_texts(svc: ClientServiceView) -> Map<Seq<char>, Seq<char>> {
    match svc.bind_addr {
        Some(addr) => map!["local_addr"@ => svc.local_addr, "bind_addr"@ => addr],
        None => map!["local_addr"@ => svc.local_addr],
    }
}

/// What is kept of a service of the server names its own type, and has its address
/// and its token, where it has one, and nothing else.
pub proof fn law_kept_service(svc: ServerServiceView)
    ensures
        says_of_service(service_toml(svc), svc.service_type, server_texts(svc)),
{
    lemma_keys_differ();
    law_type_text_names_type(svc.service_type);
}

/// Two services of the server that differ in type, address or token are kept
/// differently.
pub proof fn law_different_services_are_kept_differently(a: ServerServiceView, b: ServerServiceView)
    requires
        service_toml(a) == service_toml(b),
    ensures
        a.service_type == b.service_type,
        a.bind_addr == b.bind_addr,
        a.token == b.token,
{
    lemma_keys_differ();
    law_kept_service(a);
    law_kept_service(b);
    let entries = service_toml(a)->Table_0;
    assert(server_texts(a).contains_key("bind_addr"@) && server_texts(b).contains_key("bind_addr"@));
    assert(entries.contains_key("token"@) <==> a.token is Some);
    assert(entries.contains_key("token"@) <==> b.token is Some);
    if a.token is Some {
        assert(server_texts(a).contains_key("token"@) && server_texts(b).contains_key("token"@));
    }
}

/// What is kept of a service of a client names its own type, and has its local
/// address and its bind address, where it has one, and nothing else.
pub proof fn law_kept_client_service(svc: ClientServiceView)
    ensures
        says_of_service(client_service_toml(svc), svc.service_type, client_texts(svc)),
{
    lemma_keys_differ();
    law_type_text_names_type(svc.service_type);
}

/// What is kept of a client configuration is a table of its services and nothing
/// else: each stands there under its own name.
pub proof fn law_kept_client_config(config: StoredClientView, name: Seq<char>)
    ensures
        client_config_toml(config) matches Toml::Table(entries) && {
            &&& entries.dom() == set!["services"@]
            &&& entries["services"@] matches Toml::Table(services) && {
                &&& services.contains_key(name) <==> config.services.contains_key(name)
                &&& config.services.contains_key(name) ==> says_of_service(
                    services[name],
                    config.services[name].service_type,
                    client_texts(config.services[name]),
                )
            }
        },
{
    if config.services.contains_key(name) {
        law_kept_client_service(config.services[name]);
    }
    let entries = client_config_toml(config)->Table_0;
    assert(entries.dom() =~= set!["services"@]);
}

/// Whether a document is a table with a section `server` that is a table with these
/// entries.
pub open spec fn has_server(doc: Toml, server: Map<Seq<char>, Toml>) -> bool {
    &&& doc matches Toml::Table(top)
    &&& top.contains_key("server"@)
    &&& top["server"@] == Toml::Table(server)
}

/// The entries of a section are those of a table of that name below `server`.
pub proof fn law_sections(
    doc: Toml,
    server: Map<Seq<char>, Toml>,
    section: Seq<char>,
    entries: Map<Seq<char>, Toml>,
)
    ensures
        has_server(doc, server) ==> (section_entries(doc, section) == Some(entries)
            <==> server.contains_key(section) && server[section] == Toml::Table(entries)),
        section_entries(doc, section) is Some ==> exists|s: Map<Seq<char>, Toml>| #[trigger]
            has_server(doc, s),
{
    if section_entries(doc, section) is Some {
        assert(has_server(doc, doc->Table_0["server"@]->Table_0));
    }
}

/// Each reason not to keep an entry comes exactly where it holds: that there is no
/// `server`, that it is no table, or that its section is none.
pub proof fn law_reasons_not_to_keep(
    doc: Toml,
    section: Seq<char>,
    key: Seq<char>,
    value: Toml,
)
    ensures
        with_entry(doc, section, key, value) == Err::<Toml, ConfigFileErrorView>(
            ConfigFileErrorView::NoServer,
        ) <==> !(doc matches Toml::Table(top) && top.contains_key("server"@)),
        with_entry(doc, section, key, value) == Err::<Toml, ConfigFileErrorView>(
            ConfigFileErrorView::InvalidServer,
        ) <==> (doc matches Toml::Table(top) && top.contains_key("server"@) && !(top["server"@]
            is Table)),
        with_entry(doc, section, key, value) == Err::<Toml, ConfigFileErrorView>(
            ConfigFileErrorView::InvalidSection(section),
        ) <==> (doc matches Toml::Table(top) && top.contains_key("server"@) && (top["server"@]
            matches Toml::Table(server) && server.contains_key(section) && !(server[section]
            is Table))),
        with_entry(doc, section, key, value) is Ok <==> (doc matches Toml::Table(top)
            && top.contains_key("server"@) && (top["server"@] matches Toml::Table(server) && (
        server.contains_key(section) ==> server[section] is Table))),
{
}

/// Keeping an entry, and taking one out, leave everything beside `server`, and
/// everything below `server` beside the section, as it was.
pub proof fn law_all_else_in_the_document_stays(
    doc: Toml,
    server: Map<Seq<char>, Toml>,
    section: Seq<char>,
    key: Seq<char>,
    value: Toml,
    other: Seq<char>,
)
    requires
        has_server(doc, server),
    ensures
        ({
            let top = doc->Table_0;
            &&& with_entry(doc, section, key, value) matches Ok(changed) ==> {
                &&& changed matches Toml::Table(after)
                &&& other != "server"@ ==> (after.contains_key(other) <==> top.contains_key(other))
                &&& other != "server"@ && top.contains_key(other) ==> after[other] == top[other]
                &&& after.contains_key("server"@)
                &&& after["server"@] matches Toml::Table(below)
                &&& other != section ==> (below.contains_key(other) <==> server.contains_key(other))
                &&& other != section && server.contains_key(other) ==> below[other]
                    == server[other]
            }
            &&& without_entry(doc, section, key) matches Toml::Table(after) && {
                &&& other != "server"@ ==> (after.contains_key(other) <==> top.contains_key(other))
                &&& other != "server"@ && top.contains_key(other) ==> after[other] == top[other]
                &&& after.contains_key("server"@)
                &&& after["server"@] matches Toml::Table(below) && {
                    &&& below.contains_key(other) <==> server.contains_key(other)
                    &&& other != section && server.contains_key(other) ==> below[other]
                        == server[other]
                }
            }
        }),
{
}

/// The text of a file with or without an entry is what is written of the changed
/// document. A text that is no document, a document that cannot take the entry, and
/// a changed one that cannot be written each give their reason.
pub proof fn law_changed_files(content: Seq<char>, section: Seq<char>, key: Seq<char>, value: Toml)
    ensures
        toml_read(content) is None ==> file_with_entry(content, section, key, value) == Err::<
            Seq<char>,
            ConfigFileErrorView,
        >(ConfigFileErrorView::Read) && file_without_entry(content, section, key) == Err::<
            Seq<char>,
            ConfigFileErrorView,
        >(ConfigFileErrorView::Read),
        toml_read(content) matches Some(doc) ==> {
            &&& with_entry(doc, section, key, value) matches Err(e) ==> file_with_entry(
                content,
                section,
                key,
                value,
            ) == Err::<Seq<char>, ConfigFileErrorView>(e)
            &&& with_entry(doc, section, key, value) matches Ok(changed) ==> {
                &&& toml_written(changed) matches Some(text) ==> file_with_entry(
                    content,
                    section,
                    key,
                    value,
                ) == Ok::<Seq<char>, ConfigFileErrorView>(text)
                &&& toml_written(changed) is None ==> file_with_entry(content, section, key, value)
                    == Err::<Seq<char>, ConfigFileErrorView>(ConfigFileErrorView::Write)
            }
            &&& toml_written(without_entry(doc, section, key)) matches Some(text)
                ==> file_without_entry(content, section, key) == Ok::<
                Seq<char>,
                ConfigFileErrorView,
            >(text)
            &&& toml_written(without_entry(doc, section, key)) is None ==> file_without_entry(
                content,
                section,
                key,
            ) == Err::<Seq<char>, ConfigFileErrorView>(ConfigFileErrorView::Write)
        },
{
}

/// A result is the text or the reason that was to come out exactly where it is that
/// text, or has that reason.
pub proof fn law_text_results(
    r: Result<String, ConfigFileError>,
    text: Seq<char>,
    reason: ConfigFileErrorView,
)
    ensures
        text_result(r, Ok::<Seq<char>, ConfigFileErrorView>(text)) <==> (r matches Ok(t) && t@
            == text),
        text_result(r, Err::<Seq<char>, ConfigFileErrorView>(reason)) <==> (r matches Err(e) && e@
            == reason),
{
}

/// A reason stands for what it carries, and is told in these words; for what the
/// TOML library says itself there are none.
pub proof fn law_reasons(e: ConfigFileError)
    ensures
        e is Read <==> e@ is Read,
        e is NoServer <==> e@ is NoServer,
        e is InvalidServer <==> e@ is InvalidServer,
        e is Write <==> e@ is Write,
        e matches ConfigFileError::InvalidSection(name) ==> e@
            == ConfigFileErrorView::InvalidSection(name@),
        e@.message() is None <==> e is Read || e is Write,
        e is NoServer ==> e@.message() == Some("No [server] section in config"@),
        e is InvalidServer ==> e@.message() == Some("Invalid server section"@),
        e matches ConfigFileError::InvalidSection(name) ==> e@.message() == Some(
            "Invalid "@ + name@ + " section"@,
        ),
{
}

/// What is kept of a service of the server is read back from the file: under the
/// name of the service, its own type, its address and its token. `kept` is what
/// comes of keeping the service.
pub proof fn law_kept_service_is_read_back(
    content: Seq<char>,
    server: Map<Seq<char>, Toml>,
    svc: ServerServiceView,
    kept: Result<String, ConfigFileError>,
)
    requires
        toml_read(content) matches Some(doc) && writable_document(doc) && has_server(doc, server),
        server.contains_key("services"@) ==> server["services"@] is Table,
        ordinary_key(svc.name),
        keeps_service(kept, content, svc),
    ensures
        kept matches Ok(text) && toml_read(text@) matches Some(changed) && (section_entries(
            changed,
            "services"@,
        ) matches Some(services) && services.contains_key(svc.name) && says_of_service(
            services[svc.name],
            svc.service_type,
            server_texts(svc),
        )),
{
    let doc = toml_read(content)->Some_0;
    lemma_section_names();
    law_kept_service(svc);
    law_service_is_writable(svc);
    law_entry_can_be_kept(doc->Table_0, server, "services"@, svc.name, service_toml(svc));
    law_kept_entry_is_read_back(content, "services"@, svc.name, service_toml(svc), kept);
}

/// What is kept of a client configuration is read back from the file: under its
/// token, each service under its own name, with its own type and addresses. `kept`
/// is what comes of keeping the configuration.
pub proof fn law_kept_client_config_is_read_back(
    content: Seq<char>,
    server: Map<Seq<char>, Toml>,
    token: Seq<char>,
    config: StoredClientView,
    kept: Result<String, ConfigFileError>,
    name: Seq<char>,
)
    requires
        toml_read(content) matches Some(doc) && writable_document(doc) && has_server(doc, server),
        server.contains_key("client_configs"@) ==> server["client_configs"@] is Table,
        ordinary_key(token),
        forall|k: Seq<char>| #[trigger] config.services.contains_key(k) ==> ordinary_key(k),
        config.services.contains_key(name),
        keeps_client_config(kept, content, token, config),
    ensures
        kept matches Ok(text) && toml_read(text@) matches Some(changed) && (section_entries(
            changed,
            "client_configs"@,
        ) matches Some(configs) && configs.contains_key(token) && (configs[token] matches
            Toml::Table(entries) && entries.contains_key("services"@) && (entries["services"@]
            matches Toml::Table(services) && services.contains_key(name) && says_of_service(
            services[name],
            config.services[name].service_type,
            client_texts(config.services[name]),
        )))),
{
    let doc = toml_read(content)->Some_0;
    lemma_section_names();
    law_kept_client_config(config, name);
    law_client_config_is_writable(config);
    law_entry_can_be_kept(
        doc->Table_0,
        server,
        "client_configs"@,
        token,
        client_config_toml(config),
    );
    law_kept_entry_is_read_back(
        content,
        "client_configs"@,
        token,
        client_config_toml(config),
        kept,
    );
    assert(client_config_toml(config)->Table_0.dom().contains("services"@));
}

proof fn lemma_section_names()
    ensures
        ordinary_key("services"@),
        ordinary_key("client_configs"@),
{
    reveal_strlit("$__toml_private_datetime");
    reveal_strlit("services");
    reveal_strlit("client_configs");
    assert("$__toml_private_datetime"@.len() == 24);
}

/// What a file cannot keep it says why: that it is no document, that it has no
/// section `server`, or that this section or the one for services or for client
/// configurations is no table. `kept` is what comes of keeping a service, and
/// `stored` what comes of keeping a client configuration.
pub proof fn law_why_nothing_is_kept(
    content: Seq<char>,
    server: Map<Seq<char>, Toml>,
    svc: ServerServiceView,
    token: Seq<char>,
    config: StoredClientView,
    kept: Result<String, ConfigFileError>,
    stored: Result<String, ConfigFileError>,
)
    requires
        keeps_service(kept, content, svc),
        keeps_client_config(stored, content, token, config),
    ensures
        toml_read(content) is None ==> (kept matches Err(e) && e is Read) && (stored matches Err(e)
            && e is Read),
        toml_read(content) matches Some(Toml::Table(top)) ==> {
            &&& !top.contains_key("server"@) ==> (kept matches Err(e) && e is NoServer) && (
            stored matches Err(e) && e is NoServer)
            &&& top.contains_key("server"@) && !(top["server"@] is Table) ==> (kept matches Err(e)
                && e is InvalidServer) && (stored matches Err(e) && e is InvalidServer)
            &&& has_server(Toml::Table(top), server) ==> {
                &&& server.contains_key("services"@) && !(server["services"@] is Table) ==> (
                kept matches Err(ConfigFileError::InvalidSection(name)) && name@ == "services"@)
                &&& server.contains_key("client_configs"@) && !(server["client_configs"@] is Table)
                    ==> (stored matches Err(ConfigFileError::InvalidSection(name)) && name@
                    == "client_configs"@)
            }
        },
{
}

/// A service, or a client configuration, that was taken out of a file is gone from
/// it, and the other ones are read back as they were. `dropped` is what comes of
/// taking the service out, and `deleted` what comes of taking the configuration out.
pub proof fn law_dropped_entries_are_gone(
    content: Seq<char>,
    server: Map<Seq<char>, Toml>,
    services: Map<Seq<char>, Toml>,
    configs: Map<Seq<char>, Toml>,
    name: Seq<char>,
    token: Seq<char>,
    dropped: Result<String, ConfigFileError>,
    deleted: Result<String, ConfigFileError>,
)
    requires
        toml_read(content) matches Some(doc) && writable_document(doc) && has_server(doc, server),
        server.contains_key("services"@) && server["services"@] == Toml::Table(services),
        server.contains_key("client_configs"@) && server["client_configs"@] == Toml::Table(configs),
        drops_service(dropped, content, name),
        drops_client_config(deleted, content, token),
    ensures
        dropped matches Ok(text) && toml_read(text@) matches Some(changed) && section_entries(
            changed,
            "services"@,
        ) == Some(services.remove(name)) && section_entries(changed, "client_configs"@) == Some(
            configs,
        ),
        deleted matches Ok(text) && toml_read(text@) matches Some(changed) && section_entries(
            changed,
            "client_configs"@,
        ) == Some(configs.remove(token)) && section_entries(changed, "services"@) == Some(services),
{
    let doc = toml_read(content)->Some_0;
    reveal_strlit("services");
    reveal_strlit("client_configs");
    assert("services"@.len() != "client_configs"@.len());
    law_document_stays_writable(doc, "services"@, name, doc);
    law_document_stays_writable(doc, "client_configs"@, token, doc);
    law_removed_entry_is_gone(doc, "services"@, name, "client_configs"@);
    law_removed_entry_is_gone(doc, "client_configs"@, token, "services"@);
}

}
