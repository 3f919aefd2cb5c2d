//! What becomes of the text of the configuration file when a service or a
//! client configuration is kept in it or taken out of it.

use crate::config::{
    opt_view, type_text, ClientServiceConfig, ClientServiceView, ServerServiceConfig,
    ServerServiceView, StoredClientConfig, StoredClientView,
};
use crate::name_map::listed_map;
use crate::text::concat3;
use toml::Value;
use vstd::prelude::*;
use vstd::string::*;

verus! {

/// A TOML value.
#[verifier::external_type_specification]
#[verifier::external_body]
pub struct ExValue(Value);

/// A TOML table.
#[verifier::external_type_specification]
#[verifier::external_body]
#[verifier::reject_recursive_types(K)]
#[verifier::reject_recursive_types(V)]
pub struct ExTable<K, V>(toml::map::Map<K, V>);

/// Why a text is no TOML document.
#[verifier::external_type_specification]
#[verifier::external_body]
pub struct ExReadError(toml::de::Error);

/// Why a value cannot be written as a TOML document.
#[verifier::external_type_specification]
#[verifier::external_body]
pub struct ExWriteError(toml::ser::Error);

/// A date, a time of day, or both, with the offset of the place where there is
/// one: none of hours and minutes stands for `Z`.
pub struct DateParts {
    pub date: Option<(u16, u8, u8)>,
    pub time: Option<(u8, u8, u8, u32)>,
    pub offset: Option<Option<(i8, u8)>>,
}

/// What a TOML value holds, as far as it is looked into here: a text, an integer,
/// a truth value, a date, an array, a table, or another value that is carried
/// along as it is.
#[verifier::ext_equal]
pub enum Toml {
    Text(Seq<char>),
    Integer(i64),
    Boolean(bool),
    Date(DateParts),
    Array(Seq<Toml>),
    Table(Map<Seq<char>, Toml>),
    Other(Value),
}

/// Whether the parts of a date are in their ranges and belong together.
pub open spec fn proper_date(d: DateParts) -> bool {
    &&& d.date is Some || d.time is Some
    &&& d.date matches Some((year, month, day)) ==> year <= 9999 && 1 <= month <= 12 && 1 <= day
        <= 31
    &&& d.time matches Some((hour, minute, second, nanosecond)) ==> hour <= 24 && minute <= 59
        && second <= 59 && nanosecond <= 999_999_999
    &&& d.offset is Some ==> d.date is Some && d.time is Some
    &&& d.offset matches Some(Some((hours, minutes))) ==> -99 <= hours <= 99 && minutes <= 99
}

/// Whether a value is a table, or an array with a table somewhere in it.
pub open spec fn holds_table(value: Toml) -> bool
    decreases value,
{
    match value {
        Toml::Table(_) => true,
        Toml::Array(items) => exists|i: int|
            0 <= i < items.len() && holds_table(#[trigger] items[i]),
        _ => false,
    }
}

/// Whether a key is another than the one by which the TOML library marks a date.
pub open spec fn ordinary_key(key: Seq<char>) -> bool {
    key != "$__toml_private_datetime"@
}

/// Whether a value can be written so that it is read back: it has ordinary keys
/// and proper dates throughout, and each array in it has tables alone or none at
/// any depth.
pub open spec fn writable(value: Toml) -> bool
    decreases value,
{
    match value {
        Toml::Text(_) => true,
        Toml::Integer(_) => true,
        Toml::Boolean(_) => true,
        Toml::Date(d) => proper_date(d),
        Toml::Array(items) => {
            &&& (forall|i: int| 0 <= i < items.len() ==> (#[trigger] items[i]) is Table) || (forall|
                i: int,
            |
                0 <= i < items.len() ==> !holds_table(#[trigger] items[i]))
            &&& forall|i: int| 0 <= i < items.len() ==> writable(#[trigger] items[i])
        },
        Toml::Table(entries) => forall|k: Seq<char>| #[trigger]
            entries.contains_key(k) ==> ordinary_key(k) && writable(entries[k]),
        Toml::Other(_) => false,
    }
}

/// Whether a value is a document that can be written so that it is read back: a
/// table that can be.
pub open spec fn writable_document(value: Toml) -> bool {
    value is Table && writable(value)
}

/// What a TOML value holds.
pub uninterp spec fn toml_value(value: Value) -> Toml;

/// What a TOML table holds.
pub uninterp spec fn toml_table(table: toml::map::Map<String, Value>) -> Map<Seq<char>, Toml>;

/// The contents of an empty table.
pub open spec fn no_entries() -> Map<Seq<char>, Toml> {
    Map::empty()
}

/// What `toml::from_str` reads out of a text; nothing where the text is no TOML
/// document.
pub uninterp spec fn toml_read(text: Seq<char>) -> Option<Toml>;

/// What `toml::to_string_pretty` writes for a value; nothing where the value
/// cannot stand as a document.
pub uninterp spec fn toml_written(value: Toml) -> Option<Seq<char>>;

/// `toml::from_str` into a `toml::Value`. What is read depends on the text alone
/// and is named.
#[verifier::external_body]
fn read_document(text: &str) -> (r: Result<Value, toml::de::Error>)
    ensures
        match r {
            Ok(value) => toml_read(text@) == Some(toml_value(value)),
            Err(_) => toml_read(text@) is None,
        },
{
    toml::from_str(text)
}

/// `toml::to_string_pretty` of a `toml::Value`. What is written depends on what
/// the value holds alone and is named. A document of texts, integers, truth
/// values, proper dates, tables with ordinary keys and arrays that have tables
/// alone or none is always written, and `toml::from_str` reads it back from what
/// was written. Nothing of the kind is said of other documents. There an array of
/// a table and a number, and a table whose only key is the library's own mark for
/// dates, are read back as something else or not at all; of floating point nothing
/// is said.
#[verifier::external_body]
fn write_document(value: &Value) -> (r: Result<String, toml::ser::Error>)
    ensures
        match r {
            Ok(text) => {
                &&& toml_written(toml_value(*value)) == Some(text@)
                &&& writable_document(toml_value(*value)) ==> toml_read(text@) == Some(
                    toml_value(*value),
                )
            },
            Err(_) => toml_written(toml_value(*value)) is None && !writable_document(
                toml_value(*value),
            ),
        },
{
    toml::to_string_pretty(value)
}

/// `Value::get_mut` with a key: access to the value of that key, where the value
/// is a table and has the key.
#[verifier::external_body]
fn value_get_mut<'a>(value: &'a mut Value, key: &str) -> (r: Option<&'a mut Value>)
    ensures
        match r {
            Some(entry) => {
                &&& toml_value(*old(value)) matches Toml::Table(m)
                &&& m.contains_key(key@)
                &&& m[key@] == toml_value(*entry)
                &&& toml_value(*final(value)) == Toml::Table(
                    m.insert(key@, toml_value(*final(entry))),
                )
            },
            None => {
                &&& *final(value) == *old(value)
                &&& toml_value(*old(value)) matches Toml::Table(m) ==> !m.contains_key(key@)
            },
        },
{
    value.get_mut(key)
}

/// `Value::as_table_mut`: access to the table, where the value is one.
#[verifier::external_body]
fn value_as_table_mut<'a>(value: &'a mut Value) -> (r: Option<
    &'a mut toml::map::Map<String, Value>,
>)
    ensures
        match r {
            Some(table) => {
                &&& toml_value(*old(value)) == Toml::Table(toml_table(*table))
                &&& toml_value(*final(value)) == Toml::Table(toml_table(*final(table)))
            },
            None => *final(value) == *old(value) && !(toml_value(*old(value)) is Table),
        },
{
    value.as_table_mut()
}

/// `Map::get_mut`: access to the value of a key, where the table has it.
#[verifier::external_body]
fn table_get_mut<'a>(table: &'a mut toml::map::Map<String, Value>, key: &str) -> (r: Option<
    &'a mut Value,
>)
    ensures
        match r {
            Some(entry) => {
                &&& toml_table(*old(table)).contains_key(key@)
                &&& toml_table(*old(table))[key@] == toml_value(*entry)
                &&& toml_table(*final(table)) == toml_table(*old(table)).insert(
                    key@,
                    toml_value(*final(entry)),
                )
            },
            None => *final(table) == *old(table) && !toml_table(*old(table)).contains_key(key@),
        },
{
    table.get_mut(key)
}

/// `Map::entry` and `Entry::or_insert`: access to the value of a key, which is
/// the given one where the table did not have the key.
#[verifier::external_body]
fn table_entry_or_insert<'a>(
    table: &'a mut toml::map::Map<String, Value>,
    key: &str,
    default: Value,
) -> (r: &'a mut Value)
    ensures
        toml_value(*r) == (if toml_table(*old(table)).contains_key(key@) {
            toml_table(*old(table))[key@]
        } else {
            toml_value(default)
        }),
        toml_table(*final(table)) == toml_table(*old(table)).insert(key@, toml_value(*final(r))),
{
    table.entry(key).or_insert(default)
}

/// `Map::new`: a table without entries.
#[verifier::external_body]
fn new_table() -> (r: toml::map::Map<String, Value>)
    ensures
        toml_table(r) == no_entries(),
{
    toml::map::Map::new()
}

/// `Map::insert`: the key has the value, whatever it had before.
#[verifier::external_body]
fn table_insert(table: &mut toml::map::Map<String, Value>, key: String, value: Value)
    ensures
        toml_table(*final(table)) == toml_table(*old(table)).insert(key@, toml_value(value)),
{
    table.insert(key, value);
}

/// `Map::remove`: the table no longer has the key.
#[verifier::external_body]
fn table_remove(table: &mut toml::map::Map<String, Value>, key: &str)
    ensures
        toml_table(*final(table)) == toml_table(*old(table)).remove(key@),
{
    table.remove(key);
}

/// `Value::Table`: a table as a value.
#[verifier::external_body]
fn table_value(table: toml::map::Map<String, Value>) -> (r: Value)
    ensures
        toml_value(r) == Toml::Table(toml_table(table)),
{
    Value::Table(table)
}

/// `Value::String`: a text as a value.
#[verifier::external_body]
fn text_value(text: String) -> (r: Value)
    ensures
        toml_value(r) == Toml::Text(text@),
{
    Value::String(text)
}

/// Why the configuration file cannot be changed.
pub enum ConfigFileError {
    /// The text is no TOML document.
    Read(toml::de::Error),
    /// There is no section `server`.
    NoServer,
    /// The section `server` is no table.
    InvalidServer,
    /// The section of this name below `server` is no table.
    InvalidSection(String),
    /// The changed document cannot be written.
    Write(toml::ser::Error),
}

/// What a reason not to change the configuration file says.
#[verifier::ext_equal]
pub enum ConfigFileErrorView {
    Read,
    NoServer,
    InvalidServer,
    InvalidSection(Seq<char>),
    Write,
}

impl View for ConfigFileError {
    type V = ConfigFileErrorView;

    open spec fn view(&self) -> ConfigFileErrorView {
        match *self {
            ConfigFileError::Read(_) => ConfigFileErrorView::Read,
            ConfigFileError::NoServer => ConfigFileErrorView::NoServer,
            ConfigFileError::InvalidServer => ConfigFileErrorView::InvalidServer,
            ConfigFileError::InvalidSection(name) => ConfigFileErrorView::InvalidSection(name@),
            ConfigFileError::Write(_) => ConfigFileErrorView::Write,
        }
    }
}

impl ConfigFileErrorView {
    /// What is said to whoever wanted the change; nothing where the TOML library
    /// has its own words for it.
    pub open spec fn message(self) -> Option<Seq<char>> {
        match self {
            ConfigFileErrorView::Read => None,
            ConfigFileErrorView::NoServer => Some("No [server] section in config"@),
            ConfigFileErrorView::InvalidServer => Some("Invalid server section"@),
            ConfigFileErrorView::InvalidSection(name) => Some("Invalid "@ + name + " section"@),
            ConfigFileErrorView::Write => None,
        }
    }
}

impl ConfigFileError {
    /// What is said to whoever wanted the change; nothing where the TOML library
    /// has its own words for it.
    pub fn message(&self) -> (r: Option<String>)
        ensures
            opt_view(r) == self@.message(),
    {
        match self {
            ConfigFileError::Read(_) => None,
            ConfigFileError::NoServer => Some("No [server] section in config".to_owned()),
            ConfigFileError::InvalidServer => Some("Invalid server section".to_owned()),
            ConfigFileError::InvalidSection(name) => Some(
                concat3("Invalid ", name.as_str(), " section"),
            ),
            ConfigFileError::Write(_) => None,
        }
    }
}

/// The document once an entry stands in a section below `server`. The section is
/// made where it is missing; `server` is not.
pub open spec fn with_entry(doc: Toml, section: Seq<char>, key: Seq<char>, value: Toml) -> Result<
    Toml,
    ConfigFileErrorView,
> {
    match doc {
        Toml::Table(top) => if top.contains_key("server"@) {
            match top["server"@] {
                Toml::Table(server) => {
                    let old_section = if server.contains_key(section) {
                        server[section]
                    } else {
                        Toml::Table(no_entries())
                    };
                    match old_section {
                        Toml::Table(entries) => Ok(
                            Toml::Table(
                                top.insert(
                                    "server"@,
                                    Toml::Table(
                                        server.insert(
                                            section,
                                            Toml::Table(entries.insert(key, value)),
                                        ),
                                    ),
                                ),
                            ),
                        ),
                        _ => Err(ConfigFileErrorView::InvalidSection(section)),
                    }
                },
                _ => Err(ConfigFileErrorView::InvalidServer),
            }
        } else {
            Err(ConfigFileErrorView::NoServer)
        },
        _ => Err(ConfigFileErrorView::NoServer),
    }
}

/// The entries of a section below `server`, where the document has that section
/// as a table.
pub open spec fn section_entries(doc: Toml, section: Seq<char>) -> Option<Map<Seq<char>, Toml>> {
    match doc {
        Toml::Table(top) => if top.contains_key("server"@) {
            match top["server"@] {
                Toml::Table(server) => if server.contains_key(section) {
                    match server[section] {
                        Toml::Table(entries) => Some(entries),
                        _ => None,
                    }
                } else {
                    None
                },
                _ => None,
            }
        } else {
            None
        },
        _ => None,
    }
}

/// The document without an entry of a section below `server`; the same document
/// where it has no such section.
pub open spec fn without_entry(doc: Toml, section: Seq<char>, key: Seq<char>) -> Toml {
    match section_entries(doc, section) {
        None => doc,
        Some(entries) => {
            let top = doc->Table_0;
            let server = top["server"@]->Table_0;
            Toml::Table(
                top.insert(
                    "server"@,
                    Toml::Table(server.insert(section, Toml::Table(entries.remove(key)))),
                ),
            )
        },
    }
}

/// The text of a document that was changed, or why there is none.
pub open spec fn rewritten(changed: Result<Toml, ConfigFileErrorView>) -> Result<
    Seq<char>,
    ConfigFileErrorView,
> {
    match changed {
        Err(e) => Err(e),
        Ok(doc) => match toml_written(doc) {
            Some(text) => Ok(text),
            None => Err(ConfigFileErrorView::Write),
        },
    }
}

/// The text of a file in which an entry stands in a section below `server`.
pub open spec fn file_with_entry(
    content: Seq<char>,
    section: Seq<char>,
    key: Seq<char>,
    value: Toml,
) -> Result<Seq<char>, ConfigFileErrorView> {
    match toml_read(content) {
        None => Err(ConfigFileErrorView::Read),
        Some(doc) => rewritten(with_entry(doc, section, key, value)),
    }
}

/// The text of a file without an entry of a section below `server`.
pub open spec fn file_without_entry(
    content: Seq<char>,
    section: Seq<char>,
    key: Seq<char>,
) -> Result<Seq<char>, ConfigFileErrorView> {
    match toml_read(content) {
        None => Err(ConfigFileErrorView::Read),
        Some(doc) => rewritten(Ok(without_entry(doc, section, key))),
    }
}

/// Whether a result is the text, or the reason, that was to come out.
pub open spec fn text_result(
    r: Result<String, ConfigFileError>,
    expected: Result<Seq<char>, ConfigFileErrorView>,
) -> bool {
    match r {
        Ok(text) => expected == Ok::<Seq<char>, ConfigFileErrorView>(text@),
        Err(e) => expected == Err::<Seq<char>, ConfigFileErrorView>(e@),
    }
}

/// Whether a result is the text of that document: where the document can be
/// written so that it is read back, there is a text, and it is read back from it.
pub open spec fn holds_document(r: Result<String, ConfigFileError>, doc: Toml) -> bool {
    writable_document(doc) ==> (r matches Ok(text) && toml_read(text@) == Some(doc))
}

/// Whether a result is the text of a file in which an entry stands in a section.
pub open spec fn keeps_entry(
    r: Result<String, ConfigFileError>,
    content: Seq<char>,
    section: Seq<char>,
    key: Seq<char>,
    value: Toml,
) -> bool {
    toml_read(content) matches Some(doc) ==> (with_entry(doc, section, key, value) matches Ok(changed)
        ==> holds_document(r, changed))
}

/// Whether a result is the text of a file without an entry of a section.
pub open spec fn drops_entry(
    r: Result<String, ConfigFileError>,
    content: Seq<char>,
    section: Seq<char>,
    key: Seq<char>,
) -> bool {
    toml_read(content) matches Some(doc) ==> holds_document(r, without_entry(doc, section, key))
}

/// A document stays as it is where `server`, or a section below it, is put in its
/// own place.
proof fn lemma_same_entries(doc: Toml, section: Seq<char>)
    ensures
        ({
            let top = doc->Table_0;
            let server = top["server"@]->Table_0;
            &&& top.contains_key("server"@) ==> top.insert("server"@, top["server"@]) == top
            &&& server.contains_key(section) ==> server.insert(section, server[section]) == server
        }),
{
    let top = doc->Table_0;
    let server = top["server"@]->Table_0;
    if top.contains_key("server"@) {
        assert(top.insert("server"@, top["server"@]) =~= top);
    }
    if server.contains_key(section) {
        assert(server.insert(section, server[section]) =~= server);
    }
}

/// Put an entry into a section below `server`.
pub fn put_entry_in_document(doc: &mut Value, section: &str, key: String, value: Value) -> (r: Result<
    (),
    ConfigFileError,
>)
    ensures
        match with_entry(toml_value(*old(doc)), section@, key@, toml_value(value)) {
            Ok(changed) => r is Ok && toml_value(*final(doc)) == changed,
            Err(e) => (r matches Err(f) && f@ == e) && toml_value(*final(doc)) == toml_value(
                *old(doc),
            ),
        },
{
    proof {
        lemma_same_entries(toml_value(*doc), section@);
    }
    match value_get_mut(doc, "server") {
        None => Err(ConfigFileError::NoServer),
        Some(server) => match value_as_table_mut(server) {
            None => Err(ConfigFileError::InvalidServer),
            Some(server_table) => {
                let default = table_value(new_table());
                let entry = table_entry_or_insert(server_table, section, default);
                match value_as_table_mut(entry) {
                    None => Err(ConfigFileError::InvalidSection(section.to_owned())),
                    Some(entries) => {
                        table_insert(entries, key, value);
                        Ok(())
                    },
                }
            },
        },
    }
}

/// Take an entry out of a section below `server`.
pub fn remove_entry_from_document(doc: &mut Value, section: &str, key: &str)
    ensures
        toml_value(*final(doc)) == without_entry(toml_value(*old(doc)), section@, key@),
{
    proof {
        lemma_same_entries(toml_value(*doc), section@);
    }
    if let Some(server) = value_get_mut(doc, "server") {
        if let Some(server_table) = value_as_table_mut(server) {
            if let Some(entry) = table_get_mut(server_table, section) {
                if let Some(entries) = value_as_table_mut(entry) {
                    table_remove(entries, key);
                }
            }
        }
    }
}

/// What the configuration file says of a service of the server.
pub open spec fn service_toml(svc: ServerServiceView) -> Toml {
    let required = no_entries().insert("type"@, Toml::Text(type_text(svc.service_type))).insert(
        "bind_addr"@,
        Toml::Text(svc.bind_addr),
    );
    Toml::Table(
        match svc.token {
            Some(token) => required.insert("token"@, Toml::Text(token)),
            None => required,
        },
    )
}

fn service_value(svc: &ServerServiceConfig) -> (r: Value)
    ensures
        toml_value(r) == service_toml(svc@),
{
    let mut table = new_table();
    table_insert(&mut table, "type".to_owned(), text_value(svc.service_type.text()));
    table_insert(&mut table, "bind_addr".to_owned(), text_value(svc.bind_addr.clone()));
    if let Some(token) = &svc.token {
        table_insert(&mut table, "token".to_owned(), text_value(token.as_str().to_owned()));
    }
    table_value(table)
}

/// What the configuration file says of a service of a client.
pub open spec fn client_service_toml(svc: ClientServiceView) -> Toml {
    let required = no_entries().insert("type"@, Toml::Text(type_text(svc.service_type))).insert(
        "local_addr"@,
        Toml::Text(svc.local_addr),
    );
    Toml::Table(
        match svc.bind_addr {
            Some(bind_addr) => required.insert("bind_addr"@, Toml::Text(bind_addr)),
            None => required,
        },
    )
}

fn client_service_value(svc: &ClientServiceConfig) -> (r: Value)
    ensures
        toml_value(r) == client_service_toml(svc@),
{
    let mut table = new_table();
    table_insert(&mut table, "type".to_owned(), text_value(svc.service_type.text()));
    table_insert(&mut table, "local_addr".to_owned(), text_value(svc.local_addr.clone()));
    if let Some(bind_addr) = &svc.bind_addr {
        table_insert(&mut table, "bind_addr".to_owned(), text_value(bind_addr.clone()));
    }
    table_value(table)
}

/// What the configuration file says of the services of a client.
pub open spec fn client_services_toml(services: Map<Seq<char>, ClientServiceView>) -> Map<
    Seq<char>,
    Toml,
> {
    services.map_values(|svc: ClientServiceView| client_service_toml(svc))
}

/// What the configuration file says of a stored client configuration.
pub open spec fn client_config_toml(config: StoredClientView) -> Toml {
    Toml::Table(
        no_entries().insert("services"@, Toml::Table(client_services_toml(config.services))),
    )
}

fn client_config_value(config: &StoredClientConfig) -> (r: Value)
    ensures
        toml_value(r) == client_config_toml(config@),
{
    let ghost entries = config.services.listing();
    let n = config.services.len();
    let mut services = new_table();
    let mut i: usize = 0;
    proof {
        assert(entries.take(0) =~= Seq::empty());
        assert(toml_table(services) =~= client_services_toml(listed_map(entries.take(0))));
    }
    while i < n
        invariant
            i <= n,
            n == entries.len(),
            entries == config.services.listing(),
            toml_table(services) == client_services_toml(listed_map(entries.take(i as int))),
        decreases n - i,
    {
        let name = config.services.name_at(i);
        let svc = config.services.value_at(i);
        let ghost before = listed_map(entries.take(i as int));
        table_insert(&mut services, name.clone(), client_service_value(svc));
        proof {
            assert(entries.take(i + 1).drop_last() =~= entries.take(i as int));
            assert(entries.take(i + 1).last() == entries[i as int]);
            assert(toml_table(services) =~= client_services_toml(before.insert(name@, svc@)));
        }
        i = i + 1;
    }
    assert(entries.take(i as int) =~= entries);
    let mut table = new_table();
    table_insert(&mut table, "services".to_owned(), table_value(services));
    table_value(table)
}

fn with_entry_in_text(content: &str, section: &str, key: &str, value: Value) -> (r: Result<
    String,
    ConfigFileError,
>)
    ensures
        text_result(r, file_with_entry(content@, section@, key@, toml_value(value))),
        keeps_entry(r, content@, section@, key@, toml_value(value)),
{
    let mut doc = match read_document(content) {
        Ok(doc) => doc,
        Err(e) => {
            return Err(ConfigFileError::Read(e));
        },
    };
    match put_entry_in_document(&mut doc, section, key.to_owned(), value) {
        Ok(_) => {},
        Err(e) => {
            return Err(e);
        },
    }
    match write_document(&doc) {
        Ok(text) => Ok(text),
        Err(e) => Err(ConfigFileError::Write(e)),
    }
}

fn without_entry_in_text(content: &str, section: &str, key: &str) -> (r: Result<
    String,
    ConfigFileError,
>)
    ensures
        text_result(r, file_without_entry(content@, section@, key@)),
        drops_entry(r, content@, section@, key@),
{
    let mut doc = match read_document(content) {
        Ok(doc) => doc,
        Err(e) => {
            return Err(ConfigFileError::Read(e));
        },
    };
    remove_entry_from_document(&mut doc, section, key);
    match write_document(&doc) {
        Ok(text) => Ok(text),
        Err(e) => Err(ConfigFileError::Write(e)),
    }
}

/// Whether a result is the text of the configuration file in which a service of the
/// server is kept.
pub open spec fn keeps_service(
    r: Result<String, ConfigFileError>,
    content: Seq<char>,
    svc: ServerServiceView,
) -> bool {
    &&& text_result(r, file_with_entry(content, "services"@, svc.name, service_toml(svc)))
    &&& keeps_entry(r, content, "services"@, svc.name, service_toml(svc))
}

/// Whether a result is the text of the configuration file without a service of the
/// server.
pub open spec fn drops_service(
    r: Result<String, ConfigFileError>,
    content: Seq<char>,
    name: Seq<char>,
) -> bool {
    &&& text_result(r, file_without_entry(content, "services"@, name))
    &&& drops_entry(r, content, "services"@, name)
}

/// Whether a result is the text of the configuration file in which the client
/// configuration of a token is kept.
pub open spec fn keeps_client_config(
    r: Result<String, ConfigFileError>,
    content: Seq<char>,
    token: Seq<char>,
    config: StoredClientView,
) -> bool {
    &&& text_result(
        r,
        file_with_entry(content, "client_configs"@, token, client_config_toml(config)),
    )
    &&& keeps_entry(r, content, "client_configs"@, token, client_config_toml(config))
}

/// Whether a result is the text of the configuration file without the client
/// configuration of a token.
pub open spec fn drops_client_config(
    r: Result<String, ConfigFileError>,
    content: Seq<char>,
    token: Seq<char>,
) -> bool {
    &&& text_result(r, file_without_entry(content, "client_configs"@, token))
    &&& drops_entry(r, content, "client_configs"@, token)
}

/// The text of the configuration file once a client configuration is kept in it.
pub fn persist_client_config_to_file(content: &str, token: &str, config: &StoredClientConfig) -> (r:
    Result<String, ConfigFileError>)
    ensures
        text_result(
            r,
            file_with_entry(content@, "client_configs"@, token@, client_config_toml(config@)),
        ),
        keeps_entry(r, content@, "client_configs"@, token@, client_config_toml(config@)),
        keeps_client_config(r, content@, token@, config@),
{
    with_entry_in_text(content, "client_configs", token, client_config_value(config))
}

/// The text of the configuration file without the client configuration of a
/// token.
pub fn remove_client_config_from_file(content: &str, token: &str) -> (r: Result<
    String,
    ConfigFileError,
>)
    ensures
        text_result(r, file_without_entry(content@, "client_configs"@, token@)),
        drops_entry(r, content@, "client_configs"@, token@),
        drops_client_config(r, content@, token@),
{
    without_entry_in_text(content, "client_configs", token)
}

/// The text of the configuration file once a service of the server is kept in
/// it.
pub fn persist_service_to_config(content: &str, service: &ServerServiceConfig) -> (r: Result<
    String,
    ConfigFileError,
>)
    ensures
        text_result(
            r,
            file_with_entry(content@, "services"@, service@.name, service_toml(service@)),
        ),
        keeps_entry(r, content@, "services"@, service@.name, service_toml(service@)),
        keeps_service(r, content@, service@),
{
    with_entry_in_text(content, "services", service.name.as_str(), service_value(service))
}

/// The text of the configuration file without a service of the server.
pub fn remove_service_from_config(content: &str, service_name: &str) -> (r: Result<
    String,
    ConfigFileError,
>)
    ensures
        text_result(r, file_without_entry(content@, "services"@, service_name@)),
        drops_entry(r, content@, "services"@, service_name@),
        drops_service(r, content@, service_name@),
{
    without_entry_in_text(content, "services", service_name)
}

/// An entry that was put into a section is there, the other entries of the
/// section stay as they were, and all other sections stay as they were.
pub proof fn law_kept_entry_is_there(
    doc: Toml,
    section: Seq<char>,
    key: Seq<char>,
    value: Toml,
    other: Seq<char>,
)
    requires
        with_entry(doc, section, key, value) is Ok,
    ensures
        ({
            let changed = with_entry(doc, section, key, value)->Ok_0;
            &&& section_entries(changed, section) matches Some(entries)
            &&& entries.contains_key(key)
            &&& entries[key] == value
            &&& match section_entries(doc, section) {
                Some(before) => entries == before.insert(key, value),
                None => entries == no_entries().insert(key, value),
            }
            &&& other != section ==> section_entries(changed, other) == section_entries(
                doc,
                other,
            )
        }),
{
}

/// A document with a section `server` that is a table takes every entry, unless
/// the section that the entry belongs to is something else than a table.
pub proof fn law_entry_can_be_kept(
    top: Map<Seq<char>, Toml>,
    server: Map<Seq<char>, Toml>,
    section: Seq<char>,
    key: Seq<char>,
    value: Toml,
)
    requires
        top.contains_key("server"@),
        top["server"@] == Toml::Table(server),
        server.contains_key(section) ==> server[section] is Table,
    ensures
        with_entry(Toml::Table(top), section, key, value) is Ok,
{
}

/// An entry that was taken out is gone, the other entries of the section stay as
/// they were, and all other sections stay as they were.
pub proof fn law_removed_entry_is_gone(
    doc: Toml,
    section: Seq<char>,
    key: Seq<char>,
    other: Seq<char>,
)
    ensures
        match section_entries(doc, section) {
            Some(before) => section_entries(without_entry(doc, section, key), section) == Some(
                before.remove(key),
            ),
            None => without_entry(doc, section, key) == doc,
        },
        other != section ==> section_entries(without_entry(doc, section, key), other)
            == section_entries(doc, other),
{
}

/// Taking an entry out undoes putting it in: where the section was there and the
/// entry was not, the document is again as it was.
pub proof fn law_remove_undoes_keep(doc: Toml, section: Seq<char>, key: Seq<char>, value: Toml)
    requires
        section_entries(doc, section) matches Some(entries) && !entries.contains_key(key),
    ensures
        with_entry(doc, section, key, value) matches Ok(changed) && without_entry(
            changed,
            section,
            key,
        ) == doc,
{
    let top = doc->Table_0;
    let server = top["server"@]->Table_0;
    let entries = server[section]->Table_0;
    assert(entries.insert(key, value).remove(key) =~= entries);
    let changed = with_entry(doc, section, key, value)->Ok_0;
    let new_server = changed->Table_0["server"@]->Table_0;
    assert(new_server.insert(section, Toml::Table(entries)) =~= server);
    assert(changed->Table_0.insert("server"@, Toml::Table(server)) =~= top);
}

/// What was kept in a file is read back from it: `kept` is what comes of keeping
/// the entry. All else stays in the file as it was.
pub proof fn law_kept_entry_is_read_back(
    content: Seq<char>,
    section: Seq<char>,
    key: Seq<char>,
    value: Toml,
    kept: Result<String, ConfigFileError>,
)
    requires
        toml_read(content) matches Some(doc) && writable_document(doc) && with_entry(
            doc,
            section,
            key,
            value,
        ) is Ok,
        ordinary_key(section),
        ordinary_key(key),
        writable(value),
        keeps_entry(kept, content, section, key, value),
    ensures
        kept matches Ok(text) && toml_read(text@) matches Some(changed) && Ok::<
            Toml,
            ConfigFileErrorView,
        >(changed) == with_entry(toml_read(content)->Some_0, section, key, value) && (
        section_entries(changed, section) matches Some(entries) && entries.contains_key(key)
            && entries[key] == value),
{
    let doc = toml_read(content)->Some_0;
    law_document_stays_writable(doc, section, key, value);
    law_kept_entry_is_there(doc, section, key, value, section);
}

/// In a file that has the section and not the entry, taking the entry out again
/// undoes keeping it: `kept` is what comes of keeping the entry and `dropped` what
/// comes of taking it out of that. Taking it out once more changes nothing.
pub proof fn law_dropping_undoes_keeping_in_files(
    content: Seq<char>,
    section: Seq<char>,
    key: Seq<char>,
    value: Toml,
    kept: Result<String, ConfigFileError>,
    dropped: Result<String, ConfigFileError>,
    again: Result<String, ConfigFileError>,
)
    requires
        toml_read(content) matches Some(doc) && writable_document(doc) && (section_entries(
            doc,
            section,
        ) matches Some(entries) && !entries.contains_key(key)),
        ordinary_key(key),
        writable(value),
        keeps_entry(kept, content, section, key, value),
        kept matches Ok(text) ==> drops_entry(dropped, text@, section, key),
        dropped matches Ok(text) ==> drops_entry(again, text@, section, key),
    ensures
        kept is Ok,
        dropped matches Ok(text) && toml_read(text@) == toml_read(content),
        again matches Ok(text) && toml_read(text@) == toml_read(content),
{
    let doc = toml_read(content)->Some_0;
    law_document_stays_writable(doc, section, key, value);
    law_remove_undoes_keep(doc, section, key, value);
    law_removing_nothing_changes_nothing(doc, section, key);
}

/// Taking out an entry that is not there changes nothing.
pub proof fn law_removing_nothing_changes_nothing(doc: Toml, section: Seq<char>, key: Seq<char>)
    requires
        section_entries(doc, section) matches Some(entries) ==> !entries.contains_key(key),
    ensures
        without_entry(doc, section, key) == doc,
{
    if let Some(entries) = section_entries(doc, section) {
        let top = doc->Table_0;
        let server = top["server"@]->Table_0;
        assert(entries.remove(key) =~= entries);
        assert(server.insert(section, Toml::Table(entries)) =~= server);
        assert(top.insert("server"@, Toml::Table(server)) =~= top);
    }
}

/// A document that can be written so that it is read back stays one when an entry
/// that can be is put into a section under an ordinary key, and when an entry is
/// taken out.
pub proof fn law_document_stays_writable(
    doc: Toml,
    section: Seq<char>,
    key: Seq<char>,
    value: Toml,
)
    requires
        writable_document(doc),
    ensures
        ordinary_key(section) && ordinary_key(key) && writable(value) ==> (with_entry(
            doc,
            section,
            key,
            value,
        ) matches Ok(changed) ==> writable_document(changed)),
        section_entries(doc, section) is Some ==> ordinary_key(section),
        writable_document(without_entry(doc, section, key)),
{
    let top = doc->Table_0;
    if top.contains_key("server"@) && top["server"@] is Table {
        lemma_writable_entry(top, "server"@);
        let server = top["server"@]->Table_0;
        if server.contains_key(section) {
            lemma_writable_entry(server, section);
        }
        let entries = if server.contains_key(section) {
            server[section]->Table_0
        } else {
            no_entries()
        };
        if ordinary_key(section) && (server.contains_key(section) ==> server[section] is Table) {
            assert(writable(Toml::Table(entries)));
            if ordinary_key(key) && writable(value) {
                lemma_writable_with(entries, key, value);
                let kept = Toml::Table(entries.insert(key, value));
                lemma_writable_with(server, section, kept);
                lemma_writable_with(top, "server"@, Toml::Table(server.insert(section, kept)));
            }
            lemma_writable_table(entries);
            lemma_writable_table(entries.remove(key));
            let less = Toml::Table(entries.remove(key));
            lemma_writable_with(server, section, less);
            lemma_writable_with(top, "server"@, Toml::Table(server.insert(section, less)));
        }
    }
}

proof fn lemma_writable_table(entries: Map<Seq<char>, Toml>)
    ensures
        writable(Toml::Table(entries)) <==> forall|k: Seq<char>| #[trigger]
            entries.contains_key(k) ==> ordinary_key(k) && writable(entries[k]),
{
    let table = Toml::Table(entries);
    assert(table->Table_0 == entries);
}

proof fn lemma_writable_entry(entries: Map<Seq<char>, Toml>, key: Seq<char>)
    requires
        writable(Toml::Table(entries)),
        entries.contains_key(key),
    ensures
        writable(entries[key]),
        ordinary_key(key),
{
    lemma_writable_table(entries);
}

proof fn lemma_writable_with(entries: Map<Seq<char>, Toml>, key: Seq<char>, value: Toml)
    requires
        writable(Toml::Table(entries)),
        ordinary_key(key),
        writable(value),
    ensures
        writable(Toml::Table(entries.insert(key, value))),
{
    lemma_writable_table(entries);
    lemma_writable_table(entries.insert(key, value));
}

/// What is kept of a service of the server can be written so that it is read
/// back.
pub proof fn law_service_is_writable(svc: ServerServiceView)
    ensures
        writable(service_toml(svc)),
{
    lemma_fixed_keys();
    lemma_writable_table(service_toml(svc)->Table_0);
}

/// What is kept of a client configuration can be written so that it is read back
/// where its services have ordinary names.
pub proof fn law_client_config_is_writable(config: StoredClientView)
    requires
        forall|k: Seq<char>| #[trigger] config.services.contains_key(k) ==> ordinary_key(k),
    ensures
        writable(client_config_toml(config)),
{
    lemma_fixed_keys();
    let services = client_services_toml(config.services);
    assert forall|k: Seq<char>| #[trigger] services.contains_key(k) implies ordinary_key(k)
        && writable(services[k]) by {
        assert(config.services.contains_key(k));
        lemma_writable_table(client_service_toml(config.services[k])->Table_0);
    }
    lemma_writable_table(services);
    lemma_writable_table(client_config_toml(config)->Table_0);
}

proof fn lemma_fixed_keys()
    ensures
        ordinary_key("type"@),
        ordinary_key("bind_addr"@),
        ordinary_key("token"@),
        ordinary_key("local_addr"@),
        ordinary_key("services"@),
        ordinary_key("client_configs"@),
{
    reveal_strlit("$__toml_private_datetime");
    reveal_strlit("type");
    reveal_strlit("bind_addr");
    reveal_strlit("token");
    reveal_strlit("local_addr");
    reveal_strlit("services");
    reveal_strlit("client_configs");
    let mark = "$__toml_private_datetime"@;
    assert(mark.len() == 24);
}

}
