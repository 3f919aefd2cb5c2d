//! What the values of the configuration stand for, field by field.

use crate::config::{
    named_type, opt_view, type_text, unset_client, unset_server, ApiConfig, AutoRegisterConfig,
    ClientConfig, ClientServiceConfig, Config, ServerConfig, ServerServiceConfig, ServiceType,
    StoredClientConfig,
};
use crate::text::lower;
use vstd::prelude::*;

verus! {

/// An optional value stands for one exactly where there is one.
pub proof fn law_optional_values<T: View>(o: Option<T>)
    ensures
        opt_view(o) is Some <==> o is Some,
        o matches Some(t) ==> opt_view(o) == Some(t@),
{
}

/// A text names a service type exactly where its lower case is how that type is
/// written, and the two types are written differently.
pub proof fn law_service_types_are_told_apart(text: Seq<char>, t: ServiceType)
    ensures
        named_type(text) == Some(t) <==> lower(text) == type_text(t),
        type_text(ServiceType::Tcp) == "tcp"@,
        type_text(ServiceType::Udp) == "udp"@,
        type_text(ServiceType::Tcp) != type_text(ServiceType::Udp),
{
    reveal_strlit("tcp");
    reveal_strlit("udp");
    assert("tcp"@[0] != "udp"@[0]);
}

/// A service of the server stands for its fields.
pub proof fn law_server_service_fields(s: ServerServiceConfig)
    ensures
        s@.service_type == s.service_type,
        s@.name == s.name@,
        s@.bind_addr == s.bind_addr@,
        s@.token == opt_view(s.token),
        s@.nodelay == s.nodelay,
        s.service_type@ == s.service_type,
{
}

/// A service of a client stands for its fields.
pub proof fn law_client_service_fields(s: ClientServiceConfig)
    ensures
        s@.service_type == s.service_type,
        s@.name == s.name@,
        s@.local_addr == s.local_addr@,
        s@.prefer_ipv6 == s.prefer_ipv6,
        s@.token == opt_view(s.token),
        s@.nodelay == s.nodelay,
        s@.retry_interval == s.retry_interval,
        s@.bind_addr == opt_view(s.bind_addr),
{
}

/// A stored client configuration stands for its services.
pub proof fn law_stored_config_fields(s: StoredClientConfig)
    ensures
        s@.services == s.services@,
{
}

/// The configurations of the interface and of registering stand for their fields.
pub proof fn law_interface_fields(a: ApiConfig, r: AutoRegisterConfig)
    ensures
        a@.enabled == a.enabled,
        a@.bind_addr == a.bind_addr@,
        a@.token == opt_view(a.token),
        r@.enabled == r.enabled,
        r@.api_addr == opt_view(r.api_addr),
        r@.api_token == opt_view(r.api_token),
{
}

/// The configuration of a client stands for its fields.
pub proof fn law_client_config_fields(c: ClientConfig)
    ensures
        c@.remote_addr == c.remote_addr@,
        c@.default_token == opt_view(c.default_token),
        c@.prefer_ipv6 == c.prefer_ipv6,
        c@.services == c.services@,
        c@.transport == c.transport,
        c@.heartbeat_timeout == c.heartbeat_timeout,
        c@.retry_interval == c.retry_interval,
        c@.auto_register == opt_view(c.auto_register),
{
}

/// The configuration of a server stands for its fields.
pub proof fn law_server_config_fields(c: ServerConfig)
    ensures
        c@.bind_addr == c.bind_addr@,
        c@.default_token == opt_view(c.default_token),
        c@.services == c.services@,
        c@.transport == c.transport,
        c@.heartbeat_interval == c.heartbeat_interval,
        c@.api == opt_view(c.api),
        c@.client_configs == c.client_configs@,
{
}

/// A configuration stands for that of its server and of its client.
pub proof fn law_config_fields(c: Config)
    ensures
        c@.server == opt_view(c.server),
        c@.client == opt_view(c.client),
{
}

/// In a configuration in which nothing is set, each setting has its least value: no
/// text, no number, no service and nothing that is optional.
pub proof fn law_unset_configurations(name: Seq<char>)
    ensures
        unset_client().remote_addr.len() == 0,
        unset_client().default_token is None,
        unset_client().prefer_ipv6 is None,
        !unset_client().services.contains_key(name),
        unset_client().heartbeat_timeout == 0,
        unset_client().retry_interval == 0,
        unset_client().auto_register is None,
        unset_server().bind_addr.len() == 0,
        unset_server().default_token is None,
        !unset_server().services.contains_key(name),
        unset_server().heartbeat_interval == 0,
        unset_server().api is None,
        !unset_server().client_configs.contains_key(name),
{
}

}
