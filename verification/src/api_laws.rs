//! What holds of the control interface over several requests.

use crate::api::{
    all_client_configs, answered, by_name, client_config_answer, config_deletion_answer,
    config_list, config_not_found, create_step, creation_answer, default_type, deletion,
    deletion_answer, first_invalid_type, first_state, first_step, handed_out_services, invalid_type,
    port_step, refusal, service_answer, service_list, service_not_found, shown, shown_services,
    state_after_config_deletion, state_after_creation, state_after_question, state_after_storing,
    status_number, stored_services, storing_answer, ApiFailure, ApiFailureView, ApiState, ApiView,
    ClientConfigResponse, ClientConfigResponseView, ClientServiceInfo, ClientServiceInfoView,
    CreateServiceRequest, CreateServiceView, CreateStep, CreateStepView, ListServicesResponse,
    PendingService, PendingServiceView, PortOutcome, PortOutcomeView, ServiceDigest, ServiceInfo,
    ServiceInfoView, StatusCode,
};
use crate::api_client_laws::{law_decimal_is_read_back, lemma_decimal};
use crate::config::{
    law_type_text_names_type, named_type, opt_view, type_text, ApiConfigView, ServerServiceView,
    ServiceType, StoredClientView,
};
use crate::headers::field_text;
use crate::name_map::{
    law_put_entry_keeps_order, lemma_listed_map, lemma_name_place, lemma_put_entry, listed_map,
    names_differ,
};
use crate::text::{before_last, decimal, parse_number};
use crate::text_laws::law_before_first_and_last;
use std::path::PathBuf;
use vstd::prelude::*;

verus! {

/// A request is let in where its Authorization header is the token of the
/// interface, alone or behind `Bearer `; alone is not enough for a token that
/// itself starts with `Bearer `.
pub proof fn law_who_is_let_in(config: ApiConfigView, fields: Map<Seq<char>, Seq<Seq<u8>>>)
    ensures
        refusal(config, fields) is None <==> (config.token matches Some(expected) && field_text(
            fields,
            "authorization"@,
        ) matches Some(auth) && (auth == "Bearer "@ + expected || (auth == expected
            && !"Bearer "@.is_prefix_of(auth)))),
{
    if let Some(expected) = config.token {
        if let Some(auth) = field_text(fields, "authorization"@) {
            let bearer = "Bearer "@;
            if bearer.is_prefix_of(auth) {
                assert(auth =~= bearer + auth.skip(bearer.len() as int));
            }
            if auth == bearer + expected {
                assert(auth.subrange(0, bearer.len() as int) =~= bearer);
                assert(auth.skip(bearer.len() as int) =~= expected);
            }
            if bearer.is_prefix_of(auth) && auth.skip(bearer.len() as int) == expected {
                assert(auth == bearer + expected);
            }
        }
    }
}

/// Whoever is not let in is told why: an interface without a token answers
/// everyone that it has none, and otherwise the header is missing or wrong.
pub proof fn law_refusals(config: ApiConfigView, fields: Map<Seq<char>, Seq<Seq<u8>>>)
    ensures
        refusal(config, fields) matches Some(f) ==> {
            ||| config.token is None && f.status == StatusCode::InternalServerError
            ||| config.token is Some && f.status == StatusCode::Unauthorized
        },
{
}

proof fn lemma_by_name(services: Seq<(ServiceDigest, ServerServiceView)>, name: Seq<char>)
    ensures
        names_differ(by_name(services)),
        listed_map(by_name(services)).contains_key(name) <==> exists|i: int|
            0 <= i < services.len() && (#[trigger] services[i]).1.name == name,
        listed_map(by_name(services)).contains_key(name) ==> exists|i: int|
            0 <= i < services.len() && (#[trigger] services[i]).1.name == name && services[i].1
                == listed_map(by_name(services))[name],
    decreases services.len(),
{
    if services.len() > 0 {
        let rest = services.drop_last();
        let last = services.last().1;
        lemma_by_name(rest, name);
        lemma_put_entry(by_name(rest), last.name, last);
        let m = listed_map(by_name(rest));
        if m.contains_key(name) {
            let i = choose|i: int|
                0 <= i < rest.len() && (#[trigger] rest[i]).1.name == name && rest[i].1 == m[name];
            assert(services[i] == rest[i]);
        }
        assert(services[services.len() - 1].1 == last);
        if exists|i: int| 0 <= i < services.len() && (#[trigger] services[i]).1.name == name {
            let i = choose|i: int|
                0 <= i < services.len() && (#[trigger] services[i]).1.name == name;
            if i < rest.len() {
                assert(rest[i].1.name == name);
            }
        }
    }
}

/// A service is found by a name exactly where the running server has a service
/// of that name, and what is found is such a service.
pub proof fn law_found_by_name(state: ApiView, name: Seq<char>)
    ensures
        state.service(name) is Some <==> exists|i: int|
            0 <= i < state.services.len() && (#[trigger] state.services[i]).1.name == name,
        state.service(name) matches Some(svc) ==> svc.name == name && exists|i: int|
            0 <= i < state.services.len() && (#[trigger] state.services[i]).1 == svc,
{
    lemma_by_name(state.services, name);
}

/// The list of services has each name of a service of the running server once,
/// shows what a question for that name shows, and nothing else.
pub proof fn law_list_agrees_with_get(state: ApiView, i: int)
    requires
        0 <= i < by_name(state.services).len(),
    ensures
        names_differ(by_name(state.services)),
        state.service(by_name(state.services)[i].0) matches Some(svc) && shown_services(
            by_name(state.services),
        )[i] == shown(svc) && svc.name == by_name(state.services)[i].0,
{
    let entries = by_name(state.services);
    lemma_by_name(state.services, entries[i].0);
    lemma_listed_map(entries);
    assert(listed_map(entries).contains_key(entries[i].0));
}

/// A service that is found by name is on the list.
pub proof fn law_found_service_is_listed(state: ApiView, name: Seq<char>)
    requires
        state.service(name) is Some,
    ensures
        shown_services(by_name(state.services)).contains(shown(state.service(name)->Some_0)),
{
    let entries = by_name(state.services);
    lemma_by_name(state.services, name);
    lemma_name_place(entries, name);
    let at = crate::name_map::name_place(entries, name);
    assert(shown_services(entries)[at] == shown(entries[at].1));
}

/// No answer shows the token of a service.
pub proof fn law_tokens_are_not_shown(
    entries: Seq<(Seq<char>, ServerServiceView)>,
    i: int,
    svc: ServerServiceView,
    sent: bool,
)
    requires
        0 <= i < entries.len(),
    ensures
        shown(svc).token is None,
        shown_services(entries)[i].token is None,
        creation_answer(svc, sent) matches Ok((_, info)) ==> info.token is None,
{
}

/// The service that the running server is told to add for a request, where the
/// request gets that far. `outcome` is how the search for a free port went, if
/// there was one.
pub open spec fn announced(
    state: ApiView,
    fields: Map<Seq<char>, Seq<Seq<u8>>>,
    req: CreateServiceView,
    outcome: PortOutcomeView,
) -> Option<ServerServiceView> {
    if refusal(state.config, fields) is Some {
        None
    } else {
        match create_step(state, req) {
            CreateStepView::Announce(svc) => Some(svc),
            CreateStepView::AllocatePort(pending) => match port_step(pending, outcome) {
                CreateStepView::Announce(svc) => Some(svc),
                _ => None,
            },
            _ => None,
        }
    }
}

/// The answer to a request for a new service. `sent` says whether the running
/// server could be told of it.
pub open spec fn create_answer(
    state: ApiView,
    fields: Map<Seq<char>, Seq<Seq<u8>>>,
    req: CreateServiceView,
    outcome: PortOutcomeView,
    sent: bool,
) -> Result<(StatusCode, ServiceInfoView), ApiFailureView> {
    match refusal(state.config, fields) {
        Some(f) => Err(f),
        None => match create_step(state, req) {
            CreateStepView::Refuse(f) => Err(f),
            CreateStepView::Existing(info) => Ok((StatusCode::Okay, info)),
            CreateStepView::Announce(svc) => creation_answer(svc, sent),
            CreateStepView::AllocatePort(pending) => match port_step(pending, outcome) {
                CreateStepView::Refuse(f) => Err(f),
                CreateStepView::Existing(info) => Ok((StatusCode::Okay, info)),
                CreateStepView::Announce(svc) => creation_answer(svc, sent),
                CreateStepView::AllocatePort(_) => Err(
                    ApiFailureView {
                        status: StatusCode::InternalServerError,
                        error: Seq::empty(),
                    },
                ),
            },
        },
    }
}

/// The running server is told of a new service only for a request that was let
/// in, that names a service type and a name that no service has, and the
/// service has the name and the token of the request.
pub proof fn law_what_is_announced(
    state: ApiView,
    fields: Map<Seq<char>, Seq<Seq<u8>>>,
    req: CreateServiceView,
    outcome: PortOutcomeView,
)
    ensures
        announced(state, fields, req, outcome) matches Some(svc) ==> {
            &&& refusal(state.config, fields) is None
            &&& state.service(req.name) is None
            &&& named_type(req.service_type) == Some(svc.service_type)
            &&& svc.name == req.name
            &&& svc.token == Some(req.token)
            &&& !":0"@.is_suffix_of(req.bind_addr) ==> svc.bind_addr == req.bind_addr
        },
{
}

/// A request is answered that a service was created exactly where the running
/// server was told of one, and the answer shows that service.
pub proof fn law_created_means_announced(
    state: ApiView,
    fields: Map<Seq<char>, Seq<Seq<u8>>>,
    req: CreateServiceView,
    outcome: PortOutcomeView,
    sent: bool,
)
    ensures
        create_answer(state, fields, req, outcome, sent) matches Ok((status, info)) && status
            == StatusCode::Created <==> announced(state, fields, req, outcome) is Some && sent,
        announced(state, fields, req, outcome) matches Some(svc) ==> (sent ==> create_answer(
            state,
            fields,
            req,
            outcome,
            sent,
        ) == Ok::<(StatusCode, ServiceInfoView), ApiFailureView>((StatusCode::Created, shown(svc)))),
{
}

/// Asking again for a service that the running server has added by now shows
/// that service, and tells the running server nothing.
pub proof fn law_create_again_shows_existing(
    state: ApiView,
    fields: Map<Seq<char>, Seq<Seq<u8>>>,
    req: CreateServiceView,
    outcome: PortOutcomeView,
    again: PortOutcomeView,
    digest: ServiceDigest,
    sent: bool,
)
    requires
        announced(state, fields, req, outcome) is Some,
    ensures
        ({
            let svc = announced(state, fields, req, outcome)->Some_0;
            let grown = ApiView { services: state.services.push((digest, svc)), ..state };
            &&& create_answer(grown, fields, req, again, sent) == Ok::<
                (StatusCode, ServiceInfoView),
                ApiFailureView,
            >((StatusCode::Okay, shown(svc)))
            &&& announced(grown, fields, req, again) is None
        }),
{
    let svc = announced(state, fields, req, outcome)->Some_0;
    law_what_is_announced(state, fields, req, outcome);
    assert(state.services.push((digest, svc)).drop_last() =~= state.services);
    lemma_by_name(state.services, svc.name);
    lemma_put_entry(by_name(state.services), svc.name, svc);
}

/// What is stored for a token is handed out for that token: the services under
/// their names, with the addresses that were sent and the type in its usual
/// spelling. What the other tokens get stays the same.
pub proof fn law_stored_config_is_handed_out(
    state: ApiView,
    token: Seq<char>,
    services: Map<Seq<char>, ClientServiceInfoView>,
    other: Seq<char>,
)
    ensures
        ({
            let after = state.with_client_config(token, services);
            &&& after.client_config(token) matches Some(config)
            &&& config.remote_addr == state.server_bind_addr
            &&& config.services.dom() == services.dom()
            &&& forall|name: Seq<char>| #[trigger]
                services.contains_key(name) && named_type(services[name].service_type) is Some
                    ==> {
                    &&& config.services[name].name == name
                    &&& config.services[name].service_type == type_text(
                        named_type(services[name].service_type)->Some_0,
                    )
                    &&& config.services[name].local_addr == services[name].local_addr
                    &&& config.services[name].bind_addr == services[name].bind_addr
                }
            &&& other != token ==> after.client_config(other) == state.client_config(other)
        }),
{
    let handed = handed_out_services(stored_services(token, services));
    assert(handed.dom() =~= services.dom());
}

/// A request to store is refused for a service type exactly where one of its
/// services has a type that is none.
pub proof fn law_invalid_type_is_found(entries: Seq<(Seq<char>, ClientServiceInfoView)>)
    ensures
        first_invalid_type(entries) is Some <==> exists|i: int|
            0 <= i < entries.len() && named_type((#[trigger] entries[i]).1.service_type) is None,
        first_invalid_type(entries) matches Some(bad) ==> named_type(bad) is None,
    decreases entries.len(),
{
    if entries.len() > 0 {
        let rest = entries.drop_first();
        law_invalid_type_is_found(rest);
        if first_invalid_type(rest) is Some {
            let i = choose|i: int|
                0 <= i < rest.len() && named_type((#[trigger] rest[i]).1.service_type) is None;
            assert(entries[i + 1] == rest[i]);
        }
        if exists|i: int|
            0 <= i < entries.len() && named_type((#[trigger] entries[i]).1.service_type) is None {
            let i = choose|i: int|
                0 <= i < entries.len() && named_type((#[trigger] entries[i]).1.service_type) is None;
            if i > 0 {
                assert(rest[i - 1] == entries[i]);
            }
        }
    }
}

/// A deleted configuration is no longer handed out; what the other tokens get
/// stays the same. Deleting undoes the storing of a configuration for a token
/// that had none.
pub proof fn law_deleted_config_is_gone(
    state: ApiView,
    token: Seq<char>,
    services: Map<Seq<char>, ClientServiceInfoView>,
    other: Seq<char>,
)
    ensures
        state.without_client_config(token).client_config(token) is None,
        other != token ==> state.without_client_config(token).client_config(other)
            == state.client_config(other),
        !state.client_configs.contains_key(token) ==> state.with_client_config(
            token,
            services,
        ).without_client_config(token) == state,
{
    if !state.client_configs.contains_key(token) {
        assert(state.with_client_config(token, services).without_client_config(token)
            =~= state);
    }
}

/// The list of all configurations has for each token what that token gets, and
/// no other token.
pub proof fn law_config_list_agrees_with_get(state: ApiView, token: Seq<char>)
    ensures
        ({
            let list = all_client_configs(state.client_configs, state.server_bind_addr);
            &&& list.contains_key(token) <==> state.client_config(token) is Some
            &&& list.contains_key(token) ==> state.client_config(token) == Some(list[token])
        }),
{
}

/// Each refusal comes exactly where its reason holds: that the interface has no
/// token, that there is no readable Authorization header, or that the header has
/// another token.
pub proof fn law_refusal_reasons(config: ApiConfigView, fields: Map<Seq<char>, Seq<Seq<u8>>>)
    ensures
        config.token is None ==> refusal(config, fields) == Some(
            ApiFailureView {
                status: StatusCode::InternalServerError,
                error: "API token not configured"@,
            },
        ),
        config.token is Some && field_text(fields, "authorization"@) is None ==> refusal(
            config,
            fields,
        ) == Some(
            ApiFailureView {
                status: StatusCode::Unauthorized,
                error: "Missing Authorization header"@,
            },
        ),
        config.token is Some && field_text(fields, "authorization"@) is Some && refusal(
            config,
            fields,
        ) is Some ==> refusal(config, fields) == Some(
            ApiFailureView { status: StatusCode::Unauthorized, error: "Invalid token"@ },
        ),
{
}

/// A service is shown with its name, the text of its type and its address.
pub proof fn law_shown_service(svc: ServerServiceView)
    ensures
        shown(svc).name == svc.name,
        svc.service_type == ServiceType::Tcp ==> shown(svc).service_type == "tcp"@,
        svc.service_type == ServiceType::Udp ==> shown(svc).service_type == "udp"@,
        shown(svc).bind_addr == svc.bind_addr,
        shown(svc).token is None,
{
}

/// Of the services of one name in the running server, the last one is found.
pub proof fn law_last_service_of_a_name_is_found(state: ApiView, i: int)
    requires
        0 <= i < state.services.len(),
        forall|j: int|
            i < j < state.services.len() ==> (#[trigger] state.services[j]).1.name
                != state.services[i].1.name,
    ensures
        state.service(state.services[i].1.name) == Some(state.services[i].1),
{
    lemma_last_of_a_name(state.services, i);
}

proof fn lemma_last_of_a_name(services: Seq<(ServiceDigest, ServerServiceView)>, i: int)
    requires
        0 <= i < services.len(),
        forall|j: int|
            i < j < services.len() ==> (#[trigger] services[j]).1.name != services[i].1.name,
    ensures
        listed_map(by_name(services)).contains_key(services[i].1.name),
        listed_map(by_name(services))[services[i].1.name] == services[i].1,
    decreases services.len(),
{
    let rest = services.drop_last();
    let last = services.last().1;
    lemma_by_name(rest, last.name);
    lemma_put_entry(by_name(rest), last.name, last);
    if i < services.len() - 1 {
        assert(services[services.len() - 1].1.name != services[i].1.name);
        assert(rest[i] == services[i]);
        assert forall|j: int| i < j < rest.len() implies (#[trigger] rest[j]).1.name
            != rest[i].1.name by {
            assert(rest[j] == services[j]);
        }
        lemma_last_of_a_name(rest, i);
    }
}

/// A service that the running server adds comes last on the list where its name is
/// new, and takes the place of the one with its name otherwise. All others stay in
/// their places as they were.
pub proof fn law_list_grows_at_the_end(
    services: Seq<(ServiceDigest, ServerServiceView)>,
    digest: ServiceDigest,
    svc: ServerServiceView,
    i: int,
)
    requires
        0 <= i < by_name(services).len(),
    ensures
        ({
            let before = by_name(services);
            let after = by_name(services.push((digest, svc)));
            &&& before[i].0 != svc.name ==> after[i] == before[i]
            &&& before[i].0 == svc.name ==> after[i] == (svc.name, svc) && after.len()
                == before.len()
            &&& (forall|j: int| 0 <= j < before.len() ==> (#[trigger] before[j]).0 != svc.name)
                ==> after.len() == before.len() + 1 && after[before.len() as int] == (svc.name, svc)
            &&& by_name(seq![(digest, svc)]) == seq![(svc.name, svc)]
        }),
{
    assert(services.push((digest, svc)).drop_last() =~= services);
    lemma_by_name(services, svc.name);
    law_put_entry_keeps_order(by_name(services), svc.name, svc, i);
    let one = seq![(digest, svc)];
    assert(one.drop_last() =~= Seq::empty());
    let none = by_name(one.drop_last());
    assert(none.len() == 0);
    assert(crate::name_map::name_place(none, svc.name) == 0);
    assert(by_name(one) =~= seq![(svc.name, svc)]);
}

/// Looking at the services anew changes nothing but what is found by name, and that
/// is what the running server has.
pub proof fn law_looking_changes_nothing_else(state: ApiView)
    ensures
        state.synced().config == state.config,
        state.synced().services == state.services,
        state.synced().by_name == by_name(state.services),
        state.synced().config_path == state.config_path,
        state.synced().client_configs == state.client_configs,
        state.synced().server_bind_addr == state.server_bind_addr,
{
}

/// What becomes of a request for a new service: it is refused exactly for a type
/// that is none, shown the service of its name exactly where there is one, waits
/// for a port exactly where its address ends with the port zero, and is announced
/// as it was asked for otherwise.
pub proof fn law_request_for_a_service(state: ApiView, req: CreateServiceView, host: Seq<char>)
    ensures
        named_type(req.service_type) is None ==> (create_step(state, req) matches
            CreateStepView::Refuse(f) && f.status == StatusCode::BadRequest && f.error
            == "Invalid service type: "@ + req.service_type),
        named_type(req.service_type) matches Some(t) ==> {
            &&& state.service(req.name) matches Some(svc) ==> create_step(state, req)
                == CreateStepView::Existing(shown(svc))
            &&& state.service(req.name) is None ==> {
                &&& req.bind_addr == host + ":0"@ ==> create_step(state, req)
                    == CreateStepView::AllocatePort(
                    PendingServiceView {
                        name: req.name,
                        service_type: t,
                        bind_addr: req.bind_addr,
                        token: req.token,
                    },
                )
                &&& (forall|h: Seq<char>| req.bind_addr != #[trigger] (h + ":0"@)) ==> create_step(
                    state,
                    req,
                ) == CreateStepView::Announce(
                    ServerServiceView {
                        service_type: t,
                        name: req.name,
                        bind_addr: req.bind_addr,
                        token: Some(req.token),
                        nodelay: None,
                    },
                )
            }
        },
{
    let any = ":0"@;
    let addr = req.bind_addr;
    if addr == host + any {
        assert(addr.subrange(addr.len() - any.len(), addr.len() as int) =~= any);
    }
    if any.is_suffix_of(addr) {
        let h = addr.take(addr.len() - any.len());
        assert(addr =~= h + any);
    }
}

/// A service whose port was allocated is announced at that port of that host: what
/// stands before the last colon of its address is the host, and what stands behind
/// it is read back as the port. Its name, type and token are those that were asked
/// for.
pub proof fn law_allocated_port_is_announced(
    pending: PendingServiceView,
    ip: Seq<char>,
    port: u16,
)
    ensures
        port_step(pending, PortOutcomeView::Allocated(ip, port)) matches CreateStepView::Announce(
            svc,
        ) && {
            &&& before_last(svc.bind_addr, ':') == ip
            &&& svc.bind_addr.len() > ip.len() && svc.bind_addr[ip.len() as int] == ':'
            &&& svc.bind_addr.skip(ip.len() as int + 1) == decimal(port as nat)
            &&& parse_number(svc.bind_addr.skip(ip.len() as int + 1), 10, 65535) == Some(port as nat)
            &&& svc.name == pending.name
            &&& svc.service_type == pending.service_type
            &&& svc.token == Some(pending.token)
            &&& svc.nodelay is None
        },
{
    reveal_strlit(":");
    assert(":"@ =~= seq![':']);
    let digits = decimal(port as nat);
    let addr = ip + ":"@ + digits;
    lemma_decimal(port as nat);
    if digits.contains(':') {
        let i = choose|i: int| 0 <= i < digits.len() && digits[i] == ':';
        assert('0' <= digits[i] <= '9');
    }
    law_before_first_and_last(ip, digits, ':');
    law_decimal_is_read_back(port as nat, 65535);
    assert(addr.skip(ip.len() as int + 1) =~= digits);
}

/// Where no port could be allocated, the request is refused: as a bad one where its
/// address is none, and as a failure of the server, with the reason, otherwise.
pub proof fn law_port_failures(pending: PendingServiceView, reason: Seq<char>)
    ensures
        port_step(pending, PortOutcomeView::InvalidAddress) == CreateStepView::Refuse(
            ApiFailureView {
                status: StatusCode::BadRequest,
                error: "Invalid bind address: "@ + pending.bind_addr,
            },
        ),
        port_step(pending, PortOutcomeView::BindFailed(reason)) == CreateStepView::Refuse(
            ApiFailureView {
                status: StatusCode::InternalServerError,
                error: "Failed to allocate port: "@ + reason,
            },
        ),
        port_step(pending, PortOutcomeView::AddressUnknown(reason)) == CreateStepView::Refuse(
            ApiFailureView {
                status: StatusCode::InternalServerError,
                error: "Failed to get allocated port: "@ + reason,
            },
        ),
{
}

/// A creation and a deletion are answered as done exactly where the running server
/// was told, and as a failure of the server otherwise.
pub proof fn law_done_where_the_server_was_told(svc: ServerServiceView, sent: bool)
    ensures
        sent <==> creation_answer(svc, sent) is Ok,
        sent ==> creation_answer(svc, sent) == Ok::<(StatusCode, ServiceInfoView), ApiFailureView>(
            (StatusCode::Created, shown(svc)),
        ),
        creation_answer(svc, sent) matches Err(f) ==> f.status == StatusCode::InternalServerError
            && f.error == "Failed to add service"@,
        sent <==> deletion_answer(sent) == Ok::<StatusCode, ApiFailureView>(StatusCode::NoContent),
        deletion_answer(sent) matches Err(f) ==> f.status == StatusCode::InternalServerError
            && f.error == "Failed to delete service"@,
{
}

/// What is not there is answered as not found, by its name where it has one.
pub proof fn law_not_found_answers(name: Seq<char>)
    ensures
        service_not_found(name).status == StatusCode::NotFound,
        service_not_found(name).error == "Service '"@ + name + "' not found"@,
        config_not_found().status == StatusCode::NotFound,
        config_not_found().error == "No configuration found for token"@,
        invalid_type(name).status == StatusCode::BadRequest,
        invalid_type(name).error == "Invalid service type: "@ + name,
{
}

/// Whoever is not let in gets the refusal for an answer, whatever they asked for,
/// and changes nothing.
pub proof fn law_refused_requests_change_nothing(
    state: ApiView,
    fields: Map<Seq<char>, Seq<Seq<u8>>>,
    name: Seq<char>,
    req: CreateServiceView,
    entries: Seq<(Seq<char>, ClientServiceInfoView)>,
    f: ApiFailureView,
)
    requires
        refusal(state.config, fields) == Some(f),
    ensures
        state_after_question(state, fields) == state,
        service_list(state, fields) == Err::<Seq<ServiceInfoView>, ApiFailureView>(f),
        service_answer(state, fields, name) == Err::<ServiceInfoView, ApiFailureView>(f),
        deletion(state, fields, name) == Err::<Seq<char>, ApiFailureView>(f),
        first_step(state, fields, req) == CreateStepView::Refuse(f),
        state_after_creation(state, fields, req) == state,
        storing_answer(state, fields, name, entries) == Err::<
            (StatusCode, ClientConfigResponseView),
            ApiFailureView,
        >(f),
        state_after_storing(state, fields, name, entries) == state,
        config_deletion_answer(state, fields, name) == Err::<StatusCode, ApiFailureView>(f),
        state_after_config_deletion(state, fields, name) == state,
        config_list(state, fields) == Err::<
            Map<Seq<char>, ClientConfigResponseView>,
            ApiFailureView,
        >(f),
{
}

/// Whoever is let in learns of a service exactly where the running server has one
/// of that name, and what they see of it is what it is. Exactly such a service can
/// be deleted, under its name. A question changes nothing but what is found by name.
pub proof fn law_services_are_found_and_deleted(
    state: ApiView,
    fields: Map<Seq<char>, Seq<Seq<u8>>>,
    i: int,
    missing: Seq<char>,
)
    requires
        refusal(state.config, fields) is None,
        0 <= i < state.services.len(),
        forall|j: int|
            i < j < state.services.len() ==> (#[trigger] state.services[j]).1.name
                != state.services[i].1.name,
        forall|j: int|
            0 <= j < state.services.len() ==> (#[trigger] state.services[j]).1.name != missing,
    ensures
        ({
            let svc = state.services[i].1;
            &&& service_answer(state, fields, svc.name) matches Ok(info) && info.name == svc.name
                && info.bind_addr == svc.bind_addr && named_type(info.service_type) == Some(
                svc.service_type,
            )
            &&& service_answer(state, fields, missing) == Err::<ServiceInfoView, ApiFailureView>(
                service_not_found(missing),
            )
            &&& deletion(state, fields, svc.name) == Ok::<Seq<char>, ApiFailureView>(svc.name)
            &&& deletion(state, fields, missing) == Err::<Seq<char>, ApiFailureView>(
                service_not_found(missing),
            )
            &&& service_list(state, fields) matches Ok(list) && list.contains(shown(svc))
            &&& state_after_question(state, fields) == state.synced()
        }),
{
    let svc = state.services[i].1;
    law_last_service_of_a_name_is_found(state, i);
    law_found_by_name(state, missing);
    law_type_text_names_type(svc.service_type);
    law_found_service_is_listed(state, svc.name);
}

/// The list of services has one entry for each name, and shows under each what a
/// question for that name shows.
pub proof fn law_list_shows_each_service(
    state: ApiView,
    fields: Map<Seq<char>, Seq<Seq<u8>>>,
    i: int,
    j: int,
)
    requires
        refusal(state.config, fields) is None,
    ensures
        service_list(state, fields) matches Ok(list) && {
            &&& 0 <= i < list.len() ==> service_answer(state, fields, list[i].name) == Ok::<
                ServiceInfoView,
                ApiFailureView,
            >(list[i])
            &&& 0 <= i < j < list.len() ==> list[i].name != list[j].name
        },
{
    let entries = by_name(state.services);
    if 0 <= i < entries.len() {
        law_list_agrees_with_get(state, i);
    }
    if 0 <= j < entries.len() {
        law_list_agrees_with_get(state, j);
    }
    if 0 <= i < j < entries.len() {
        assert(entries[i].0 != entries[j].0);
    }
}

/// A creation looks at the services anew exactly where the request was let in and
/// names a type, and then goes on with the request.
pub proof fn law_creation_begins(
    state: ApiView,
    fields: Map<Seq<char>, Seq<Seq<u8>>>,
    req: CreateServiceView,
)
    requires
        refusal(state.config, fields) is None,
    ensures
        first_step(state, fields, req) == create_step(state, req),
        named_type(req.service_type) is Some ==> state_after_creation(state, fields, req)
            == state.synced(),
        named_type(req.service_type) is None ==> state_after_creation(state, fields, req) == state,
{
}

/// A service is stored under its name with the token it was sent for, the type that
/// was named and the addresses that were sent, and nothing else set.
pub proof fn law_stored_service(
    token: Seq<char>,
    services: Map<Seq<char>, ClientServiceInfoView>,
    name: Seq<char>,
)
    requires
        services.contains_key(name),
        named_type(services[name].service_type) is Some,
    ensures
        stored_services(token, services).dom() == services.dom(),
        ({
            let stored = stored_services(token, services)[name];
            &&& Some(stored.service_type) == named_type(services[name].service_type)
            &&& stored.name == name
            &&& stored.local_addr == services[name].local_addr
            &&& stored.bind_addr == services[name].bind_addr
            &&& stored.token == Some(token)
            &&& !stored.prefer_ipv6
            &&& stored.nodelay is None
            &&& stored.retry_interval is None
        }),
{
    assert(stored_services(token, services).dom() =~= services.dom());
}

/// A service of a stored configuration is handed out under the name it is stored
/// under, with the text of its type and its addresses, and the configuration names
/// the address of the server. A token without a configuration gets none.
pub proof fn law_what_is_handed_out(state: ApiView, token: Seq<char>, name: Seq<char>)
    ensures
        !state.client_configs.contains_key(token) ==> client_config_answer(state, token) == Err::<
            ClientConfigResponseView,
            ApiFailureView,
        >(config_not_found()),
        state.client_configs.contains_key(token) ==> (client_config_answer(state, token) matches Ok(
            config,
        ) && {
            let stored = state.client_configs[token].services;
            &&& config.remote_addr == state.server_bind_addr
            &&& config.services.contains_key(name) <==> stored.contains_key(name)
            &&& stored.contains_key(name) ==> {
                &&& config.services[name].name == name
                &&& stored[name].service_type == ServiceType::Tcp
                    ==> config.services[name].service_type == "tcp"@
                &&& stored[name].service_type == ServiceType::Udp
                    ==> config.services[name].service_type == "udp"@
                &&& config.services[name].local_addr == stored[name].local_addr
                &&& config.services[name].bind_addr == stored[name].bind_addr
            }
        }),
{
}

/// Storing and deleting the configuration of a token change that configuration and
/// nothing else.
pub proof fn law_storing_changes_one_configuration(
    state: ApiView,
    token: Seq<char>,
    services: Map<Seq<char>, ClientServiceInfoView>,
    other: Seq<char>,
)
    ensures
        ({
            let stored = state.with_client_config(token, services);
            let deleted = state.without_client_config(token);
            &&& stored.client_configs.contains_key(token)
            &&& stored.client_configs[token].services == stored_services(token, services)
            &&& !deleted.client_configs.contains_key(token)
            &&& other != token ==> {
                &&& stored.client_configs.contains_key(other) <==> state.client_configs.contains_key(
                    other,
                )
                &&& deleted.client_configs.contains_key(other)
                    <==> state.client_configs.contains_key(other)
                &&& state.client_configs.contains_key(other) ==> stored.client_configs[other]
                    == state.client_configs[other] && deleted.client_configs[other]
                    == state.client_configs[other]
            }
            &&& stored.config == state.config && deleted.config == state.config
            &&& stored.services == state.services && deleted.services == state.services
            &&& stored.by_name == state.by_name && deleted.by_name == state.by_name
            &&& stored.config_path == state.config_path && deleted.config_path == state.config_path
            &&& stored.server_bind_addr == state.server_bind_addr && deleted.server_bind_addr
                == state.server_bind_addr
        }),
{
}

/// A request to store that is let in is refused for the first of its services whose
/// type is none, and then changes nothing. Otherwise it is answered as created, with
/// what the token gets from then on.
pub proof fn law_storing_is_answered(
    state: ApiView,
    fields: Map<Seq<char>, Seq<Seq<u8>>>,
    token: Seq<char>,
    entries: Seq<(Seq<char>, ClientServiceInfoView)>,
    i: int,
)
    requires
        refusal(state.config, fields) is None,
    ensures
        ({
            let after = state_after_storing(state, fields, token, entries);
            let answer = storing_answer(state, fields, token, entries);
            &&& 0 <= i < entries.len() && named_type(entries[i].1.service_type) is None && (forall|
                j: int,
            |
                0 <= j < i ==> named_type((#[trigger] entries[j]).1.service_type) is Some) ==> after
                == state && answer == Err::<(StatusCode, ClientConfigResponseView), ApiFailureView>(
                invalid_type(entries[i].1.service_type),
            )
            &&& (forall|j: int|
                0 <= j < entries.len() ==> named_type((#[trigger] entries[j]).1.service_type)
                    is Some) ==> {
                &&& after == state.with_client_config(token, listed_map(entries))
                &&& answer matches Ok((status, config)) && status == StatusCode::Created
                    && client_config_answer(after, token) == Ok::<
                    ClientConfigResponseView,
                    ApiFailureView,
                >(config)
            }
        }),
{
    law_invalid_type_is_found(entries);
    if 0 <= i < entries.len() && named_type(entries[i].1.service_type) is None && (forall|j: int|
        0 <= j < i ==> named_type((#[trigger] entries[j]).1.service_type) is Some) {
        lemma_first_invalid_type(entries, i);
    }
}

proof fn lemma_first_invalid_type(entries: Seq<(Seq<char>, ClientServiceInfoView)>, i: int)
    requires
        0 <= i < entries.len(),
        named_type(entries[i].1.service_type) is None,
        forall|j: int| 0 <= j < i ==> named_type((#[trigger] entries[j]).1.service_type) is Some,
    ensures
        first_invalid_type(entries) == Some(entries[i].1.service_type),
    decreases i,
{
    if i > 0 {
        let rest = entries.drop_first();
        assert(named_type(entries[0].1.service_type) is Some);
        assert(rest[i - 1] == entries[i]);
        assert forall|j: int| 0 <= j < i - 1 implies named_type(
            (#[trigger] rest[j]).1.service_type,
        ) is Some by {
            assert(rest[j] == entries[j + 1]);
        }
        lemma_first_invalid_type(rest, i - 1);
    }
}

/// A request to delete a configuration that is let in is answered as done exactly
/// where there was one, and afterwards there is none.
pub proof fn law_config_deletion_is_answered(
    state: ApiView,
    fields: Map<Seq<char>, Seq<Seq<u8>>>,
    token: Seq<char>,
)
    requires
        refusal(state.config, fields) is None,
    ensures
        config_deletion_answer(state, fields, token) == Ok::<StatusCode, ApiFailureView>(
            StatusCode::NoContent,
        ) <==> client_config_answer(state, token) is Ok,
        config_deletion_answer(state, fields, token) is Err ==> config_deletion_answer(
            state,
            fields,
            token,
        ) == Err::<StatusCode, ApiFailureView>(config_not_found()),
        state_after_config_deletion(state, fields, token) == state.without_client_config(token),
        config_deletion_answer(
            state_after_config_deletion(state, fields, token),
            fields,
            token,
        ) is Err,
{
}

/// The list of configurations has for each token what that token gets when it asks
/// itself, and no other token.
pub proof fn law_all_configurations_are_listed(
    state: ApiView,
    fields: Map<Seq<char>, Seq<Seq<u8>>>,
    token: Seq<char>,
)
    requires
        refusal(state.config, fields) is None,
    ensures
        config_list(state, fields) matches Ok(list) && {
            &&& list.contains_key(token) <==> client_config_answer(state, token) is Ok
            &&& list.contains_key(token) ==> client_config_answer(state, token) == Ok::<
                ClientConfigResponseView,
                ApiFailureView,
            >(list[token])
        },
{
}

/// The numbers of the statuses in HTTP.
pub proof fn law_status_numbers(a: StatusCode, b: StatusCode)
    ensures
        status_number(StatusCode::Okay) == 200,
        status_number(StatusCode::Created) == 201,
        status_number(StatusCode::NoContent) == 204,
        status_number(StatusCode::BadRequest) == 400,
        status_number(StatusCode::Unauthorized) == 401,
        status_number(StatusCode::NotFound) == 404,
        status_number(StatusCode::InternalServerError) == 500,
        status_number(a) == status_number(b) ==> a == b,
{
}

/// An answer says what it was to say exactly where it is that value, or fails with
/// that reason.
pub proof fn law_answers<A: View>(
    r: Result<A, ApiFailure>,
    value: A::V,
    reason: ApiFailureView,
)
    ensures
        answered(r, Ok::<A::V, ApiFailureView>(value)) <==> (r matches Ok(a) && a@ == value),
        answered(r, Err::<A::V, ApiFailureView>(reason)) <==> (r matches Err(f) && f.status
            == reason.status && f.error.error@ == reason.error),
{
    if let Err(f) = r {
        assert(f@ == reason <==> f@ =~= reason);
    }
}

/// What is shown, asked for, handed out or refused stands for its fields.
pub proof fn law_message_fields(
    info: ServiceInfo,
    req: CreateServiceRequest,
    list: ListServicesResponse,
    i: int,
    svc: ClientServiceInfo,
    config: ClientConfigResponse,
    f: ApiFailure,
)
    ensures
        info@.name == info.name@,
        info@.service_type == info.service_type@,
        info@.bind_addr == info.bind_addr@,
        info@.token == opt_view(info.token),
        req@.name == req.name@,
        req@.service_type == req.service_type@,
        req@.bind_addr == req.bind_addr@,
        req@.token == req.token@,
        list@.len() == list.services@.len(),
        0 <= i < list.services@.len() ==> list@[i] == list.services@[i]@,
        svc@.name == svc.name@,
        svc@.service_type == svc.service_type@,
        svc@.local_addr == svc.local_addr@,
        svc@.bind_addr == opt_view(svc.bind_addr),
        config@.remote_addr == config.remote_addr@,
        config@.services == config.services@,
        f@.status == f.status,
        f@.error == f.error.error@,
{
}

/// The steps of a creation, and how the search for a port went, stand for what they
/// carry.
pub proof fn law_step_fields(pending: PendingService, step: CreateStep, outcome: PortOutcome)
    ensures
        pending@.name == pending.name@,
        pending@.service_type == pending.service_type,
        pending@.bind_addr == pending.bind_addr@,
        pending@.token == pending.token@,
        step matches CreateStep::Refuse(f) ==> step@ == CreateStepView::Refuse(f@),
        step matches CreateStep::Existing(info) ==> step@ == CreateStepView::Existing(info@),
        step matches CreateStep::AllocatePort(p) ==> step@ == CreateStepView::AllocatePort(p@),
        step matches CreateStep::Announce(svc) ==> step@ == CreateStepView::Announce(svc@),
        outcome is InvalidAddress <==> outcome@ is InvalidAddress,
        outcome matches PortOutcome::BindFailed(e) ==> outcome@ == PortOutcomeView::BindFailed(e@),
        outcome matches PortOutcome::AddressUnknown(e) ==> outcome@
            == PortOutcomeView::AddressUnknown(e@),
        outcome matches PortOutcome::Allocated { ip, port } ==> outcome@
            == PortOutcomeView::Allocated(ip@, port),
{
}

/// The state of the interface stands for its fields.
pub proof fn law_state_fields(state: ApiState, i: int)
    ensures
        state@.config == state.config@,
        state@.services.len() == state.services@.len(),
        0 <= i < state.services@.len() ==> state@.services[i] == (
            state.services@[i].0,
            state.services@[i].1@,
        ),
        state@.by_name == state.services_by_name.listing(),
        state@.config_path == state.config_path,
        state@.client_configs == state.client_configs@,
        state@.server_bind_addr == state.server_bind_addr@,
{
}

/// At first an interface knows what it was given, and has found no service by name.
pub proof fn law_first_state(
    config: ApiConfigView,
    services: Seq<(ServiceDigest, ServerServiceView)>,
    config_path: Option<PathBuf>,
    client_configs: Map<Seq<char>, StoredClientView>,
    server_bind_addr: Seq<char>,
)
    ensures
        ({
            let state = first_state(
                config,
                services,
                config_path,
                client_configs,
                server_bind_addr,
            );
            &&& state.config == config
            &&& state.services == services
            &&& state.by_name.len() == 0
            &&& state.config_path == config_path
            &&& state.client_configs == client_configs
            &&& state.server_bind_addr == server_bind_addr
        }),
{
}

/// A request that names no type is one for a TCP service.
pub proof fn law_default_type_is_tcp()
    ensures
        named_type(default_type()) == Some(ServiceType::Tcp),
{
    law_type_text_names_type(ServiceType::Tcp);
}

}
