//! The control interface of the server: what each request is answered, and what
//! it changes.
//!
//! A request that adds or deletes a service ends in an event for the running
//! server. The functions here say which event that is and what the answer is
//! once the event was sent or could not be sent.

use crate::config::{
    copy_text, named_type, opt_view, type_text, ApiConfig, ApiConfigView, ClientServiceConfig,
    ClientServiceView, MaskedString, ServerServiceChange, ServerServiceConfig,
    ServerServiceView, ServiceType, StoredClientConfig, StoredClientView,
};
use crate::headers::{field_text, header_fields, header_text, lower_field_name};
use crate::name_map::{listed_map, put_entry, NameMap};
use crate::text::{concat, concat3, decimal, decimal_text, has_prefix, has_suffix, text_after};
use axum::http::{HeaderMap, HeaderValue};
use std::path::PathBuf;
use vstd::prelude::*;
use vstd::string::*;

verus! {

/// What identifies a service on the wire.
pub type ServiceDigest = [u8; 32];

/// A service as it is shown to those who ask for it.
#[derive(Debug)]
pub struct ServiceInfo {
    pub name: String,
    pub service_type: String,
    pub bind_addr: String,
    pub token: Option<String>,
}

/// What a shown service says.
#[verifier::ext_equal]
pub struct ServiceInfoView {
    pub name: Seq<char>,
    pub service_type: Seq<char>,
    pub bind_addr: Seq<char>,
    pub token: Option<Seq<char>>,
}

impl View for ServiceInfo {
    type V = ServiceInfoView;

    open spec fn view(&self) -> ServiceInfoView {
        ServiceInfoView {
            name: self.name@,
            service_type: self.service_type@,
            bind_addr: self.bind_addr@,
            token: opt_view(self.token),
        }
    }
}

/// A request for a new service.
#[derive(Debug)]
pub struct CreateServiceRequest {
    pub name: String,
    pub service_type: String,
    pub bind_addr: String,
    pub token: String,
}

/// What a request for a new service says.
#[verifier::ext_equal]
pub struct CreateServiceView {
    pub name: Seq<char>,
    pub service_type: Seq<char>,
    pub bind_addr: Seq<char>,
    pub token: Seq<char>,
}

impl View for CreateServiceRequest {
    type V = CreateServiceView;

    open spec fn view(&self) -> CreateServiceView {
        CreateServiceView {
            name: self.name@,
            service_type: self.service_type@,
            bind_addr: self.bind_addr@,
            token: self.token@,
        }
    }
}

/// The type of a service whose request names none.
pub open spec fn default_type() -> Seq<char> {
    "tcp"@
}

/// The type of a service whose request names none.
pub fn default_service_type() -> (r: String)
    ensures
        r@ == "tcp"@,
        r@ == default_type(),
{
    "tcp".to_owned()
}

/// The services of the server.
#[derive(Debug)]
pub struct ListServicesResponse {
    pub services: Vec<ServiceInfo>,
}

impl View for ListServicesResponse {
    type V = Seq<ServiceInfoView>;

    open spec fn view(&self) -> Seq<ServiceInfoView> {
        self.services@.map_values(|s: ServiceInfo| s@)
    }
}

/// Why a request was refused.
#[derive(Debug)]
pub struct ApiError {
    pub error: String,
}

/// A service that a client is to forward.
#[derive(Debug)]
pub struct ClientServiceInfo {
    pub name: String,
    pub service_type: String,
    pub local_addr: String,
    pub bind_addr: Option<String>,
}

/// What a service that a client is to forward says.
#[verifier::ext_equal]
pub struct ClientServiceInfoView {
    pub name: Seq<char>,
    pub service_type: Seq<char>,
    pub local_addr: Seq<char>,
    pub bind_addr: Option<Seq<char>>,
}

impl View for ClientServiceInfo {
    type V = ClientServiceInfoView;

    open spec fn view(&self) -> ClientServiceInfoView {
        ClientServiceInfoView {
            name: self.name@,
            service_type: self.service_type@,
            local_addr: self.local_addr@,
            bind_addr: opt_view(self.bind_addr),
        }
    }
}

/// The configuration of the clients of one token, as it is handed out.
pub struct ClientConfigResponse {
    pub remote_addr: String,
    pub services: NameMap<ClientServiceInfo>,
}

/// What a client configuration that is handed out says.
#[verifier::ext_equal]
pub struct ClientConfigResponseView {
    pub remote_addr: Seq<char>,
    pub services: Map<Seq<char>, ClientServiceInfoView>,
}

impl View for ClientConfigResponse {
    type V = ClientConfigResponseView;

    open spec fn view(&self) -> ClientConfigResponseView {
        ClientConfigResponseView { remote_addr: self.remote_addr@, services: self.services@ }
    }
}

/// A request to create or update the configuration of the clients of one token.
pub struct CreateClientConfigRequest {
    pub services: NameMap<ClientServiceInfo>,
}

/// The answer of a server that is up.
#[derive(Debug)]
pub struct HealthResponse {
    pub status: String,
}

/// The status of an answer.
#[derive(Debug, Clone, Copy, PartialEq, Eq, Structural)]
pub enum StatusCode {
    Okay,
    Created,
    NoContent,
    BadRequest,
    Unauthorized,
    NotFound,
    InternalServerError,
}

/// The number of a status in HTTP.
pub open spec fn status_number(status: StatusCode) -> u16 {
    match status {
        StatusCode::Okay => 200u16,
        StatusCode::Created => 201u16,
        StatusCode::NoContent => 204u16,
        StatusCode::BadRequest => 400u16,
        StatusCode::Unauthorized => 401u16,
        StatusCode::NotFound => 404u16,
        StatusCode::InternalServerError => 500u16,
    }
}

impl StatusCode {
    /// The number of the status in HTTP.
    pub fn as_u16(self) -> (r: u16)
        ensures
            r == status_number(self),
    {
        match self {
            StatusCode::Okay => 200,
            StatusCode::Created => 201,
            StatusCode::NoContent => 204,
            StatusCode::BadRequest => 400,
            StatusCode::Unauthorized => 401,
            StatusCode::NotFound => 404,
            StatusCode::InternalServerError => 500,
        }
    }
}

/// The answer to a request that was refused.
#[derive(Debug)]
pub struct ApiFailure {
    pub status: StatusCode,
    pub error: ApiError,
}

/// What a refusal says.
#[verifier::ext_equal]
pub struct ApiFailureView {
    pub status: StatusCode,
    pub error: Seq<char>,
}

impl View for ApiFailure {
    type V = ApiFailureView;

    open spec fn view(&self) -> ApiFailureView {
        ApiFailureView { status: self.status, error: self.error.error@ }
    }
}

/// Whether an answer says what it was to say.
pub open spec fn answered<A: View>(
    r: Result<A, ApiFailure>,
    expected: Result<A::V, ApiFailureView>,
) -> bool {
    match r {
        Ok(a) => expected == Ok::<A::V, ApiFailureView>(a@),
        Err(f) => expected == Err::<A::V, ApiFailureView>(f@),
    }
}

fn failure(status: StatusCode, error: &str) -> (r: ApiFailure)
    ensures
        r@ == (ApiFailureView { status, error: error@ }),
{
    ApiFailure { status, error: ApiError { error: error.to_owned() } }
}

/// What the interface works on.
pub struct ApiState {
    pub config: ApiConfig,
    /// The services of the running server, in the order in which its table is
    /// walked.
    pub services: Vec<(ServiceDigest, ServerServiceConfig)>,
    pub services_by_name: NameMap<ServerServiceConfig>,
    pub config_path: Option<PathBuf>,
    pub client_configs: NameMap<StoredClientConfig>,
    pub server_bind_addr: String,
}

/// What the state of the interface stands for.
#[verifier::ext_equal]
pub struct ApiView {
    pub config: ApiConfigView,
    pub services: Seq<(ServiceDigest, ServerServiceView)>,
    pub by_name: Seq<(Seq<char>, ServerServiceView)>,
    pub config_path: Option<PathBuf>,
    pub client_configs: Map<Seq<char>, StoredClientView>,
    pub server_bind_addr: Seq<char>,
}

impl View for ApiState {
    type V = ApiView;

    open spec fn view(&self) -> ApiView {
        ApiView {
            config: self.config@,
            services: service_views(self.services@),
            by_name: self.services_by_name.listing(),
            config_path: self.config_path,
            client_configs: self.client_configs@,
            server_bind_addr: self.server_bind_addr@,
        }
    }
}

/// The services of a table, each beside what identifies it on the wire.
pub open spec fn service_views(services: Seq<(ServiceDigest, ServerServiceConfig)>) -> Seq<
    (ServiceDigest, ServerServiceView),
> {
    services.map_values(|e: (ServiceDigest, ServerServiceConfig)| (e.0, e.1@))
}

/// The services under their names, as the table is walked: of two with one name
/// the later counts.
pub open spec fn by_name(services: Seq<(ServiceDigest, ServerServiceView)>) -> Seq<
    (Seq<char>, ServerServiceView),
>
    decreases services.len(),
{
    if services.len() == 0 {
        Seq::empty()
    } else {
        let svc = services.last().1;
        put_entry(by_name(services.drop_last()), svc.name, svc)
    }
}

impl ApiView {
    /// The state once the services are found by their present names.
    pub open spec fn synced(self) -> ApiView {
        ApiView { by_name: by_name(self.services), ..self }
    }

    /// The service of a name in the running server.
    pub open spec fn service(self, name: Seq<char>) -> Option<ServerServiceView> {
        let services = listed_map(by_name(self.services));
        if services.contains_key(name) {
            Some(services[name])
        } else {
            None
        }
    }
}

/// How a service is shown: without its token.
pub open spec fn shown(svc: ServerServiceView) -> ServiceInfoView {
    ServiceInfoView {
        name: svc.name,
        service_type: type_text(svc.service_type),
        bind_addr: svc.bind_addr,
        token: None,
    }
}

fn show(svc: &ServerServiceConfig) -> (r: ServiceInfo)
    ensures
        r@ == shown(svc@),
{
    ServiceInfo {
        name: svc.name.clone(),
        service_type: svc.service_type.text(),
        bind_addr: svc.bind_addr.clone(),
        token: None,
    }
}

/// The state of an interface that has not looked at its services yet.
pub open spec fn first_state(
    config: ApiConfigView,
    services: Seq<(ServiceDigest, ServerServiceView)>,
    config_path: Option<PathBuf>,
    client_configs: Map<Seq<char>, StoredClientView>,
    server_bind_addr: Seq<char>,
) -> ApiView {
    ApiView {
        config,
        services,
        by_name: Seq::empty(),
        config_path,
        client_configs,
        server_bind_addr,
    }
}

impl ApiState {
    /// The state of an interface that has not looked at its services yet.
    pub fn new(
        config: ApiConfig,
        services: Vec<(ServiceDigest, ServerServiceConfig)>,
        config_path: Option<PathBuf>,
        client_configs: NameMap<StoredClientConfig>,
        server_bind_addr: String,
    ) -> (r: Self)
        ensures
            r@ == (ApiView {
                config: config@,
                services: service_views(services@),
                by_name: Seq::empty(),
                config_path,
                client_configs: client_configs@,
                server_bind_addr: server_bind_addr@,
            }),
            r.services@ == services@,
            r@ == first_state(
                config@,
                service_views(services@),
                config_path,
                client_configs@,
                server_bind_addr@,
            ),
    {
        ApiState {
            config,
            services,
            services_by_name: NameMap::new(),
            config_path,
            client_configs,
            server_bind_addr,
        }
    }

    /// Find the services by their present names.
    pub fn sync_services_by_name(&mut self)
        ensures
            final(self)@ == old(self)@.synced(),
            final(self).services@ == old(self).services@,
    {
        let ghost all = service_views(self.services@);
        let mut found: NameMap<ServerServiceConfig> = NameMap::new();
        let mut i: usize = 0;
        assert(all.take(0) =~= Seq::empty());
        while i < self.services.len()
            invariant
                i <= self.services@.len(),
                all == service_views(self.services@),
                found.listing() == by_name(all.take(i as int)),
                *self == *old(self),
            decreases self.services@.len() - i,
        {
            proof {
                assert(all.take(i + 1).drop_last() =~= all.take(i as int));
                assert(all.take(i + 1).last().1 == self.services@[i as int].1@);
            }
            let svc = &self.services[i].1;
            found.insert(svc.name.clone(), svc.clone());
            i = i + 1;
        }
        assert(all.take(i as int) =~= all);
        self.services_by_name = found;
    }
}

/// The token that an Authorization header carries: what follows `Bearer `, or
/// all of it.
pub open spec fn carried_token(auth: Seq<char>) -> Seq<char> {
    if "Bearer "@.is_prefix_of(auth) {
        auth.skip("Bearer "@.len() as int)
    } else {
        auth
    }
}

/// Why a request with these header fields is not let in; nothing where it is.
pub open spec fn refusal(config: ApiConfigView, fields: Map<Seq<char>, Seq<Seq<u8>>>) -> Option<
    ApiFailureView,
> {
    match config.token {
        None => Some(
            ApiFailureView {
                status: StatusCode::InternalServerError,
                error: "API token not configured"@,
            },
        ),
        Some(expected) => match field_text(fields, "authorization"@) {
            None => Some(
                ApiFailureView {
                    status: StatusCode::Unauthorized,
                    error: "Missing Authorization header"@,
                },
            ),
            Some(auth) => if carried_token(auth) == expected {
                None
            } else {
                Some(ApiFailureView { status: StatusCode::Unauthorized, error: "Invalid token"@ })
            },
        },
    }
}

/// Whether a request carries the token of the interface.
pub fn validate_token(state: &ApiState, headers: &HeaderMap<HeaderValue>) -> (r: Result<
    (),
    ApiFailure,
>)
    ensures
        match r {
            Ok(_) => refusal(state@.config, header_fields(*headers)) is None,
            Err(f) => refusal(state@.config, header_fields(*headers)) == Some(f@),
        },
{
    let expected = match &state.config.token {
        Some(token) => token,
        None => {
            return Err(failure(StatusCode::InternalServerError, "API token not configured"));
        },
    };
    proof {
        reveal_strlit("authorization");
        reveal_strlit("Bearer ");
        assert(lower_field_name("authorization"@));
    }
    match header_text(headers, "authorization") {
        Some(auth) => {
            let token = if has_prefix(auth, "Bearer ") {
                text_after(auth, 7)
            } else {
                auth
            };
            if *token == *expected.as_str() {
                Ok(())
            } else {
                Err(failure(StatusCode::Unauthorized, "Invalid token"))
            }
        },
        None => Err(failure(StatusCode::Unauthorized, "Missing Authorization header")),
    }
}

/// The answer to a question whether the server is up.
pub fn health_check() -> (r: HealthResponse)
    ensures
        r.status@ == "ok"@,
{
    HealthResponse { status: "ok".to_owned() }
}

/// The services as they are shown, in the order in which they are found by name.
pub open spec fn shown_services(entries: Seq<(Seq<char>, ServerServiceView)>) -> Seq<
    ServiceInfoView,
> {
    entries.map_values(|e: (Seq<char>, ServerServiceView)| shown(e.1))
}

/// The state of the interface after a question about services.
pub open spec fn state_after_question(
    state: ApiView,
    fields: Map<Seq<char>, Seq<Seq<u8>>>,
) -> ApiView {
    if refusal(state.config, fields) is Some {
        state
    } else {
        state.synced()
    }
}

/// The answer to a request for the list of services.
pub open spec fn service_list(state: ApiView, fields: Map<Seq<char>, Seq<Seq<u8>>>) -> Result<
    Seq<ServiceInfoView>,
    ApiFailureView,
> {
    match refusal(state.config, fields) {
        Some(f) => Err(f),
        None => Ok(shown_services(by_name(state.services))),
    }
}

/// List the services of the server.
pub fn list_services(state: &mut ApiState, headers: &HeaderMap<HeaderValue>) -> (r: Result<
    ListServicesResponse,
    ApiFailure,
>)
    ensures
        final(state).services@ == old(state).services@,
        match refusal(old(state)@.config, header_fields(*headers)) {
            Some(f) => final(state)@ == old(state)@ && (r matches Err(e) && e@ == f),
            None => final(state)@ == old(state)@.synced() && (r matches Ok(list) && list@
                == shown_services(by_name(old(state)@.services))),
        },
        final(state)@ == state_after_question(old(state)@, header_fields(*headers)),
        answered(r, service_list(old(state)@, header_fields(*headers))),
{
    match validate_token(state, headers) {
        Err(f) => Err(f),
        Ok(_) => {
            state.sync_services_by_name();
            let ghost entries = state@.by_name;
            let n = state.services_by_name.len();
            let mut services: Vec<ServiceInfo> = Vec::new();
            let mut i: usize = 0;
            while i < n
                invariant
                    i <= n,
                    n == entries.len(),
                    entries == state.services_by_name.listing(),
                    state@ == old(state)@.synced(),
                    state.services@ == old(state).services@,
                    services@.map_values(|s: ServiceInfo| s@) == shown_services(
                        entries.take(i as int),
                    ),
                decreases n - i,
            {
                let ghost before = services@.map_values(|s: ServiceInfo| s@);
                services.push(show(state.services_by_name.value_at(i)));
                proof {
                    assert(services@.map_values(|s: ServiceInfo| s@) =~= before.push(
                        shown(entries[i as int].1),
                    ));
                    assert(shown_services(entries.take(i + 1)) =~= shown_services(
                        entries.take(i as int),
                    ).push(shown(entries[i as int].1)));
                }
                i = i + 1;
            }
            assert(entries.take(i as int) =~= entries);
            Ok(ListServicesResponse { services })
        },
    }
}

/// The answer about a service that is not there.
pub open spec fn service_not_found(name: Seq<char>) -> ApiFailureView {
    ApiFailureView {
        status: StatusCode::NotFound,
        error: "Service '"@ + name + "' not found"@,
    }
}

fn not_found(name: &str) -> (r: ApiFailure)
    ensures
        r@ == service_not_found(name@),
{
    failure(StatusCode::NotFound, concat3("Service '", name, "' not found").as_str())
}

/// The answer to a question for one service.
pub open spec fn service_answer(
    state: ApiView,
    fields: Map<Seq<char>, Seq<Seq<u8>>>,
    name: Seq<char>,
) -> Result<ServiceInfoView, ApiFailureView> {
    match refusal(state.config, fields) {
        Some(f) => Err(f),
        None => match state.service(name) {
            Some(svc) => Ok(shown(svc)),
            None => Err(service_not_found(name)),
        },
    }
}

/// Show one service of the server.
pub fn get_service(state: &mut ApiState, headers: &HeaderMap<HeaderValue>, name: &str) -> (r: Result<
    ServiceInfo,
    ApiFailure,
>)
    ensures
        final(state).services@ == old(state).services@,
        match refusal(old(state)@.config, header_fields(*headers)) {
            Some(f) => final(state)@ == old(state)@ && (r matches Err(e) && e@ == f),
            None => {
                &&& final(state)@ == old(state)@.synced()
                &&& match old(state)@.service(name@) {
                    Some(svc) => r matches Ok(info) && info@ == shown(svc),
                    None => r matches Err(e) && e@ == service_not_found(name@),
                }
            },
        },
        final(state)@ == state_after_question(old(state)@, header_fields(*headers)),
        answered(r, service_answer(old(state)@, header_fields(*headers), name@)),
{
    match validate_token(state, headers) {
        Err(f) => Err(f),
        Ok(_) => {
            state.sync_services_by_name();
            match state.services_by_name.get(name) {
                Some(svc) => Ok(show(svc)),
                None => Err(not_found(name)),
            }
        },
    }
}

/// A service that waits for a free port.
pub struct PendingService {
    pub name: String,
    pub service_type: ServiceType,
    pub bind_addr: String,
    pub token: String,
}

/// What a service that waits for a free port says.
#[verifier::ext_equal]
pub struct PendingServiceView {
    pub name: Seq<char>,
    pub service_type: ServiceType,
    pub bind_addr: Seq<char>,
    pub token: Seq<char>,
}

impl View for PendingService {
    type V = PendingServiceView;

    open spec fn view(&self) -> PendingServiceView {
        PendingServiceView {
            name: self.name@,
            service_type: self.service_type,
            bind_addr: self.bind_addr@,
            token: self.token@,
        }
    }
}

/// What comes next in the creation of a service.
pub enum CreateStep {
    /// The request is refused.
    Refuse(ApiFailure),
    /// The service is already there, and is shown.
    Existing(ServiceInfo),
    /// The bind address asks for any port: a free one has to be found.
    AllocatePort(PendingService),
    /// The running server has to be told to add this service.
    Announce(ServerServiceConfig),
}

/// What a step in the creation of a service says.
#[verifier::ext_equal]
pub enum CreateStepView {
    Refuse(ApiFailureView),
    Existing(ServiceInfoView),
    AllocatePort(PendingServiceView),
    Announce(ServerServiceView),
}

impl View for CreateStep {
    type V = CreateStepView;

    open spec fn view(&self) -> CreateStepView {
        match *self {
            CreateStep::Refuse(f) => CreateStepView::Refuse(f@),
            CreateStep::Existing(info) => CreateStepView::Existing(info@),
            CreateStep::AllocatePort(p) => CreateStepView::AllocatePort(p@),
            CreateStep::Announce(c) => CreateStepView::Announce(c@),
        }
    }
}

/// The answer to a service type that is none.
pub open spec fn invalid_type(service_type: Seq<char>) -> ApiFailureView {
    ApiFailureView {
        status: StatusCode::BadRequest,
        error: "Invalid service type: "@ + service_type,
    }
}

/// The configuration of a service that was asked for.
pub open spec fn asked_service(pending: PendingServiceView, bind_addr: Seq<char>) -> ServerServiceView {
    ServerServiceView {
        service_type: pending.service_type,
        name: pending.name,
        bind_addr,
        token: Some(pending.token),
        nodelay: None,
    }
}

/// What becomes of a request for a new service that was let in.
pub open spec fn create_step(state: ApiView, req: CreateServiceView) -> CreateStepView {
    match named_type(req.service_type) {
        None => CreateStepView::Refuse(invalid_type(req.service_type)),
        Some(service_type) => match state.service(req.name) {
            Some(svc) => CreateStepView::Existing(shown(svc)),
            None => {
                let pending = PendingServiceView {
                    name: req.name,
                    service_type,
                    bind_addr: req.bind_addr,
                    token: req.token,
                };
                if ":0"@.is_suffix_of(req.bind_addr) {
                    CreateStepView::AllocatePort(pending)
                } else {
                    CreateStepView::Announce(asked_service(pending, req.bind_addr))
                }
            },
        },
    }
}

fn service_config(pending: PendingService, bind_addr: String) -> (r: ServerServiceConfig)
    ensures
        r@ == asked_service(pending@, bind_addr@),
{
    ServerServiceConfig {
        service_type: pending.service_type,
        name: pending.name,
        bind_addr,
        token: Some(MaskedString::from(pending.token.as_str())),
        nodelay: None,
    }
}

/// The state of the interface after the beginning of a creation.
pub open spec fn state_after_creation(
    state: ApiView,
    fields: Map<Seq<char>, Seq<Seq<u8>>>,
    req: CreateServiceView,
) -> ApiView {
    if refusal(state.config, fields) is Some || named_type(req.service_type) is None {
        state
    } else {
        state.synced()
    }
}

/// The first step for a request for a new service.
pub open spec fn first_step(
    state: ApiView,
    fields: Map<Seq<char>, Seq<Seq<u8>>>,
    req: CreateServiceView,
) -> CreateStepView {
    match refusal(state.config, fields) {
        Some(f) => CreateStepView::Refuse(f),
        None => create_step(state, req),
    }
}

/// Begin to create a service.
pub fn create_service(
    state: &mut ApiState,
    headers: &HeaderMap<HeaderValue>,
    req: &CreateServiceRequest,
) -> (r: CreateStep)
    ensures
        final(state).services@ == old(state).services@,
        match refusal(old(state)@.config, header_fields(*headers)) {
            Some(f) => final(state)@ == old(state)@ && r@ == CreateStepView::Refuse(f),
            None => {
                &&& r@ == create_step(old(state)@, req@)
                &&& final(state)@ == (if named_type(req.service_type@) is Some {
                    old(state)@.synced()
                } else {
                    old(state)@
                })
            },
        },
        r@ == first_step(old(state)@, header_fields(*headers), req@),
        final(state)@ == state_after_creation(old(state)@, header_fields(*headers), req@),
{
    match validate_token(state, headers) {
        Err(f) => {
            return CreateStep::Refuse(f);
        },
        Ok(_) => {},
    }
    let service_type = match ServiceType::named(req.service_type.as_str()) {
        Some(service_type) => service_type,
        None => {
            let error = concat("Invalid service type: ", req.service_type.as_str());
            return CreateStep::Refuse(failure(StatusCode::BadRequest, error.as_str()));
        },
    };
    state.sync_services_by_name();
    if let Some(svc) = state.services_by_name.get(req.name.as_str()) {
        return CreateStep::Existing(show(svc));
    }
    let pending = PendingService {
        name: req.name.clone(),
        service_type,
        bind_addr: req.bind_addr.clone(),
        token: req.token.clone(),
    };
    if has_suffix(req.bind_addr.as_str(), ":0") {
        CreateStep::AllocatePort(pending)
    } else {
        CreateStep::Announce(service_config(pending, req.bind_addr.clone()))
    }
}

/// How the search for a free port went.
pub enum PortOutcome {
    /// The bind address is no socket address.
    InvalidAddress,
    /// No port could be bound, for this reason.
    BindFailed(String),
    /// The port that was bound could not be told, for this reason.
    AddressUnknown(String),
    /// This port of this host is free.
    Allocated { ip: String, port: u16 },
}

/// What the search for a free port came to.
#[verifier::ext_equal]
pub enum PortOutcomeView {
    InvalidAddress,
    BindFailed(Seq<char>),
    AddressUnknown(Seq<char>),
    Allocated(Seq<char>, u16),
}

impl View for PortOutcome {
    type V = PortOutcomeView;

    open spec fn view(&self) -> PortOutcomeView {
        match *self {
            PortOutcome::InvalidAddress => PortOutcomeView::InvalidAddress,
            PortOutcome::BindFailed(e) => PortOutcomeView::BindFailed(e@),
            PortOutcome::AddressUnknown(e) => PortOutcomeView::AddressUnknown(e@),
            PortOutcome::Allocated { ip, port } => PortOutcomeView::Allocated(ip@, port),
        }
    }
}

/// What becomes of a service once the search for a free port is over.
pub open spec fn port_step(pending: PendingServiceView, outcome: PortOutcomeView) -> CreateStepView {
    match outcome {
        PortOutcomeView::InvalidAddress => CreateStepView::Refuse(
            ApiFailureView {
                status: StatusCode::BadRequest,
                error: "Invalid bind address: "@ + pending.bind_addr,
            },
        ),
        PortOutcomeView::BindFailed(e) => CreateStepView::Refuse(
            ApiFailureView {
                status: StatusCode::InternalServerError,
                error: "Failed to allocate port: "@ + e,
            },
        ),
        PortOutcomeView::AddressUnknown(e) => CreateStepView::Refuse(
            ApiFailureView {
                status: StatusCode::InternalServerError,
                error: "Failed to get allocated port: "@ + e,
            },
        ),
        PortOutcomeView::Allocated(ip, port) => CreateStepView::Announce(
            asked_service(pending, ip + ":"@ + decimal(port as nat)),
        ),
    }
}

/// Go on with a service once the search for a free port is over.
pub fn port_allocated(pending: PendingService, outcome: PortOutcome) -> (r: CreateStep)
    ensures
        r@ == port_step(pending@, outcome@),
{
    match outcome {
        PortOutcome::InvalidAddress => {
            let error = concat("Invalid bind address: ", pending.bind_addr.as_str());
            CreateStep::Refuse(failure(StatusCode::BadRequest, error.as_str()))
        },
        PortOutcome::BindFailed(e) => {
            let error = concat("Failed to allocate port: ", e.as_str());
            CreateStep::Refuse(failure(StatusCode::InternalServerError, error.as_str()))
        },
        PortOutcome::AddressUnknown(e) => {
            let error = concat("Failed to get allocated port: ", e.as_str());
            CreateStep::Refuse(failure(StatusCode::InternalServerError, error.as_str()))
        },
        PortOutcome::Allocated { ip, port } => {
            let bind_addr = concat3(ip.as_str(), ":", decimal_text(port as usize).as_str());
            CreateStep::Announce(service_config(pending, bind_addr))
        },
    }
}

/// The answer once the running server was told of a new service, or could not
/// be told.
pub open spec fn creation_answer(svc: ServerServiceView, sent: bool) -> Result<
    (StatusCode, ServiceInfoView),
    ApiFailureView,
> {
    if sent {
        Ok((StatusCode::Created, shown(svc)))
    } else {
        Err(
            ApiFailureView {
                status: StatusCode::InternalServerError,
                error: "Failed to add service"@,
            },
        )
    }
}

/// Answer a request for a new service once the running server was told of it,
/// or could not be told.
pub fn service_announced(svc: &ServerServiceConfig, sent: bool) -> (r: Result<
    (StatusCode, ServiceInfo),
    ApiFailure,
>)
    ensures
        match r {
            Ok((status, info)) => creation_answer(svc@, sent) == Ok::<_, ApiFailureView>(
                (status, info@),
            ),
            Err(f) => creation_answer(svc@, sent) == Err::<(StatusCode, ServiceInfoView), _>(f@),
        },
{
    if sent {
        Ok((StatusCode::Created, show(svc)))
    } else {
        Err(failure(StatusCode::InternalServerError, "Failed to add service"))
    }
}

/// The name of the service that the running server has to delete for a request.
pub open spec fn deletion(
    state: ApiView,
    fields: Map<Seq<char>, Seq<Seq<u8>>>,
    name: Seq<char>,
) -> Result<Seq<char>, ApiFailureView> {
    match refusal(state.config, fields) {
        Some(f) => Err(f),
        None => match state.service(name) {
            Some(_) => Ok(name),
            None => Err(service_not_found(name)),
        },
    }
}

/// Begin to delete a service: where the request is let in and the service is
/// there, the running server has to be told of this change.
pub fn delete_service(state: &mut ApiState, headers: &HeaderMap<HeaderValue>, name: &str) -> (r:
    Result<ServerServiceChange, ApiFailure>)
    ensures
        final(state).services@ == old(state).services@,
        match refusal(old(state)@.config, header_fields(*headers)) {
            Some(f) => final(state)@ == old(state)@ && (r matches Err(e) && e@ == f),
            None => {
                &&& final(state)@ == old(state)@.synced()
                &&& match old(state)@.service(name@) {
                    Some(_) => r matches Ok(ServerServiceChange::Delete(n)) && n@ == name@,
                    None => r matches Err(e) && e@ == service_not_found(name@),
                }
            },
        },
        final(state)@ == state_after_question(old(state)@, header_fields(*headers)),
        match deletion(old(state)@, header_fields(*headers), name@) {
            Ok(deleted) => r matches Ok(ServerServiceChange::Delete(n)) && n@ == deleted,
            Err(f) => r matches Err(e) && e@ == f,
        },
{
    match validate_token(state, headers) {
        Err(f) => Err(f),
        Ok(_) => {
            state.sync_services_by_name();
            if state.services_by_name.contains_key(name) {
                Ok(ServerServiceChange::Delete(name.to_owned()))
            } else {
                Err(not_found(name))
            }
        },
    }
}

/// The answer once the running server was told to delete a service, or could not
/// be told.
pub open spec fn deletion_answer(sent: bool) -> Result<StatusCode, ApiFailureView> {
    if sent {
        Ok(StatusCode::NoContent)
    } else {
        Err(
            ApiFailureView {
                status: StatusCode::InternalServerError,
                error: "Failed to delete service"@,
            },
        )
    }
}

/// Answer a request to delete a service once the running server was told of it,
/// or could not be told.
pub fn service_deleted(sent: bool) -> (r: Result<StatusCode, ApiFailure>)
    ensures
        sent ==> r == Ok::<StatusCode, ApiFailure>(StatusCode::NoContent),
        !sent ==> (r matches Err(f) && f@ == (ApiFailureView {
            status: StatusCode::InternalServerError,
            error: "Failed to delete service"@,
        })),
        match r {
            Ok(status) => deletion_answer(sent) == Ok::<StatusCode, ApiFailureView>(status),
            Err(f) => deletion_answer(sent) == Err::<StatusCode, ApiFailureView>(f@),
        },
{
    if sent {
        Ok(StatusCode::NoContent)
    } else {
        Err(failure(StatusCode::InternalServerError, "Failed to delete service"))
    }
}

/// How a service of a stored client configuration is handed out: under the name
/// that it is stored under.
pub open spec fn handed_out(name: Seq<char>, svc: ClientServiceView) -> ClientServiceInfoView {
    ClientServiceInfoView {
        name,
        service_type: type_text(svc.service_type),
        local_addr: svc.local_addr,
        bind_addr: svc.bind_addr,
    }
}

/// The services of a stored client configuration as they are handed out.
pub open spec fn handed_out_services(services: Map<Seq<char>, ClientServiceView>) -> Map<
    Seq<char>,
    ClientServiceInfoView,
> {
    Map::new(|k: Seq<char>| services.contains_key(k), |k: Seq<char>| handed_out(k, services[k]))
}

fn hand_out_services(services: &NameMap<ClientServiceConfig>) -> (r: NameMap<ClientServiceInfo>)
    ensures
        r@ == handed_out_services(services@),
{
    let ghost entries = services.listing();
    let n = services.len();
    let mut out: NameMap<ClientServiceInfo> = NameMap::new();
    let mut i: usize = 0;
    assert(entries.take(0) =~= Seq::empty());
    assert(out@ =~= handed_out_services(listed_map(entries.take(0))));
    while i < n
        invariant
            i <= n,
            n == entries.len(),
            entries == services.listing(),
            out@ == handed_out_services(listed_map(entries.take(i as int))),
        decreases n - i,
    {
        let name = services.name_at(i);
        let svc = services.value_at(i);
        let ghost before = listed_map(entries.take(i as int));
        out.insert(
            name.clone(),
            ClientServiceInfo {
                name: name.clone(),
                service_type: svc.service_type.text(),
                local_addr: svc.local_addr.clone(),
                bind_addr: copy_text(&svc.bind_addr),
            },
        );
        proof {
            assert(entries.take(i + 1).drop_last() =~= entries.take(i as int));
            assert(entries.take(i + 1).last() == entries[i as int]);
            assert(out@ =~= handed_out_services(before.insert(name@, svc@)));
        }
        i = i + 1;
    }
    assert(entries.take(i as int) =~= entries);
    out
}

/// The answer about the configuration of a token that has none.
pub open spec fn config_not_found() -> ApiFailureView {
    ApiFailureView { status: StatusCode::NotFound, error: "No configuration found for token"@ }
}

impl ApiView {
    /// The client configuration of a token as it is handed out.
    pub open spec fn client_config(self, token: Seq<char>) -> Option<ClientConfigResponseView> {
        if self.client_configs.contains_key(token) {
            Some(
                ClientConfigResponseView {
                    remote_addr: self.server_bind_addr,
                    services: handed_out_services(self.client_configs[token].services),
                },
            )
        } else {
            None
        }
    }
}

fn hand_out(state: &ApiState, stored: &StoredClientConfig) -> (r: ClientConfigResponse)
    ensures
        r@ == (ClientConfigResponseView {
            remote_addr: state@.server_bind_addr,
            services: handed_out_services(stored@.services),
        }),
{
    ClientConfigResponse {
        remote_addr: state.server_bind_addr.clone(),
        services: hand_out_services(&stored.services),
    }
}

/// The answer to a question for the client configuration of a token.
pub open spec fn client_config_answer(state: ApiView, token: Seq<char>) -> Result<
    ClientConfigResponseView,
    ApiFailureView,
> {
    match state.client_config(token) {
        Some(config) => Ok(config),
        None => Err(config_not_found()),
    }
}

/// Get the client configuration of a token. The token lets the request in; no
/// other is needed.
pub fn get_client_config(state: &ApiState, token: &str) -> (r: Result<
    ClientConfigResponse,
    ApiFailure,
>)
    ensures
        match state@.client_config(token@) {
            Some(config) => r matches Ok(c) && c@ == config,
            None => r matches Err(e) && e@ == config_not_found(),
        },
        answered(r, client_config_answer(state@, token@)),
{
    match state.client_configs.get(token) {
        Some(stored) => Ok(hand_out(state, stored)),
        None => Err(failure(StatusCode::NotFound, "No configuration found for token")),
    }
}

/// The type of the first entry whose service type is none.
pub open spec fn first_invalid_type(entries: Seq<(Seq<char>, ClientServiceInfoView)>) -> Option<
    Seq<char>,
>
    decreases entries.len(),
{
    if entries.len() == 0 {
        None
    } else if named_type(entries[0].1.service_type) is None {
        Some(entries[0].1.service_type)
    } else {
        first_invalid_type(entries.drop_first())
    }
}

/// How a service that was sent for a token is stored.
pub open spec fn stored_service(
    token: Seq<char>,
    name: Seq<char>,
    info: ClientServiceInfoView,
) -> ClientServiceView {
    ClientServiceView {
        service_type: match named_type(info.service_type) {
            Some(t) => t,
            None => ServiceType::Tcp,
        },
        name,
        local_addr: info.local_addr,
        prefer_ipv6: false,
        token: Some(token),
        nodelay: None,
        retry_interval: None,
        bind_addr: info.bind_addr,
    }
}

/// How the services that were sent for a token are stored.
pub open spec fn stored_services(
    token: Seq<char>,
    services: Map<Seq<char>, ClientServiceInfoView>,
) -> Map<Seq<char>, ClientServiceView> {
    Map::new(
        |k: Seq<char>| services.contains_key(k),
        |k: Seq<char>| stored_service(token, k, services[k]),
    )
}

impl ApiView {
    /// The state once the services that were sent for a token are stored.
    pub open spec fn with_client_config(
        self,
        token: Seq<char>,
        services: Map<Seq<char>, ClientServiceInfoView>,
    ) -> ApiView {
        ApiView {
            client_configs: self.client_configs.insert(
                token,
                StoredClientView { services: stored_services(token, services) },
            ),
            ..self
        }
    }

    /// The state without the client configuration of a token.
    pub open spec fn without_client_config(self, token: Seq<char>) -> ApiView {
        ApiView { client_configs: self.client_configs.remove(token), ..self }
    }
}

fn store_services(token: &str, services: &NameMap<ClientServiceInfo>) -> (r: Result<
    NameMap<ClientServiceConfig>,
    String,
>)
    ensures
        match r {
            Ok(stored) => first_invalid_type(services.listing()) is None && stored@
                == stored_services(token@, services@),
            Err(bad) => first_invalid_type(services.listing()) == Some(bad@),
        },
{
    let ghost entries = services.listing();
    let n = services.len();
    let mut out: NameMap<ClientServiceConfig> = NameMap::new();
    let mut i: usize = 0;
    proof {
        assert(entries.take(0) =~= Seq::empty());
        assert(entries.skip(0) =~= entries);
        assert(out@ =~= stored_services(token@, listed_map(entries.take(0))));
    }
    while i < n
        invariant
            i <= n,
            n == entries.len(),
            entries == services.listing(),
            out@ == stored_services(token@, listed_map(entries.take(i as int))),
            first_invalid_type(entries) == first_invalid_type(entries.skip(i as int)),
        decreases n - i,
    {
        let name = services.name_at(i);
        let info = services.value_at(i);
        let ghost before = listed_map(entries.take(i as int));
        assert(entries.skip(i as int)[0] == entries[i as int]);
        let service_type = match ServiceType::named(info.service_type.as_str()) {
            Some(service_type) => service_type,
            None => {
                return Err(info.service_type.clone());
            },
        };
        out.insert(
            name.clone(),
            ClientServiceConfig {
                service_type,
                name: name.clone(),
                local_addr: info.local_addr.clone(),
                prefer_ipv6: false,
                token: Some(MaskedString::from(token)),
                nodelay: None,
                retry_interval: None,
                bind_addr: copy_text(&info.bind_addr),
            },
        );
        proof {
            assert(entries.skip(i as int).drop_first() =~= entries.skip(i + 1));
            assert(entries.take(i + 1).drop_last() =~= entries.take(i as int));
            assert(entries.take(i + 1).last() == entries[i as int]);
            assert(out@ =~= stored_services(token@, before.insert(name@, info@)));
        }
        i = i + 1;
    }
    proof {
        assert(entries.take(i as int) =~= entries);
        assert(entries.skip(i as int) =~= Seq::empty());
    }
    Ok(out)
}

/// The state of the interface after a request to store a client configuration:
/// `entries` are the services that were sent.
pub open spec fn state_after_storing(
    state: ApiView,
    fields: Map<Seq<char>, Seq<Seq<u8>>>,
    token: Seq<char>,
    entries: Seq<(Seq<char>, ClientServiceInfoView)>,
) -> ApiView {
    if refusal(state.config, fields) is Some || first_invalid_type(entries) is Some {
        state
    } else {
        state.with_client_config(token, listed_map(entries))
    }
}

/// The answer to a request to store a client configuration.
pub open spec fn storing_answer(
    state: ApiView,
    fields: Map<Seq<char>, Seq<Seq<u8>>>,
    token: Seq<char>,
    entries: Seq<(Seq<char>, ClientServiceInfoView)>,
) -> Result<(StatusCode, ClientConfigResponseView), ApiFailureView> {
    match refusal(state.config, fields) {
        Some(f) => Err(f),
        None => match first_invalid_type(entries) {
            Some(bad) => Err(invalid_type(bad)),
            None => Ok(
                (
                    StatusCode::Created,
                    ClientConfigResponseView {
                        remote_addr: state.server_bind_addr,
                        services: handed_out_services(stored_services(token, listed_map(entries))),
                    },
                ),
            ),
        },
    }
}

/// Create or update the client configuration of a token. Needs the token of the
/// interface.
pub fn create_client_config(
    state: &mut ApiState,
    headers: &HeaderMap<HeaderValue>,
    token: &str,
    req: &CreateClientConfigRequest,
) -> (r: Result<(StatusCode, ClientConfigResponse), ApiFailure>)
    ensures
        final(state).services@ == old(state).services@,
        match refusal(old(state)@.config, header_fields(*headers)) {
            Some(f) => final(state)@ == old(state)@ && (r matches Err(e) && e@ == f),
            None => match first_invalid_type(req.services.listing()) {
                Some(bad) => final(state)@ == old(state)@ && (r matches Err(e) && e@
                    == invalid_type(bad)),
                None => {
                    &&& final(state)@ == old(state)@.with_client_config(token@, req.services@)
                    &&& r matches Ok((status, response)) && status == StatusCode::Created && Some(
                        response@,
                    ) == final(state)@.client_config(token@)
                },
            },
        },
        final(state)@ == state_after_storing(
            old(state)@,
            header_fields(*headers),
            token@,
            req.services.listing(),
        ),
        match r {
            Ok((status, response)) => storing_answer(
                old(state)@,
                header_fields(*headers),
                token@,
                req.services.listing(),
            ) == Ok::<_, ApiFailureView>((status, response@)),
            Err(f) => storing_answer(
                old(state)@,
                header_fields(*headers),
                token@,
                req.services.listing(),
            ) == Err::<(StatusCode, ClientConfigResponseView), _>(f@),
        },
{
    match validate_token(state, headers) {
        Err(f) => {
            return Err(f);
        },
        Ok(_) => {},
    }
    let services = match store_services(token, &req.services) {
        Ok(services) => services,
        Err(bad) => {
            let error = concat("Invalid service type: ", bad.as_str());
            return Err(failure(StatusCode::BadRequest, error.as_str()));
        },
    };
    let stored = StoredClientConfig { services };
    let response = hand_out(state, &stored);
    state.client_configs.insert(token.to_owned(), stored);
    Ok((StatusCode::Created, response))
}

/// The state of the interface after a request to delete a client configuration.
pub open spec fn state_after_config_deletion(
    state: ApiView,
    fields: Map<Seq<char>, Seq<Seq<u8>>>,
    token: Seq<char>,
) -> ApiView {
    if refusal(state.config, fields) is Some {
        state
    } else {
        state.without_client_config(token)
    }
}

/// The answer to a request to delete a client configuration.
pub open spec fn config_deletion_answer(
    state: ApiView,
    fields: Map<Seq<char>, Seq<Seq<u8>>>,
    token: Seq<char>,
) -> Result<StatusCode, ApiFailureView> {
    match refusal(state.config, fields) {
        Some(f) => Err(f),
        None => if state.client_configs.contains_key(token) {
            Ok(StatusCode::NoContent)
        } else {
            Err(config_not_found())
        },
    }
}

/// Delete the client configuration of a token. Needs the token of the
/// interface.
pub fn delete_client_config(
    state: &mut ApiState,
    headers: &HeaderMap<HeaderValue>,
    token: &str,
) -> (r: Result<StatusCode, ApiFailure>)
    ensures
        final(state).services@ == old(state).services@,
        match refusal(old(state)@.config, header_fields(*headers)) {
            Some(f) => final(state)@ == old(state)@ && (r matches Err(e) && e@ == f),
            None => {
                &&& final(state)@ == old(state)@.without_client_config(token@)
                &&& if old(state)@.client_configs.contains_key(token@) {
                    r == Ok::<StatusCode, ApiFailure>(StatusCode::NoContent)
                } else {
                    r matches Err(e) && e@ == config_not_found()
                }
            },
        },
        final(state)@ == state_after_config_deletion(
            old(state)@,
            header_fields(*headers),
            token@,
        ),
        match r {
            Ok(status) => config_deletion_answer(old(state)@, header_fields(*headers), token@)
                == Ok::<StatusCode, ApiFailureView>(status),
            Err(f) => config_deletion_answer(old(state)@, header_fields(*headers), token@)
                == Err::<StatusCode, ApiFailureView>(f@),
        },
{
    match validate_token(state, headers) {
        Err(f) => {
            return Err(f);
        },
        Ok(_) => {},
    }
    match state.client_configs.remove(token) {
        Some(_) => Ok(StatusCode::NoContent),
        None => Err(failure(StatusCode::NotFound, "No configuration found for token")),
    }
}

/// All client configurations as they are handed out.
pub open spec fn all_client_configs(
    configs: Map<Seq<char>, StoredClientView>,
    remote_addr: Seq<char>,
) -> Map<Seq<char>, ClientConfigResponseView> {
    Map::new(
        |k: Seq<char>| configs.contains_key(k),
        |k: Seq<char>|
            ClientConfigResponseView {
                remote_addr,
                services: handed_out_services(configs[k].services),
            },
    )
}

/// The answer to a request for all client configurations.
pub open spec fn config_list(state: ApiView, fields: Map<Seq<char>, Seq<Seq<u8>>>) -> Result<
    Map<Seq<char>, ClientConfigResponseView>,
    ApiFailureView,
> {
    match refusal(state.config, fields) {
        Some(f) => Err(f),
        None => Ok(all_client_configs(state.client_configs, state.server_bind_addr)),
    }
}

/// List all client configurations. Needs the token of the interface.
pub fn list_client_configs(state: &ApiState, headers: &HeaderMap<HeaderValue>) -> (r: Result<
    NameMap<ClientConfigResponse>,
    ApiFailure,
>)
    ensures
        match refusal(state@.config, header_fields(*headers)) {
            Some(f) => r matches Err(e) && e@ == f,
            None => r matches Ok(list) && list@ == all_client_configs(
                state@.client_configs,
                state@.server_bind_addr,
            ),
        },
        answered(r, config_list(state@, header_fields(*headers))),
{
    match validate_token(state, headers) {
        Err(f) => {
            return Err(f);
        },
        Ok(_) => {},
    }
    let ghost entries = state.client_configs.listing();
    let ghost addr = state@.server_bind_addr;
    let n = state.client_configs.len();
    let mut out: NameMap<ClientConfigResponse> = NameMap::new();
    let mut i: usize = 0;
    proof {
        assert(entries.take(0) =~= Seq::empty());
        assert(out@ =~= all_client_configs(listed_map(entries.take(0)), addr));
    }
    while i < n
        invariant
            i <= n,
            n == entries.len(),
            entries == state.client_configs.listing(),
            addr == state@.server_bind_addr,
            out@ == all_client_configs(listed_map(entries.take(i as int)), addr),
        decreases n - i,
    {
        let token = state.client_configs.name_at(i);
        let stored = state.client_configs.value_at(i);
        let ghost before = listed_map(entries.take(i as int));
        out.insert(token.clone(), hand_out(state, stored));
        proof {
            assert(entries.take(i + 1).drop_last() =~= entries.take(i as int));
            assert(entries.take(i + 1).last() == entries[i as int]);
            assert(out@ =~= all_client_configs(before.insert(token@, stored@), addr));
        }
        i = i + 1;
    }
    assert(entries.take(i as int) =~= entries);
    Ok(out)
}

}
