//! The client's side of the control interface: the requests that it sends, how
//! it reads an answer, and what it makes of it.
//!
//! An answer is read piece by piece. A [`ResponseReader`] says which piece it
//! needs next, a line or a number of bytes, and is handed that piece.

use crate::api::{CreateServiceRequest, CreateServiceView};
use crate::config::{opt_view, type_text, ClientServiceConfig, ClientServiceView};
use crate::text::{
    ascii_lower, before_first, before_last, concat, concat3, decimal, decimal_text, from_utf8_lossy,
    has_prefix, lossy_text, lower, number_of, parse_number, same_ignoring_case, text_after,
    text_before, text_before_last, to_lower, trim, trim_text, words, words_of,
};
use vstd::prelude::*;
use vstd::string::*;
use vstd::utf8::encode_utf8;

verus! {

/// A service as the server shows it to a client.
#[derive(Debug)]
pub struct ServiceInfo {
    pub name: String,
    pub service_type: String,
    pub bind_addr: String,
}

/// What a service that is shown to a client says.
#[verifier::ext_equal]
pub struct ServiceInfoView {
    pub name: Seq<char>,
    pub service_type: Seq<char>,
    pub bind_addr: Seq<char>,
}

impl View for ServiceInfo {
    type V = ServiceInfoView;

    open spec fn view(&self) -> ServiceInfoView {
        ServiceInfoView {
            name: self.name@,
            service_type: self.service_type@,
            bind_addr: self.bind_addr@,
        }
    }
}

/// An answer of the server.
#[derive(Debug)]
pub struct HttpResponse {
    pub status: u16,
    pub body: String,
}

/// What an answer says.
#[verifier::ext_equal]
pub struct HttpResponseView {
    pub status: u16,
    pub body: Seq<char>,
}

impl View for HttpResponse {
    type V = HttpResponseView;

    open spec fn view(&self) -> HttpResponseView {
        HttpResponseView { status: self.status, body: self.body@ }
    }
}

/// Whether a status says that the request was met.
pub open spec fn success(status: u16) -> bool {
    200 <= status < 300
}

/// Whether a server is up that answered with this status, or did not answer.
pub open spec fn is_up(status: Option<u16>) -> bool {
    match status {
        Some(status) => success(status),
        None => false,
    }
}

/// What talks to the control interface at an address, with a token.
pub struct ApiClient {
    base_url: String,
    token: String,
}

/// What a client of the control interface knows.
#[verifier::ext_equal]
pub struct ApiClientView {
    pub base_url: Seq<char>,
    pub token: Seq<char>,
}

impl View for ApiClient {
    type V = ApiClientView;

    closed spec fn view(&self) -> ApiClientView {
        ApiClientView { base_url: self.base_url@, token: self.token@ }
    }
}

/// The request for a service that a client forwards: at any port where it names
/// no bind address, and with an empty token where it has none.
pub open spec fn service_request(service: ClientServiceView) -> CreateServiceView {
    CreateServiceView {
        name: service.name,
        service_type: type_text(service.service_type),
        bind_addr: match service.bind_addr {
            Some(addr) => addr,
            None => "0.0.0.0:0"@,
        },
        token: match service.token {
            Some(token) => token,
            None => ""@,
        },
    }
}

/// What a registration came to. `info` and `error` are what the body of the
/// answer reads as, where it reads as such.
pub open spec fn registration(
    name: Seq<char>,
    response: HttpResponseView,
    info: Option<ServiceInfoView>,
    error: Option<Seq<char>>,
) -> Result<ServiceInfoView, Seq<char>> {
    if success(response.status) {
        match info {
            Some(info) => Ok(info),
            None => Err("Failed to parse service info response"@),
        }
    } else {
        let reason = match error {
            Some(error) => error,
            None => response.body,
        };
        Err("Failed to register service '"@ + name + "': "@ + reason)
    }
}

/// The text of a request. Its length is given in bytes.
pub open spec fn request_text(
    client: ApiClientView,
    method: Seq<char>,
    path: Seq<char>,
    body: Option<Seq<char>>,
) -> Seq<char> {
    let content = match body {
        Some(body) => body,
        None => Seq::empty(),
    };
    method + " "@ + path + " HTTP/1.1\r\nHost: "@ + before_first(client.base_url, ':')
        + "\r\nAuthorization: Bearer "@ + client.token
        + "\r\nContent-Type: application/json\r\nContent-Length: "@ + decimal(
        encode_utf8(content).len(),
    ) + "\r\nConnection: close\r\n\r\n"@ + content
}

/// The text of the request that registers a service.
pub open spec fn registration_request(client: ApiClientView, body: Seq<char>) -> Seq<char> {
    request_text(client, "POST"@, "/api/services"@, Some(body))
}

/// The text of the request that asks whether the server is up.
pub open spec fn health_request(client: ApiClientView) -> Seq<char> {
    request_text(client, "GET"@, "/api/health"@, None)
}

impl ApiClient {
    /// What talks to the control interface at `api_addr`.
    pub fn new(api_addr: &str, token: &str) -> (r: Self)
        ensures
            r@ == (ApiClientView { base_url: api_addr@, token: token@ }),
    {
        ApiClient { base_url: api_addr.to_owned(), token: token.to_owned() }
    }

    /// The address of the control interface.
    pub fn address(&self) -> (r: &str)
        ensures
            r@ == self@.base_url,
    {
        self.base_url.as_str()
    }

    /// The request that registers a service.
    pub fn service_request(&self, service: &ClientServiceConfig) -> (r: CreateServiceRequest)
        ensures
            r@ == service_request(service@),
    {
        CreateServiceRequest {
            name: service.name.clone(),
            service_type: service.service_type.text(),
            bind_addr: match &service.bind_addr {
                Some(addr) => addr.clone(),
                None => "0.0.0.0:0".to_owned(),
            },
            token: match &service.token {
                Some(token) => token.as_str().to_owned(),
                None => "".to_owned(),
            },
        }
    }

    /// What the registration of a service came to, once the answer is there.
    /// `info` and `error` are what the body of the answer reads as, where it
    /// reads as such.
    pub fn register_service(
        &self,
        service: &ClientServiceConfig,
        response: &HttpResponse,
        info: Option<ServiceInfo>,
        error: Option<String>,
    ) -> (r: Result<ServiceInfo, String>)
        ensures
            match r {
                Ok(i) => registration(
                    service@.name,
                    response@,
                    opt_view(info),
                    opt_view(error),
                ) == Ok::<ServiceInfoView, Seq<char>>(i@),
                Err(e) => registration(
                    service@.name,
                    response@,
                    opt_view(info),
                    opt_view(error),
                ) == Err::<ServiceInfoView, Seq<char>>(e@),
            },
    {
        if response.status >= 200 && response.status < 300 {
            match info {
                Some(info) => Ok(info),
                None => Err("Failed to parse service info response".to_owned()),
            }
        } else {
            let reason = match &error {
                Some(error) => error,
                None => &response.body,
            };
            let mut e = concat3("Failed to register service '", service.name.as_str(), "': ");
            e.append(reason.as_str());
            Err(e)
        }
    }

    /// Whether the server can be reached and is up, once it answered or could not
    /// be reached.
    pub fn health_check(&self, response: &Result<HttpResponse, String>) -> (r: Result<bool, String>)
        ensures
            r == Ok::<bool, String>(
                match response {
                    Ok(answer) => success(answer.status),
                    Err(_) => false,
                },
            ),
            r == Ok::<bool, String>(
                is_up(
                    match response {
                        Ok(answer) => Some(answer.status),
                        Err(_) => None,
                    },
                ),
            ),
    {
        match response {
            Ok(answer) => Ok(answer.status >= 200 && answer.status < 300),
            Err(_) => Ok(false),
        }
    }

    /// The text of the request that registers a service: `body` is what
    /// [`ApiClient::service_request`] gives, in JSON.
    pub fn registration_request_text(&self, body: &str) -> (r: String)
        ensures
            r@ == request_text(self@, "POST"@, "/api/services"@, Some(body@)),
            r@ == registration_request(self@, body@),
    {
        self.http_request("POST", "/api/services", Some(body))
    }

    /// The text of the request that asks whether the server is up.
    pub fn health_request_text(&self) -> (r: String)
        ensures
            r@ == request_text(self@, "GET"@, "/api/health"@, None),
            r@ == health_request(self@),
    {
        self.http_request("GET", "/api/health", None)
    }

    /// The text of a request.
    pub fn http_request(&self, method: &str, path: &str, body: Option<&str>) -> (r: String)
        ensures
            r@ == request_text(
                self@,
                method@,
                path@,
                match body {
                    Some(b) => Some(b@),
                    None => None,
                },
            ),
    {
        let content: &str = match body {
            Some(b) => b,
            None => "",
        };
        proof {
            reveal_strlit("");
            assert(""@ =~= Seq::empty());
        }
        let length = content.as_bytes().len();
        let mut r = concat3(method, " ", path);
        r.append(" HTTP/1.1\r\nHost: ");
        r.append(text_before(self.base_url.as_str(), ':'));
        r.append("\r\nAuthorization: Bearer ");
        r.append(self.token.as_str());
        r.append("\r\nContent-Type: application/json\r\nContent-Length: ");
        r.append(decimal_text(length).as_str());
        r.append("\r\nConnection: close\r\n\r\n");
        r.append(content);
        r
    }
}

/// The status in the first line of an answer: its second word.
pub open spec fn status_code(line: Seq<char>) -> Result<u16, Seq<char>> {
    let parts = words(line);
    if parts.len() >= 2 {
        match parse_number(parts[1], 10, 65535) {
            Some(n) => Ok(n as u16),
            None => Err("Invalid status code: "@ + line),
        }
    } else {
        Err("Invalid status line: "@ + line)
    }
}

/// The status in the first line of an answer, such as `HTTP/1.1 200 OK`.
pub fn parse_status_code(status_line: &str) -> (r: Result<u16, String>)
    ensures
        match r {
            Ok(status) => status_code(status_line@) == Ok::<u16, Seq<char>>(status),
            Err(e) => status_code(status_line@) == Err::<u16, Seq<char>>(e@),
        },
{
    let parts = words_of(status_line);
    let ghost views = parts@.map_values(|p: String| p@);
    assert(views.len() == parts@.len());
    if parts.len() < 2 {
        return Err(concat("Invalid status line: ", status_line));
    }
    assert(views[1] == parts@[1]@);
    match number_of(parts[1].as_str(), 10) {
        Some(n) => {
            if n <= 65535 {
                return Ok(n as u16);
            }
        },
        None => {},
    }
    Err(concat("Invalid status code: ", status_line))
}

/// How far an answer has been read.
pub enum ResponseReader {
    /// Nothing yet.
    Status,
    /// Up to some line of the head.
    Head { status: u16, content_length: usize, chunked: bool },
    /// Up to a body of this many bytes.
    FixedBody { status: u16, length: usize },
    /// Up to the size of the next chunk.
    ChunkSize { status: u16, body: String },
    /// Up to the bytes of a chunk.
    ChunkData { status: u16, body: String, size: usize },
    /// Up to the line break that ends a chunk.
    ChunkEnd { status: u16, body: String },
    /// To the end.
    Done(HttpResponse),
}

/// What a reader knows.
#[verifier::ext_equal]
pub enum ReaderView {
    Status,
    Head { status: u16, content_length: usize, chunked: bool },
    FixedBody { status: u16, length: usize },
    ChunkSize { status: u16, body: Seq<char> },
    ChunkData { status: u16, body: Seq<char>, size: usize },
    ChunkEnd { status: u16, body: Seq<char> },
    Done(HttpResponseView),
}

impl View for ResponseReader {
    type V = ReaderView;

    open spec fn view(&self) -> ReaderView {
        match *self {
            ResponseReader::Status => ReaderView::Status,
            ResponseReader::Head { status, content_length, chunked } => ReaderView::Head {
                status,
                content_length,
                chunked,
            },
            ResponseReader::FixedBody { status, length } => ReaderView::FixedBody {
                status,
                length,
            },
            ResponseReader::ChunkSize { status, body } => ReaderView::ChunkSize {
                status,
                body: body@,
            },
            ResponseReader::ChunkData { status, body, size } => ReaderView::ChunkData {
                status,
                body: body@,
                size,
            },
            ResponseReader::ChunkEnd { status, body } => ReaderView::ChunkEnd {
                status,
                body: body@,
            },
            ResponseReader::Done(response) => ReaderView::Done(response@),
        }
    }
}

/// The piece of an answer that a reader needs next.
#[derive(Debug, Clone, Copy, PartialEq, Eq, Structural)]
pub enum Need {
    /// A line, with the line break that ends it. At the end of the input it is
    /// empty.
    Line,
    /// Exactly this many bytes.
    Bytes(usize),
    /// This many bytes, which are not looked at and may be missing.
    Skip(usize),
    /// None: the answer is read.
    Nothing,
}

/// A numeral, or zero where it is none.
pub open spec fn size_or_zero(s: Seq<char>, radix: nat) -> usize {
    match parse_number(trim(s), radix, usize::MAX as nat) {
        Some(n) => n as usize,
        None => 0,
    }
}

fn read_size(s: &str, radix: usize) -> (r: usize)
    requires
        2 <= radix <= 16,
    ensures
        r == size_or_zero(s@, radix as nat),
{
    match number_of(trim_text(s), radix) {
        Some(n) => n,
        None => 0,
    }
}

/// The length that a line of the head announces, if it announces one. `line` is
/// in lower case.
pub open spec fn announced_length(line: Seq<char>) -> Option<usize> {
    if "content-length:"@.is_prefix_of(line) {
        Some(size_or_zero(line.skip("content-length:"@.len() as int), 10))
    } else {
        None
    }
}

/// Whether a line of the head announces a body in chunks, if it is about that.
/// `line` is in lower case.
pub open spec fn announced_chunks(line: Seq<char>) -> Option<bool> {
    if "transfer-encoding:"@.is_prefix_of(line) {
        Some(
            ascii_lower(trim(line.skip("transfer-encoding:"@.len() as int))) == ascii_lower(
                "chunked"@,
            ),
        )
    } else {
        None
    }
}

/// How far an answer is read when its head has ended.
pub open spec fn head_read(status: u16, content_length: usize, chunked: bool) -> ReaderView {
    if chunked {
        ReaderView::ChunkSize { status, body: Seq::empty() }
    } else if content_length > 0 {
        ReaderView::FixedBody { status, length: content_length }
    } else {
        ReaderView::Done(HttpResponseView { status, body: Seq::empty() })
    }
}

impl ReaderView {
    /// The piece that is needed next.
    pub open spec fn need(self) -> Need {
        match self {
            ReaderView::Status => Need::Line,
            ReaderView::Head { .. } => Need::Line,
            ReaderView::FixedBody { length, .. } => Need::Bytes(length),
            ReaderView::ChunkSize { .. } => Need::Line,
            ReaderView::ChunkData { size, .. } => Need::Bytes(size),
            ReaderView::ChunkEnd { .. } => Need::Skip(2),
            ReaderView::Done(_) => Need::Nothing,
        }
    }

    /// How far the answer is read with one line more.
    pub open spec fn with_line(self, line: Seq<char>) -> Result<ReaderView, Seq<char>> {
        match self {
            ReaderView::Status => match status_code(line) {
                Ok(status) => Ok(
                    ReaderView::Head { status, content_length: 0, chunked: false },
                ),
                Err(e) => Err(e),
            },
            ReaderView::Head { status, content_length, chunked } => {
                let text = trim(line);
                if text.len() == 0 {
                    Ok(head_read(status, content_length, chunked))
                } else {
                    Ok(
                        ReaderView::Head {
                            status,
                            content_length: match announced_length(lower(text)) {
                                Some(n) => n,
                                None => content_length,
                            },
                            chunked: match announced_chunks(lower(text)) {
                                Some(c) => c,
                                None => chunked,
                            },
                        },
                    )
                }
            },
            ReaderView::ChunkSize { status, body } => {
                let size = size_or_zero(line, 16);
                if size == 0 {
                    Ok(ReaderView::Done(HttpResponseView { status, body }))
                } else {
                    Ok(ReaderView::ChunkData { status, body, size })
                }
            },
            _ => Ok(self),
        }
    }

    /// How far the answer is read with the bytes that were needed.
    pub open spec fn with_bytes(self, bytes: Seq<u8>) -> ReaderView {
        match self {
            ReaderView::FixedBody { status, .. } => ReaderView::Done(
                HttpResponseView { status, body: lossy_text(bytes) },
            ),
            ReaderView::ChunkData { status, body, .. } => ReaderView::ChunkEnd {
                status,
                body: body + lossy_text(bytes),
            },
            _ => self,
        }
    }

    /// How far the answer is read once the bytes between two chunks are behind.
    pub open spec fn with_skip(self) -> ReaderView {
        match self {
            ReaderView::ChunkEnd { status, body } => ReaderView::ChunkSize { status, body },
            _ => self,
        }
    }
}

impl ResponseReader {
    /// A reader that has read nothing yet.
    pub fn new() -> (r: Self)
        ensures
            r@ == ReaderView::Status,
    {
        ResponseReader::Status
    }

    /// The piece that is needed next.
    pub fn need(&self) -> (r: Need)
        ensures
            r == self@.need(),
    {
        match self {
            ResponseReader::Status => Need::Line,
            ResponseReader::Head { .. } => Need::Line,
            ResponseReader::FixedBody { length, .. } => Need::Bytes(*length),
            ResponseReader::ChunkSize { .. } => Need::Line,
            ResponseReader::ChunkData { size, .. } => Need::Bytes(*size),
            ResponseReader::ChunkEnd { .. } => Need::Skip(2),
            ResponseReader::Done(_) => Need::Nothing,
        }
    }

    /// Read a line.
    pub fn read_line(self, line: &str) -> (r: Result<Self, String>)
        requires
            self@.need() == Need::Line,
        ensures
            match r {
                Ok(next) => self@.with_line(line@) == Ok::<ReaderView, Seq<char>>(next@),
                Err(e) => self@.with_line(line@) == Err::<ReaderView, Seq<char>>(e@),
            },
    {
        match self {
            ResponseReader::Status => match parse_status_code(line) {
                Ok(status) => Ok(
                    ResponseReader::Head { status, content_length: 0, chunked: false },
                ),
                Err(e) => Err(e),
            },
            ResponseReader::Head { status, content_length, chunked } => {
                let text = trim_text(line);
                if text.unicode_len() == 0 {
                    return Ok(end_of_head(status, content_length, chunked));
                }
                let name = to_lower(text);
                let low = name.as_str();
                proof {
                    reveal_strlit("content-length:");
                    reveal_strlit("transfer-encoding:");
                }
                let content_length = if has_prefix(low, "content-length:") {
                    read_size(text_after(low, 15), 10)
                } else {
                    content_length
                };
                let chunked = if has_prefix(low, "transfer-encoding:") {
                    same_ignoring_case(trim_text(text_after(low, 18)), "chunked")
                } else {
                    chunked
                };
                Ok(ResponseReader::Head { status, content_length, chunked })
            },
            ResponseReader::ChunkSize { status, body } => {
                let size = read_size(line, 16);
                if size == 0 {
                    Ok(ResponseReader::Done(HttpResponse { status, body }))
                } else {
                    Ok(ResponseReader::ChunkData { status, body, size })
                }
            },
            other => Ok(other),
        }
    }

    /// Read the bytes that are needed.
    pub fn read_bytes(self, bytes: &[u8]) -> (r: Self)
        requires
            self@.need() == Need::Bytes(bytes@.len() as usize),
        ensures
            r@ == self@.with_bytes(bytes@),
    {
        match self {
            ResponseReader::FixedBody { status, .. } => ResponseReader::Done(
                HttpResponse { status, body: from_utf8_lossy(bytes) },
            ),
            ResponseReader::ChunkData { status, body, .. } => {
                let body = concat(body.as_str(), from_utf8_lossy(bytes).as_str());
                ResponseReader::ChunkEnd { status, body }
            },
            other => other,
        }
    }

    /// Go on behind the bytes between two chunks.
    pub fn skipped(self) -> (r: Self)
        requires
            self@.need() is Skip,
        ensures
            r@ == self@.with_skip(),
    {
        match self {
            ResponseReader::ChunkEnd { status, body } => ResponseReader::ChunkSize {
                status,
                body,
            },
            other => other,
        }
    }
}

fn end_of_head(status: u16, content_length: usize, chunked: bool) -> (r: ResponseReader)
    ensures
        r@ == head_read(status, content_length, chunked),
{
    if chunked {
        ResponseReader::ChunkSize { status, body: String::new() }
    } else if content_length > 0 {
        ResponseReader::FixedBody { status, length: content_length }
    } else {
        ResponseReader::Done(HttpResponse { status, body: String::new() })
    }
}

/// The address of the control interface of a server: the one that is named, or
/// else that port of the server's host.
pub open spec fn derived_api_addr(
    remote_addr: Seq<char>,
    api_addr: Option<Seq<char>>,
    default_port: u16,
) -> Seq<char> {
    match api_addr {
        Some(addr) => addr,
        None => before_last(remote_addr, ':') + ":"@ + decimal(default_port as nat),
    }
}

/// The address of the control interface of a server: the one that is named, or
/// else that port of the server's host.
pub fn derive_api_addr(remote_addr: &str, api_addr: Option<&str>, default_port: u16) -> (r: String)
    ensures
        r@ == derived_api_addr(
            remote_addr@,
            match api_addr {
                Some(addr) => Some(addr@),
                None => None,
            },
            default_port,
        ),
{
    match api_addr {
        Some(addr) => addr.to_owned(),
        None => concat3(
            text_before_last(remote_addr, ':'),
            ":",
            decimal_text(default_port as usize).as_str(),
        ),
    }
}

}
