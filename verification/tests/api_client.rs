use rathole::api::StatusCode;
use rathole::api_client::{
    derive_api_addr, parse_status_code, ApiClient, HttpResponse, Need, ResponseReader, ServiceInfo,
};
use rathole::config::{ClientServiceConfig, MaskedString, ServiceType};

fn forwarded(bind_addr: Option<&str>, token: Option<&str>) -> ClientServiceConfig {
    ClientServiceConfig {
        service_type: ServiceType::Udp,
        name: "dns".to_string(),
        local_addr: "127.0.0.1:53".to_string(),
        prefer_ipv6: false,
        token: token.map(MaskedString::from),
        nodelay: None,
        retry_interval: None,
        bind_addr: bind_addr.map(|a| a.to_string()),
    }
}

fn answer(status: u16, body: &str) -> HttpResponse {
    HttpResponse { status, body: body.to_string() }
}

#[test]
fn request_for_a_service() {
    let client = ApiClient::new("n100:3000", "admin");
    let req = client.service_request(&forwarded(Some("0.0.0.0:53"), Some("secret")));
    assert_eq!(req.name, "dns");
    assert_eq!(req.service_type, "udp");
    assert_eq!(req.bind_addr, "0.0.0.0:53");
    assert_eq!(req.token, "secret");
    let req = client.service_request(&forwarded(None, None));
    assert_eq!(req.bind_addr, "0.0.0.0:0");
    assert_eq!(req.token, "");
}

#[test]
fn text_of_a_request_without_body() {
    let client = ApiClient::new("n100:3000", "admin");
    assert_eq!(client.address(), "n100:3000");
    assert_eq!(
        client.http_request("GET", "/api/health", None),
        "GET /api/health HTTP/1.1\r\nHost: n100\r\nAuthorization: Bearer admin\r\n\
         Content-Type: application/json\r\nContent-Length: 0\r\nConnection: close\r\n\r\n"
    );
}

#[test]
fn length_of_a_request_is_in_bytes() {
    let client = ApiClient::new("localhost", "t");
    assert_eq!(
        client.http_request("POST", "/api/services", Some("{\"name\":\"häß\"}")),
        "POST /api/services HTTP/1.1\r\nHost: localhost\r\nAuthorization: Bearer t\r\n\
         Content-Type: application/json\r\nContent-Length: 16\r\nConnection: close\r\n\r\n\
         {\"name\":\"häß\"}"
    );
}

fn info() -> ServiceInfo {
    ServiceInfo {
        name: "dns".to_string(),
        service_type: "udp".to_string(),
        bind_addr: "0.0.0.0:53".to_string(),
    }
}

#[test]
fn registered_service_is_told() {
    let client = ApiClient::new("n100:3000", "admin");
    for status in [StatusCode::Okay, StatusCode::Created] {
        let r = client.register_service(
            &forwarded(None, None),
            &answer(status.as_u16(), "{}"),
            Some(info()),
            None,
        );
        assert_eq!(r.unwrap().bind_addr, "0.0.0.0:53");
    }
}

#[test]
fn unreadable_registration_is_an_error() {
    let client = ApiClient::new("n100:3000", "admin");
    let r = client.register_service(&forwarded(None, None), &answer(299, "?"), None, None);
    assert_eq!(r.unwrap_err(), "Failed to parse service info response");
}

#[test]
fn refused_registration_is_an_error() {
    let client = ApiClient::new("n100:3000", "admin");
    let r = client.register_service(
        &forwarded(None, None),
        &answer(401, "{\"error\":\"Invalid token\"}"),
        None,
        Some("Invalid token".to_string()),
    );
    assert_eq!(r.unwrap_err(), "Failed to register service 'dns': Invalid token");
    let r = client.register_service(&forwarded(None, None), &answer(300, "moved"), Some(info()), None);
    assert_eq!(r.unwrap_err(), "Failed to register service 'dns': moved");
}

#[test]
fn server_is_up_where_it_answers_with_success() {
    let client = ApiClient::new("n100:3000", "admin");
    assert_eq!(client.health_check(&Ok(answer(200, ""))), Ok(true));
    assert_eq!(client.health_check(&Ok(answer(299, ""))), Ok(true));
    assert_eq!(client.health_check(&Ok(answer(199, ""))), Ok(false));
    assert_eq!(client.health_check(&Ok(answer(300, ""))), Ok(false));
    assert_eq!(client.health_check(&Err("no route".to_string())), Ok(false));
}

#[test]
fn status_is_the_second_word() {
    assert_eq!(parse_status_code("HTTP/1.1 200 OK\r\n"), Ok(200));
    assert_eq!(parse_status_code("  x\t404"), Ok(404));
    assert_eq!(parse_status_code("HTTP/1.1 65535"), Ok(65535));
    assert_eq!(parse_status_code("HTTP/1.1 +200"), Ok(200));
    assert_eq!(parse_status_code("HTTP/1.1\u{a0}\u{3000}201\u{2003}Created"), Ok(201));
}

#[test]
fn invalid_status_is_an_error() {
    for word in ["65536", "-1", "2x0", "+", "99999999999999999999999999"] {
        let line = format!("HTTP/1.1 {} OK\r\n", word);
        assert_eq!(parse_status_code(&line), Err(format!("Invalid status code: {}", line)));
    }
    for line in ["", "HTTP/1.1", "\r\n"] {
        assert_eq!(parse_status_code(line), Err(format!("Invalid status line: {}", line)));
    }
}

/// Reads an answer the way a socket hands it out.
fn read(input: &[u8]) -> Result<HttpResponse, String> {
    let mut at: usize = 0;
    let mut reader = ResponseReader::new();
    loop {
        match reader.need() {
            Need::Line => {
                let rest = &input[at..];
                let n = match rest.iter().position(|b| *b == b'\n') {
                    Some(n) => n + 1,
                    None => rest.len(),
                };
                let line = String::from_utf8(rest[..n].to_vec()).unwrap();
                at += n;
                reader = reader.read_line(&line)?;
            }
            Need::Bytes(n) => {
                if at + n > input.len() {
                    return Err("short".to_string());
                }
                reader = reader.read_bytes(&input[at..at + n]);
                at += n;
            }
            Need::Skip(n) => {
                at = std::cmp::min(at + n, input.len());
                reader = reader.skipped();
            }
            Need::Nothing => break,
        }
    }
    match reader {
        ResponseReader::Done(response) => Ok(response),
        _ => panic!("a reader that needs nothing is done"),
    }
}

#[test]
fn body_of_a_given_length() {
    let r = read(b"HTTP/1.1 201 Created\r\nServer: x\r\nContent-Length: 5\r\n\r\nhello world");
    let r = r.unwrap();
    assert_eq!(r.status, 201);
    assert_eq!(r.body, "hello");
}

#[test]
fn last_length_counts_and_an_unreadable_one_is_zero() {
    let r = read(b"HTTP/1.1 200 OK\r\ncontent-length: 5\r\nCONTENT-LENGTH:2\r\n\r\nhello").unwrap();
    assert_eq!(r.body, "he");
    let r = read(b"HTTP/1.1 200 OK\r\ncontent-length: 5\r\ncontent-length: x\r\n\r\nhello").unwrap();
    assert_eq!(r.body, "");
}

#[test]
fn answer_without_length_has_no_body() {
    let r = read(b"HTTP/1.1 204 No Content\r\n\r\n").unwrap();
    assert_eq!((r.status, r.body.as_str()), (204, ""));
    let r = read(b"HTTP/1.1 204").unwrap();
    assert_eq!((r.status, r.body.as_str()), (204, ""));
}

#[test]
fn body_in_chunks() {
    let r = read(
        b"HTTP/1.1 200 OK\r\nTransfer-Encoding: Chunked\r\nContent-Length: 3\r\n\r\n5\r\nhello\r\nA\r\n, world!!!\r\n0\r\n\r\n",
    )
    .unwrap();
    assert_eq!(r.body, "hello, world!!!");
}

#[test]
fn chunks_end_where_no_size_is_given() {
    let head = "HTTP/1.1 200 OK\r\nTransfer-Encoding: chunked\r\n\r\n";
    let r = read(format!("{}5\r\nhello\r\n", head).as_bytes()).unwrap();
    assert_eq!(r.body, "hello");
    let r = read(format!("{}5\r\nhello\r\n5;ext\r\nhello\r\n", head).as_bytes()).unwrap();
    assert_eq!(r.body, "hello");
}

#[test]
fn other_encodings_are_no_chunks() {
    let r = read(
        b"HTTP/1.1 200 OK\r\nTransfer-Encoding: chunked\r\nTransfer-Encoding: gzip\r\nContent-Length: 2\r\n\r\nok",
    )
    .unwrap();
    assert_eq!(r.body, "ok");
}

#[test]
fn bytes_that_are_no_text_are_replaced() {
    let r = read(b"HTTP/1.1 200 OK\r\nContent-Length: 4\r\n\r\na\xc3\xa4\xff").unwrap();
    assert_eq!(r.body, "a\u{e4}\u{fffd}");
    let r = read(
        b"HTTP/1.1 200 OK\r\nTransfer-Encoding: chunked\r\n\r\n1\r\n\xc3\r\n1\r\n\xa4\r\n0\r\n\r\n",
    )
    .unwrap();
    assert_eq!(r.body, "\u{fffd}\u{fffd}");
}

#[test]
fn answer_with_invalid_status_is_refused() {
    let r = read(b"nonsense\r\n\r\n");
    assert_eq!(r.err(), Some("Invalid status line: nonsense\r\n".to_string()));
}

#[test]
fn huge_sizes_are_asked_for_or_zero() {
    let size = format!("{:x}\r\n", usize::MAX);
    let reader = ResponseReader::ChunkSize { status: 200, body: String::new() };
    let reader = reader.read_line(&size).unwrap();
    assert_eq!(reader.need(), Need::Bytes(usize::MAX));
    let reader = ResponseReader::ChunkSize { status: 200, body: String::new() };
    let reader = reader.read_line(&format!("1{}", size)).unwrap();
    assert_eq!(reader.need(), Need::Nothing);
}

#[test]
fn address_of_the_interface_is_derived() {
    assert_eq!(derive_api_addr("n100:2333", None, 3000), "n100:3000");
    assert_eq!(derive_api_addr("n100", None, 0), "n100:0");
    assert_eq!(derive_api_addr("[::1]:2333", None, 65535), "[::1]:65535");
    assert_eq!(derive_api_addr("n100:2333", Some("other"), 3000), "other");
}

#[test]
fn requests_go_to_their_places() {
    let client = ApiClient::new("n100:3000", "admin");
    assert_eq!(
        client.registration_request_text("{}"),
        "POST /api/services HTTP/1.1\r\nHost: n100\r\nAuthorization: Bearer admin\r\n\
         Content-Type: application/json\r\nContent-Length: 2\r\nConnection: close\r\n\r\n{}"
    );
    assert_eq!(
        client.health_request_text(),
        client.http_request("GET", "/api/health", None)
    );
}

#[test]
fn chunk_sizes_are_read_in_either_case() {
    for size in [1usize, 9, 10, 15, 16, 255, 4096, 48879, usize::MAX] {
        for line in [format!("{:x}\r\n", size), format!("{:X}\r\n", size)] {
            let reader = ResponseReader::ChunkSize { status: 200, body: String::new() };
            assert_eq!(reader.read_line(&line).unwrap().need(), Need::Bytes(size));
        }
    }
}
