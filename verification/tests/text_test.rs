use juicehost::error::{BlockReason, IoFailure, JuicehostError, Step, StorageError};
use juicehost::handlers::headers::{valid_header_value, Header, Headers};
use juicehost::handlers::upload::{BodyEvent, BodyItem, BodyWait, DeadlineBody, Sniff, SizedStream};
use juicehost::secrets::constant_time_eq;
use juicehost::server::{build_router, cors_origins, Endpoint, Guard};
use juicehost::text::{
    decimal_text, ends_with, hex_text, is_white_space, lower, parse_unsigned, split, starts_with,
    strip_prefix, trim, trim_end_char, trim_start_char,
};
use juicehost::ticket::{ticket_validation, verify_ticket_jwt, TicketError};

#[test]
fn white_space_is_that_of_unicode() {
    for n in 0..=0x10ffffu32 {
        if let Some(c) = char::from_u32(n) {
            assert_eq!(is_white_space(c), c.is_whitespace(), "{n:x}");
        }
    }
}

#[test]
fn text_functions_agree_with_std() {
    for s in ["", " ", "a", " a b\t", "\u{3000}x\u{a0}", "//a//", ",a,,b,", "\u{e9}A"] {
        assert_eq!(trim(s), s.trim());
        assert_eq!(trim_end_char(s, '/'), s.trim_end_matches('/'));
        assert_eq!(trim_start_char(s, '/'), s.trim_start_matches('/'));
        assert_eq!(split(s, ','), s.split(',').collect::<Vec<_>>());
        assert_eq!(lower(s), s.to_ascii_lowercase());
        assert_eq!(starts_with(s, " a"), s.starts_with(" a"));
        assert_eq!(ends_with(s, ","), s.ends_with(","));
        assert_eq!(strip_prefix(s, "/"), s.strip_prefix("/"));
    }
}

#[test]
fn numbers_agree_with_std() {
    for s in [
        "", "0", "+7", "-1", "007", "18446744073709551615", "18446744073709551616", "1 ", "+",
        "1a", "99999999999999999999999999",
    ] {
        assert_eq!(parse_unsigned(s, u64::MAX), s.parse::<u64>().ok(), "{s}");
        assert_eq!(
            parse_unsigned(s, u16::MAX as u64),
            s.parse::<u16>().ok().map(|n| n as u64),
            "{s}"
        );
    }
    for n in [0u64, 7, 10, 65535, u64::MAX] {
        assert_eq!(decimal_text(n), n.to_string());
        assert_eq!(parse_unsigned(&decimal_text(n), u64::MAX), Some(n));
        assert_eq!(hex_text(n as u128), format!("{n:x}"));
    }
    assert_eq!(hex_text(u128::MAX), format!("{:x}", u128::MAX));
}

#[test]
fn secrets_are_compared() {
    assert!(constant_time_eq("abc", "abc"));
    assert!(!constant_time_eq("abc", "abd"));
    assert!(!constant_time_eq("abc", "ab"));
    assert!(constant_time_eq("", ""));
    assert!(!constant_time_eq("\u{e9}", "e"));
}

#[test]
fn header_values() {
    assert!(valid_header_value("a b\tc"));
    assert!(valid_header_value("\u{e9}"));
    assert!(!valid_header_value("a\nb"));
    assert!(!valid_header_value("\u{7f}"));
    let headers = Headers {
        entries: vec![Header {
            name: "x-a".to_owned(),
            value: None,
        }],
    };
    assert!(headers.contains("x-a"));
    assert_eq!(headers.get("x-a"), None);
    assert!(!headers.contains("x-b"));
}

#[test]
fn deadline_body_terminates_after_timeout() {
    let body = DeadlineBody::new();
    assert_eq!(body.next(1_000_000, 1_000_000_000), BodyWait::Wait(1_000_000));
    let (body, item) = body.step(BodyEvent::TimedOut);
    assert_eq!(
        item,
        BodyItem::Failed("request body inactivity deadline exceeded".to_owned())
    );
    assert_eq!(body.next(1_000_000, 1_000_000_000), BodyWait::Ended);
    assert_eq!(body.step(BodyEvent::Chunk).1, BodyItem::End);
}

#[test]
fn deadline_body_ends_with_the_request() {
    let body = DeadlineBody::new();
    assert_eq!(body.next(5, 3), BodyWait::Wait(3));
    let (body, item) = body.step(BodyEvent::Chunk);
    assert_eq!(item, BodyItem::Chunk);
    assert_eq!(body.next(5, 0), BodyWait::TotalExceeded);
    let (body, item) = body.step(BodyEvent::TotalExceeded);
    assert_eq!(
        item,
        BodyItem::Failed("request body total deadline exceeded".to_owned())
    );
    assert!(!body.open);
    let failed = DeadlineBody::new().step(BodyEvent::Failed("e".to_owned()));
    assert_eq!(failed.1, BodyItem::Failed("e".to_owned()));
    assert_eq!(DeadlineBody::new().step(BodyEvent::End).1, BodyItem::End);
}

#[test]
fn sniffing_takes_the_first_bytes() {
    let sniff = Sniff::new().take(Ok(vec![1; 500])).unwrap();
    assert!(sniff.wants_more());
    let sniff = sniff.take(Ok(vec![2; 20])).unwrap();
    assert!(!sniff.wants_more());
    assert_eq!(sniff.prefix.len(), 512);
    assert_eq!(sniff.prefix[511], 2);
    assert_eq!(sniff.tail, Some(vec![2; 8]));
    assert_eq!(
        Sniff::new().take(Err("e".to_owned())),
        Err(JuicehostError::InternalServerError)
    );
}

#[test]
fn sized_streams() {
    let exact = SizedStream::new(5, Some(5));
    assert_eq!(exact.chunk(6), Err(StorageError::SizeMismatch));
    assert_eq!(exact.chunk(4).unwrap().finish(), Err(StorageError::SizeMismatch));
    assert_eq!(exact.chunk(5).unwrap().finish(), Ok(()));
    assert_eq!(
        SizedStream::new(5, None).chunk(6),
        Err(StorageError::PayloadTooLarge)
    );
    assert_eq!(
        SizedStream::failed("e".to_owned()),
        StorageError::Io(IoFailure::Failed(Step::RequestBody, "e".to_owned()))
    );
}

#[test]
fn storage_errors_as_replies() {
    for (error, status, code) in [
        (StorageError::NotFound, 404, "NOT_FOUND"),
        (StorageError::Conflict, 409, "CONFLICT"),
        (StorageError::Forbidden, 403, "FORBIDDEN"),
        (StorageError::InsufficientStorage, 507, "INSUFFICIENT_STORAGE"),
        (StorageError::PayloadTooLarge, 413, "PAYLOAD_TOO_LARGE"),
        (StorageError::SizeMismatch, 400, "SIZE_MISMATCH"),
        (
            StorageError::Io(IoFailure::NotRegular),
            500,
            "INTERNAL_SERVER_ERROR",
        ),
    ] {
        let answer = JuicehostError::from(error);
        assert_eq!((answer.status(), answer.code()), (status, code));
    }
    let blocked = JuicehostError::BlockedFileType(BlockReason::Kind("no".to_owned()));
    assert_eq!((blocked.status(), blocked.code()), (400, "BLOCKED_FILE_TYPE"));
    assert_eq!(JuicehostError::BadRequest.status(), 400);
    assert_eq!(JuicehostError::ServiceUnavailable.status(), 503);
}

#[test]
fn failure_messages() {
    let e = || "e".to_owned();
    for (failure, text) in [
        (IoFailure::Failed(Step::ReserveId, e()), "reserve ID failed: e"),
        (IoFailure::Failed(Step::S3MultipartInit, e()), "S3 multipart init failed: e"),
        (
            IoFailure::FailedFor(Step::S3List, "p".to_owned(), e()),
            "S3 list failed for p: e",
        ),
        (IoFailure::CopyPart("p".to_owned(), e()), "copy part p failed: e"),
        (IoFailure::InvalidLogicalId, "invalid logical ID"),
        (IoFailure::InvalidStoragePath, "invalid storage path"),
        (IoFailure::NotRegular, "storage path is not a regular file"),
        (
            IoFailure::RenameSourceNotRegular,
            "rename source is not a regular file",
        ),
        (
            IoFailure::PartNotRegular("p".to_owned()),
            "part p is not a regular file",
        ),
        (
            IoFailure::OutOfBounds(2, 10, 10),
            "range 2-10 out of bounds for 10 byte file",
        ),
        (IoFailure::UnexpectedEof, "unexpected EOF reading range"),
        (IoFailure::Message(e()), "e"),
    ] {
        assert_eq!(failure.message(), text);
    }
}

#[test]
fn routes() {
    let routes = build_router(1000);
    assert_eq!(routes.len(), 13);
    let find = |endpoint: Endpoint| *routes.iter().find(|r| r.endpoint == endpoint).unwrap();
    assert_eq!(find(Endpoint::Index).path, "/");
    assert_eq!(find(Endpoint::ServeFile).guard, Guard::NotBanned);
    assert_eq!(find(Endpoint::StoreFileTicket).guard, Guard::ApiKeyOrTicket);
    assert_eq!(find(Endpoint::ConcatFiles).body_limit, Some(64 * 1024));
    assert_eq!(find(Endpoint::StoreFile).body_limit, Some(1000));
    assert_eq!(find(Endpoint::Health).timeout, Some(300));
    for route in &routes {
        if route.path.starts_with("/internal/") {
            assert!(matches!(route.guard, Guard::ApiKey | Guard::ApiKeyOrTicket));
        }
    }
    assert_eq!(cors_origins(&vec![]), None);
    assert_eq!(
        cors_origins(&vec!["https://a".to_owned(), "b\n".to_owned()]),
        Some(vec!["https://a".to_owned()])
    );
}

fn claims(issuer: &str, exp: u64) -> serde_json::Value {
    let mut map = serde_json::Map::new();
    map.insert("iss".to_owned(), serde_json::Value::from(issuer));
    map.insert("exp".to_owned(), serde_json::Value::from(exp));
    map.insert("file_id".to_owned(), serde_json::Value::from("x"));
    serde_json::Value::Object(map)
}

fn sign(claims: &serde_json::Value, algorithm: jsonwebtoken::Algorithm, secret: &str) -> String {
    jsonwebtoken::encode(
        &jsonwebtoken::Header::new(algorithm),
        claims,
        &jsonwebtoken::EncodingKey::from_secret(secret.as_bytes()),
    )
    .unwrap()
}

#[test]
fn tickets() {
    let later = 32_503_680_000;
    let hs256 = jsonwebtoken::Algorithm::HS256;
    let good = claims("juiceback-ticket", later);
    let token = sign(&good, hs256, "s");
    let text = verify_ticket_jwt(&token, "s").unwrap();
    let read: serde_json::Value = serde_json::from_str(&text).unwrap();
    assert_eq!(read, good);
    assert!(matches!(verify_ticket_jwt(&token, "t"), Err(TicketError::Invalid(_))));
    let token = sign(&claims("another", later), hs256, "s");
    assert!(matches!(verify_ticket_jwt(&token, "s"), Err(TicketError::Invalid(_))));
    let token = sign(&claims("juiceback-ticket", 1), hs256, "s");
    assert!(matches!(verify_ticket_jwt(&token, "s"), Err(TicketError::Expired(_))));
    let token = sign(&good, jsonwebtoken::Algorithm::HS512, "s");
    assert!(matches!(verify_ticket_jwt(&token, "s"), Err(TicketError::Invalid(_))));
    let validation = ticket_validation();
    assert_eq!(validation.algorithm, "HS256");
    assert_eq!(validation.required, "exp");
    assert_eq!(validation.issuer, "juiceback-ticket");
}
