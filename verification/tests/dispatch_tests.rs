use bca_protocol::cli::CBCAIdentity;
use bca_protocol::client::build_instance_request;
use bca_protocol::client::build_message_request;
use bca_protocol::client::build_offer_request;
use bca_protocol::client::CBCAClient;
use bca_protocol::client::CBCAFlag;
use bca_protocol::fchain::CBCAConfig;
use bca_protocol::server::handle_instance_request;
use bca_protocol::server::handle_message_request;
use bca_protocol::server::handle_offer_request;
use bca_protocol::server::instance_response;
use bca_protocol::server::message_response;
use bca_protocol::server::offer_response;
use bca_protocol::server::CBCADomainError;
use bca_protocol::server::CBCARoutineAddr;

#[test]
fn message_request_round_trip() {
    let raw = build_message_request(
        "alice".to_string(),
        "hello there".to_string(),
        "abc-123".to_string(),
    );
    let m = handle_message_request(&raw).unwrap();
    assert_eq!(m.content, "hello there");
    assert_eq!(m.author, "alice");
    assert_eq!(m.instance_id, "abc-123");
}

#[test]
fn message_request_escapes_special_characters() {
    let content = "say \"hi\" and a \\ backslash".to_string();
    let raw = build_message_request("a".to_string(), content.clone(), "i".to_string());
    let m = handle_message_request(&raw).unwrap();
    assert_eq!(m.content, content);
}

#[test]
fn offer_request_round_trip() {
    let raw = build_offer_request(
        4200,
        Some("mine now".to_string()),
        "abc-123".to_string(),
        "bob".to_string(),
    );
    let o = handle_offer_request(&raw).unwrap();
    assert_eq!(o.amount, 4200);
    assert_eq!(o.author, "bob");
    assert_eq!(o.instance_id, "abc-123");
    assert_eq!(o.message, Some("mine now".to_string()));

    let bare = build_offer_request(1, None, "i".to_string(), "b".to_string());
    let o2 = handle_offer_request(&bare).unwrap();
    assert_eq!(o2.message, None);
}

#[test]
fn instance_request_round_trip() {
    let config = CBCAConfig::spawn(
        Some(3),
        true,
        Some(100),
        60,
        "d".to_string(),
        "n".to_string(),
        "USD".to_string(),
    )
    .unwrap();
    let tag = config.hash.clone();
    let (id, raw) = build_instance_request(config);
    assert_eq!(id.len(), 36);
    let p = handle_instance_request(&raw).unwrap();
    assert_eq!(p.instance_id, id);
    assert_eq!(p.config.limit_members, Some(3));
    assert!(p.config.private);
    assert_eq!(p.config.start_price, Some(100));
    assert_eq!(p.config.duration, 60);
    assert_eq!(p.config.currency, "USD");
    assert_eq!(p.config.hash, tag);
}

#[test]
fn fresh_identifiers_differ() {
    let config = || {
        CBCAConfig::spawn(None, false, None, 1, "d".to_string(), "n".to_string(), "E".to_string())
            .unwrap()
    };
    let (a, _) = build_instance_request(config());
    let (b, _) = build_instance_request(config());
    assert_ne!(a, b);
}

#[test]
fn bad_request_bodies_are_unknown_payloads() {
    assert_eq!(
        handle_message_request("{}").unwrap_err(),
        CBCADomainError::UnknownPayload
    );
    assert_eq!(
        handle_offer_request("nonsense").unwrap_err(),
        CBCADomainError::UnknownPayload
    );
    let almost = build_message_request("a".to_string(), "c".to_string(), "i".to_string());
    let with_tail = format!("{} ", almost);
    assert_eq!(
        handle_instance_request(&with_tail).unwrap_err(),
        CBCADomainError::UnknownPayload
    );
}

#[test]
fn response_frames() {
    let ok = message_response(true);
    assert!(ok.payload_type.is_data());
    assert_eq!(ok.payload_content, "true");
    let bad = offer_response(false);
    assert!(bad.payload_type.is_error());
    assert_eq!(bad.payload_content, "false");
    let created = instance_response(Some("the-id".to_string()));
    assert!(created.payload_type.is_data());
    assert_eq!(created.payload_content, "the-id");
    let refused = instance_response(None);
    assert!(refused.payload_type.is_error());
    assert_eq!(refused.payload_content, "queue doesnt push an instance.");
}

#[test]
fn routine_addr_formats() {
    let addr = CBCARoutineAddr::spawn("127.0.0.1".to_string(), "8686".to_string());
    assert_eq!(addr.get_full_addr(), "127.0.0.1:8686");
}

#[test]
fn client_picks_listener_by_flag() {
    let client = CBCAClient::spawn(
        "m:1".to_string(),
        "i:2".to_string(),
        "o:3".to_string(),
    );
    assert_eq!(client.addr_for(&CBCAFlag::IPM), "m:1");
    assert_eq!(client.addr_for(&CBCAFlag::IPI), "i:2");
    assert_eq!(client.addr_for(&CBCAFlag::IPO), "o:3");
}

#[test]
fn identity_getters() {
    let who = CBCAIdentity::spawn(
        "Ada".to_string(),
        "tok".to_string(),
        Some("inst-9".to_string()),
    );
    assert_eq!(who.get_display_name(), "Ada");
    assert_eq!(who.get_token(), "tok");
    assert_eq!(who.get_current_instance(), &Some("inst-9".to_string()));
}

#[test]
fn payload_extract() {
    let m = bca_protocol::payload::MPayload {
        content: "c".to_string(),
        author: "a".to_string(),
        instance_id: "i".to_string(),
    };
    let (content, author, id) = bca_protocol::payload::MPayload::extract(&m);
    assert_eq!((content.as_str(), author.as_str(), id.as_str()), ("c", "a", "i"));
}
