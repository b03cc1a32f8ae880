use bca_protocol::block::CBCABlockType;
use bca_protocol::encoding::chain_from_text;
use bca_protocol::fchain::CBCAConfig;
use bca_protocol::instance::CBCAInstance;
use bca_protocol::manager::append_message;
use bca_protocol::manager::append_offer;
use bca_protocol::manager::classify_create_dir;
use bca_protocol::manager::create_instance_artifacts;
use bca_protocol::manager::CBCAPersistenceError;
use bca_protocol::payload::MPayload;
use bca_protocol::queue::CBCAQueue;

fn sample_config() -> CBCAConfig {
    CBCAConfig::spawn(
        None,
        false,
        None,
        30,
        "desc".to_string(),
        "name".to_string(),
        "EUR".to_string(),
    )
    .unwrap()
}

#[test]
fn end_to_end_single_message() {
    let config = sample_config();
    let instance = CBCAInstance::spawn(config, "abc-123");
    let (dir, _offers, messages, _config_text) = create_instance_artifacts(&instance);
    assert_eq!(dir, "abc.123");
    let (new_text, block_hash) = append_message(
        &messages,
        "abc-123".to_string(),
        "hello".to_string(),
        "alice".to_string(),
        1000,
    )
    .unwrap();
    let chain = chain_from_text(&new_text).unwrap();
    assert_eq!(chain.chain.len(), 1);
    match &chain.chain[0].payload {
        CBCABlockType::MESSAGE(m) => {
            assert_eq!(m.content, "hello");
            assert_eq!(m.author, "alice");
        },
        _ => panic!("expected a message block"),
    }
    assert_eq!(chain.chain[0].previous_hash, None);
    assert_eq!(chain.chain[0].hash, Some(block_hash));
    assert!(chain.verify());
}

#[test]
fn empty_ledger_fails_fatally() {
    let r = append_message("", "i".to_string(), "c".to_string(), "a".to_string(), 0);
    assert_eq!(r.unwrap_err(), CBCAPersistenceError::EmptyLedger);
}

#[test]
fn unreadable_ledger_is_an_integrity_violation() {
    let r = append_message(
        "not a ledger at all",
        "i".to_string(),
        "c".to_string(),
        "a".to_string(),
        0,
    );
    assert_eq!(r.unwrap_err(), CBCAPersistenceError::SerializationError);
    let trailing = append_message(
        // a well-formed ledger followed by trailing garbage is refused too
        "{\"instance_id\":\"i\",\"chain\":[],\"hash\":null}x",
        "i".to_string(),
        "c".to_string(),
        "a".to_string(),
        0,
    );
    assert_eq!(trailing.unwrap_err(), CBCAPersistenceError::SerializationError);
}

#[test]
fn duplicate_create_refused() {
    let first = classify_create_dir(false, true);
    assert!(first.is_ok());
    let second = classify_create_dir(true, true);
    assert_eq!(second.unwrap_err(), CBCAPersistenceError::DirectoryExists);
    // and the artifacts of one instance are a pure function of it: retrying
    // the same creation would lay down the same bytes, changing nothing
    let a = create_instance_artifacts(&CBCAInstance::spawn(sample_config(), "x-1"));
    let b = create_instance_artifacts(&CBCAInstance::spawn(sample_config(), "x-1"));
    assert_eq!(a.0, b.0);
    assert_eq!(a.1, b.1);
    assert_eq!(a.2, b.2);
    assert_eq!(a.3, b.3);
}

#[test]
fn create_dir_io_failure() {
    assert_eq!(
        classify_create_dir(false, false).unwrap_err(),
        CBCAPersistenceError::IoFailure
    );
}

#[test]
fn n_appends_grow_ledger_to_n() {
    let instance = CBCAInstance::spawn(sample_config(), "abc-123");
    let (_, _, mut text, _) = create_instance_artifacts(&instance);
    let n = 5usize;
    for k in 0..n {
        let (new_text, _) = append_message(
            &text,
            "abc-123".to_string(),
            format!("m{}", k),
            "alice".to_string(),
            k as i64,
        )
        .unwrap();
        text = new_text;
    }
    let chain = chain_from_text(&text).unwrap();
    assert_eq!(chain.chain.len(), n);
    assert!(chain.verify());
    for k in 0..n {
        match &chain.chain[k].payload {
            CBCABlockType::MESSAGE(m) => assert_eq!(m.content, format!("m{}", k)),
            _ => panic!("expected a message block"),
        }
    }
}

#[test]
fn offers_ledger_appends() {
    let instance = CBCAInstance::spawn(sample_config(), "abc-123");
    let (_, offers, _, _) = create_instance_artifacts(&instance);
    let (new_text, _) = append_offer(
        &offers,
        "abc-123".to_string(),
        2500,
        "bob".to_string(),
        Some("mine".to_string()),
        77,
    )
    .unwrap();
    let chain = chain_from_text(&new_text).unwrap();
    assert_eq!(chain.chain.len(), 1);
    match &chain.chain[0].payload {
        CBCABlockType::OFFER(o) => {
            assert_eq!(o.amount, 2500);
            assert_eq!(o.author, "bob");
            assert_eq!(o.message, Some("mine".to_string()));
        },
        _ => panic!("expected an offer block"),
    }
    assert!(chain.verify());
}

#[test]
fn instance_add_message_and_offer() {
    let mut instance = CBCAInstance::spawn(sample_config(), "i-1");
    instance.add_message("hi".to_string(), "alice".to_string()).unwrap();
    instance.add_offer(900, "bob".to_string(), None).unwrap();
    assert_eq!(instance.messages_chain.len(), 1);
    assert_eq!(instance.offers_chain.len(), 1);
    assert!(instance.messages_chain.verify());
    assert!(instance.offers_chain.verify());
    assert!(!instance.started);
}

#[test]
fn queue_is_last_in_first_out() {
    let mut q = CBCAQueue::spawn();
    assert_eq!(q.len(), 0);
    for name in ["a", "b", "c"] {
        q.add_wait_action(CBCABlockType::MESSAGE(MPayload {
            content: name.to_string(),
            author: "x".to_string(),
            instance_id: "i".to_string(),
        }));
    }
    let mut order: Vec<String> = Vec::new();
    while let Some(item) = q.remove_wait_action() {
        match item {
            CBCABlockType::MESSAGE(m) => order.push(m.content),
            _ => panic!("expected a message item"),
        }
    }
    assert_eq!(order, vec!["c".to_string(), "b".to_string(), "a".to_string()]);
    assert!(q.remove_wait_action().is_none());
}

#[test]
fn generated_masse_blocks() {
    let id = "inst-7".to_string();
    let blocks = bca_protocol::debug::_dbg_generate_masse_message(2, &id);
    assert_eq!(blocks.len(), 2);
    for (k, b) in blocks.iter().enumerate() {
        assert!(b.hash.is_none());
        assert!(b.previous_hash.is_none());
        match &b.payload {
            CBCABlockType::MESSAGE(m) => {
                assert_eq!(m.content, format!("Message {}", k));
                assert_eq!(m.author, "Me");
                assert_eq!(m.instance_id, "inst-7");
            },
            _ => panic!("expected a message block"),
        }
    }
}

#[test]
fn generated_masse_data() {
    let data = bca_protocol::debug::_dbg_generate_masse_massage_data(3);
    assert_eq!(
        data,
        vec![
            ("Message 0".to_string(), "Me".to_string()),
            ("Message 1".to_string(), "Me".to_string()),
            ("Message 2".to_string(), "Me".to_string()),
        ]
    );
}
