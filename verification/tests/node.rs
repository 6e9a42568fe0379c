use fangorn::contract::ink_pool::{DecryptionRequest, GenericData};
use fangorn::crypto::cipher::{
    aggregated_positions, parse_witnesses, plan_aggregation, DecryptSession, SessionAction,
    SessionEvent,
};
use fangorn::message::PartialDecryptionMessage;
use fangorn::node::announcement::{
    config_query, hint_queries, publish_config, publish_hint, publish_keys, DocKey, Tag,
};
use fangorn::node::client::{
    Dial, Node, PartialDecryptionHandler, Protocol, DELIVERY_LIMIT, ECHO_LIMIT, PD_ALPN,
};
use fangorn::node::service::{
    build_full_service, config_dump, created_document, document_source, made_system_keys,
    node_hint, DocumentSource, PeerAddr, PeerSocket, ServiceConfig, ServiceError, StartupStep,
    POLL_MILLIS,
};
use fangorn::node::sync::{
    on_doc_event, plan_system_keys, DocAction, DocEvent, EntryFetch, FetchAction, KeysError,
    KeysPlan, KeysUpdater,
};
use fangorn::node::worker::{DecryptionWork, WorkAction, WorkEvent};

const IDENTITY: &str = "d75a980182b10ab7d54bfed3c964073a0ee172f3daa62325af021a68f707511a";

const SOCKET: PeerSocket = PeerSocket::V4 { ip: [127, 0, 0, 1], port: 4000 };

fn config(is_bootstrap: bool) -> ServiceConfig {
    ServiceConfig {
        bind_port: 4000,
        rpc_port: 4001,
        index: 3,
        is_bootstrap,
        ticket: None,
        bootstrap_peers: None,
        predicate_registry_contract_addr: "registry".to_string(),
        request_pool_contract_addr: "pool".to_string(),
    }
}

fn request(witness_hex: &[u8]) -> DecryptionRequest {
    DecryptionRequest {
        filename: GenericData(b"file".to_vec()),
        witness_hex: GenericData(witness_hex.to_vec()),
        location: GenericData(b"there".to_vec()),
    }
}

fn work() -> DecryptionWork {
    DecryptionWork::begin(request(b"0aFF"), vec![42], 5).unwrap()
}

fn delivered(work: &mut DecryptionWork) -> Vec<u8> {
    work.step(WorkEvent::IntentFound { cid: vec![1] });
    work.step(WorkEvent::Verified { verdict: Ok(true) });
    work.step(WorkEvent::Fetched { ciphertext: Some(vec![2]) });
    match work.step(WorkEvent::Decrypted { partial_decryption: vec![7, 7] }) {
        WorkAction::Deliver { location, message } => {
            assert_eq!(location, b"there".to_vec());
            message
        }
        _ => unreachable!(),
    }
}

#[test]
fn work_goes_from_intent_to_attestation() {
    let mut work = work();
    assert_eq!(work.filename(), b"file".to_vec());
    assert!(matches!(
        work.step(WorkEvent::IntentFound { cid: vec![1, 1] }),
        WorkAction::Verify { witness } if witness == vec![0x0a, 0xff]
    ));
    assert!(matches!(
        work.step(WorkEvent::Verified { verdict: Ok(true) }),
        WorkAction::Fetch { cid } if cid == vec![1, 1]
    ));
    assert!(matches!(
        work.step(WorkEvent::Fetched { ciphertext: Some(vec![2]) }),
        WorkAction::Decrypt { ciphertext } if ciphertext == vec![2]
    ));
    let expected = PartialDecryptionMessage {
        filename: b"file".to_vec(),
        index: 5,
        partial_decryption_bytes: vec![7],
    }
    .encode();
    assert!(matches!(
        work.step(WorkEvent::Decrypted { partial_decryption: vec![7] }),
        WorkAction::Deliver { location, message }
            if location == b"there".to_vec() && message == expected
    ));
    assert!(matches!(
        work.step(WorkEvent::Echoed { response: expected }),
        WorkAction::Attest { id, attestation } if id == vec![42] && attestation.is_empty()
    ));
    assert!(matches!(work.step(WorkEvent::Attested), WorkAction::Close));
}

#[test]
fn work_needs_a_hexadecimal_witness() {
    assert!(DecryptionWork::begin(request(b"0"), vec![], 0).is_none());
    assert!(DecryptionWork::begin(request(b"0g"), vec![], 0).is_none());
    assert!(DecryptionWork::begin(request(b""), vec![], 0).is_some());
}

#[test]
fn refused_witnesses_end_the_work() {
    let mut refused = work();
    refused.step(WorkEvent::IntentFound { cid: vec![1] });
    assert!(matches!(
        refused.step(WorkEvent::Verified { verdict: Ok(false) }),
        WorkAction::Refuse
    ));
    let mut failed = work();
    failed.step(WorkEvent::IntentFound { cid: vec![1] });
    assert!(matches!(
        failed.step(WorkEvent::Verified { verdict: Err("no".to_string()) }),
        WorkAction::Fail { text } if text == "no"
    ));
}

#[test]
fn missing_ciphertexts_end_the_work() {
    let mut work = work();
    work.step(WorkEvent::IntentFound { cid: vec![1] });
    work.step(WorkEvent::Verified { verdict: Ok(true) });
    assert!(matches!(
        work.step(WorkEvent::Fetched { ciphertext: None }),
        WorkAction::Unavailable
    ));
}

#[test]
fn only_a_true_echo_is_attested() {
    let mut unreachable = work();
    delivered(&mut unreachable);
    assert!(matches!(unreachable.step(WorkEvent::Unreachable), WorkAction::GiveUp));
    let mut wrong = work();
    let mut message = delivered(&mut wrong);
    message.push(0);
    assert!(matches!(
        wrong.step(WorkEvent::Echoed { response: message }),
        WorkAction::Close
    ));
}

#[test]
fn deliveries_are_accepted_and_echoed() {
    let mut work = work();
    let message = delivered(&mut work);
    let accepted = PartialDecryptionHandler {}.accept(&message).unwrap();
    assert_eq!(accepted.message.filename, b"file".to_vec());
    assert_eq!(accepted.message.index, 5);
    assert_eq!(accepted.message.partial_decryption_bytes, vec![7, 7]);
    assert!(matches!(
        work.step(WorkEvent::Echoed { response: accepted.echo }),
        WorkAction::Attest { .. }
    ));
    assert!(PartialDecryptionHandler {}.accept(b"\xff").is_none());
}

#[test]
fn founders_start_in_order() {
    assert_eq!(
        build_full_service(&config(true)),
        vec![
            StartupStep::BuildNode { bind_port: 4000, index: 3 },
            StartupStep::ConnectPeers,
            StartupStep::SetUpDocument,
            StartupStep::OpenBackend,
            StartupStep::SpawnStateSync,
            StartupStep::Wait { seconds: 3 },
            StartupStep::LoadConfig,
            StartupStep::Wait { seconds: 1 },
            StartupStep::PublishHint { index: 3 },
            StartupStep::Wait { seconds: 1 },
            StartupStep::PublishSystemKeys,
            StartupStep::SpawnKeysUpdater,
            StartupStep::SpawnPoolWatcher { index: 3 },
        ]
    );
}

#[test]
fn joining_nodes_start_in_order() {
    let steps = build_full_service(&config(false));
    assert_eq!(steps.len(), 11);
    assert_eq!(steps[7], StartupStep::LoadPreviousHints { index: 3 });
    assert_eq!(steps[8], StartupStep::Wait { seconds: 1 });
    assert_eq!(steps[9], StartupStep::PublishHint { index: 3 });
    assert_eq!(steps[10], StartupStep::SpawnPoolWatcher { index: 3 });
    assert!(!steps.contains(&StartupStep::PublishSystemKeys));
}

fn read_socket(text: &str) -> Option<PeerSocket> {
    match text {
        "127.0.0.1:4000" => Some(SOCKET),
        _ => None,
    }
}

#[test]
fn peers_need_key_and_socket() {
    let key = || Some(IDENTITY.to_string());
    let socket = || Some("127.0.0.1:4000".to_string());
    let read = |pubkey: Option<String>, ip: Option<String>| {
        ServiceConfig::read_bootstrap_peers(pubkey, ip, read_socket)
    };
    let peers = read(key(), socket()).unwrap().unwrap();
    assert_eq!(peers.len(), 1);
    assert_eq!(peers[0].id.to_vec(), hex::decode(IDENTITY).unwrap());
    assert_eq!(peers[0].socket, SOCKET);
    let bad = || Some("x".to_string());
    assert!(read(bad(), None).unwrap().is_none());
    assert!(read(None, bad()).unwrap().is_none());
    assert!(read(None, None).unwrap().is_none());
    assert!(matches!(read(bad(), socket()), Err(ServiceError::InvalidPeer)));
    assert!(matches!(read(bad(), bad()), Err(ServiceError::InvalidPeer)));
    assert!(matches!(read(key(), bad()), Err(ServiceError::InvalidSocket)));
    assert_eq!(ServiceError::InvalidPeer.text(), "Invalid public key of a bootstrap peer");
    assert_eq!(ServiceError::InvalidSocket.text(), "Invalid socket of a bootstrap peer");
    let built = ServiceConfig::build_bootstrap_peers(key(), Some(SOCKET)).unwrap();
    assert_eq!(built.len(), 1);
    assert_eq!(built[0].socket, SOCKET);
    assert!(ServiceConfig::build_bootstrap_peers(bad(), None).is_none());
    assert!(ServiceConfig::build_bootstrap_peers(None, Some(SOCKET)).is_none());
}

#[test]
fn contracts_are_found_at_their_addresses() {
    let addresses = config(false).contract_addresses();
    assert_eq!(addresses.intents, "registry");
    assert_eq!(addresses.requests, "pool");
    assert_eq!(POLL_MILLIS, 100);
}

#[test]
fn sessions_follow_accepted_requests() {
    assert!(DecryptSession::after_request(Ok(())).is_some());
    assert!(DecryptSession::after_request(Err("no".to_string())).is_none());
}

#[test]
fn documents_are_created_or_joined() {
    assert!(matches!(
        document_source(true, Some("t".to_string())),
        Ok(DocumentSource::Create)
    ));
    assert!(matches!(document_source(true, None), Ok(DocumentSource::Create)));
    assert!(matches!(
        document_source(false, Some("t".to_string())),
        Ok(DocumentSource::Join { ticket }) if ticket == "t"
    ));
    let missing = document_source(false, None).unwrap_err();
    assert_eq!(missing, ServiceError::TicketRequired);
    assert_eq!(missing.text(), "Ticket required for non-bootstrap nodes");
}

#[test]
fn created_documents_are_written_down() {
    let created = created_document(&[1, 2], "ticket");
    assert_eq!(created.ticket_file, "ticket\n");
    assert_eq!(created.publication.announcement.tag, Tag::Config);
    assert_eq!(created.publication.announcement.data, vec![1, 2]);
    assert!(matches!(created.publication.key, DocKey::Config));
    assert_eq!(config_dump(&[0x00, 0xab, 0x10]), "00ab10");
}

#[test]
fn hints_are_announced() {
    let hint = node_hint(Some(vec![9]), 12).unwrap();
    assert_eq!(hint.announcement.tag, Tag::Hint);
    assert_eq!(hint.announcement.data, vec![9]);
    assert!(matches!(hint.key, DocKey::Node { index } if index == "12"));
    let missing = node_hint(None, 12).unwrap_err();
    assert_eq!(missing, ServiceError::NoPublicKey);
    assert_eq!(missing.text(), "Failed to compute public key");
}

#[test]
fn system_keys_are_written_and_announced() {
    let made = made_system_keys(&[3]);
    assert_eq!(made.directory, "tmp/sys");
    assert_eq!(made.path, "tmp/sys/key");
    assert_eq!(made.publication.announcement.tag, Tag::SystemKeys);
    assert!(matches!(made.publication.key, DocKey::SystemKeys));
    assert_eq!(publish_keys(&[3]).announcement.data, vec![3]);
    assert_eq!(publish_config(&[4]).announcement.data, vec![4]);
    assert_eq!(publish_hint(&[5], 0).announcement.data, vec![5]);
}

#[test]
fn previous_hints_are_asked_for() {
    let keys = |index: usize| -> Vec<String> {
        hint_queries(index)
            .into_iter()
            .map(|q| {
                assert_eq!(q.limit, 1);
                match q.key {
                    DocKey::Node { index } => index,
                    _ => unreachable!(),
                }
            })
            .collect()
    };
    assert!(keys(0).is_empty());
    assert!(keys(1).is_empty());
    assert_eq!(keys(2), vec!["1"]);
    assert_eq!(keys(12), (1..12).map(|i| format!("{}", i)).collect::<Vec<_>>());
    // positions are counted in 32 bits
    assert_eq!(keys((1usize << 32) + 3), vec!["1", "2"]);
    let query = config_query();
    assert!(matches!(query.key, DocKey::Config));
    assert_eq!(query.limit, 1);
}

#[test]
fn remote_entries_are_fetched() {
    assert_eq!(on_doc_event(DocEvent::InsertRemote), DocAction::Fetch);
    assert_eq!(on_doc_event(DocEvent::Other), DocAction::Listen);
    assert_eq!(on_doc_event(DocEvent::Failed), DocAction::Stop);
}

#[test]
fn blobs_that_arrive_at_once_are_forwarded() {
    for tag in [Tag::Config, Tag::Hint, Tag::SystemKeys, Tag::Doc] {
        assert_eq!(EntryFetch::new().fetched(Some(tag)), FetchAction::Forward);
    }
}

#[test]
fn late_blobs_are_forwarded_unless_documents() {
    for failures in 1..4 {
        let mut fetch = EntryFetch::new();
        let mut late = EntryFetch::new();
        for _ in 0..failures {
            assert_eq!(fetch.fetched(None), FetchAction::Retry);
            assert_eq!(late.fetched(None), FetchAction::Retry);
        }
        assert_eq!(fetch.fetched(Some(Tag::Hint)), FetchAction::Forward);
        assert_eq!(late.fetched(Some(Tag::Doc)), FetchAction::Ignore);
    }
}

#[test]
fn lost_blobs_are_given_up() {
    let mut fetch = EntryFetch::new();
    for _ in 0..3 {
        assert_eq!(fetch.fetched(None), FetchAction::Retry);
    }
    assert_eq!(fetch.fetched(None), FetchAction::GiveUp);
}

#[test]
fn keys_are_renewed_for_new_hints() {
    let mut updater = KeysUpdater::new();
    assert!(!updater.is_due(None));
    assert!(!updater.is_due(Some(0)));
    assert!(updater.is_due(Some(2)));
    updater.published(2, false);
    assert!(updater.is_due(Some(2)));
    updater.published(2, true);
    assert!(!updater.is_due(Some(2)));
    assert!(!updater.is_due(Some(1)));
    assert!(updater.is_due(Some(3)));
}

#[test]
fn system_keys_need_config_and_nodes() {
    assert_eq!(plan_system_keys(false, Some(5)), Err(KeysError::ConfigNotAvailable));
    assert_eq!(plan_system_keys(false, None), Err(KeysError::ConfigNotAvailable));
    assert_eq!(plan_system_keys(true, None), Err(KeysError::HintsNotAvailable));
    assert_eq!(plan_system_keys(true, Some(0)), Ok(KeysPlan::Nothing));
    assert_eq!(plan_system_keys(true, Some(1)), Ok(KeysPlan::Nothing));
    assert_eq!(plan_system_keys(true, Some(2)), Ok(KeysPlan::Generate { threshold: 1 }));
    assert_eq!(KeysError::ConfigNotAvailable.text(), "Config not available");
    assert_eq!(KeysError::HintsNotAvailable.text(), "Hints not available");
}

#[test]
fn nodes_have_an_identity_and_protocols() {
    let secret: [u8; 32] =
        hex::decode("9d61b19deffd5a60ba844af492ec2cc44449c5697b326919703bac031cae7f60")
            .unwrap()
            .try_into()
            .unwrap();
    let node = Node::with_secret(secret, 99);
    assert_eq!(node.id().to_vec(), hex::decode(IDENTITY).unwrap());
    assert_eq!(node.secret(), secret);
    assert_eq!(node.port(), 99);
    assert_ne!(Node::build(1).id(), Node::build(1).id());
    assert_eq!(
        node.accepted_protocols(),
        vec![
            Protocol::PartialDecryption,
            Protocol::Gossip,
            Protocol::Blobs,
            Protocol::Docs,
        ]
    );
    assert_eq!(PD_ALPN.as_bytes(), b"fangorn/partial-decryption/0");
    assert_eq!(DELIVERY_LIMIT, 1024 * 1024);
    assert_eq!(ECHO_LIMIT, 1000);
}

#[test]
fn every_peer_is_dialled_for_three_protocols() {
    let peer = || PeerAddr { id: [0u8; 32], socket: SOCKET };
    let node = Node::build(0);
    assert!(node.try_connect_peers(None).is_empty());
    assert!(node.try_connect_peers(Some(&vec![])).is_empty());
    assert_eq!(
        node.try_connect_peers(Some(&vec![peer(), peer()])),
        vec![
            Dial { peer: 0, protocol: Protocol::Blobs },
            Dial { peer: 0, protocol: Protocol::Docs },
            Dial { peer: 0, protocol: Protocol::Gossip },
            Dial { peer: 1, protocol: Protocol::Blobs },
            Dial { peer: 1, protocol: Protocol::Docs },
            Dial { peer: 1, protocol: Protocol::Gossip },
        ]
    );
}

#[test]
fn witnesses_are_parsed() {
    assert_eq!(parse_witnesses(" a, b ,c\n"), vec!["a", "b", "c"]);
    assert_eq!(parse_witnesses(""), vec![""]);
    assert_eq!(parse_witnesses(","), vec!["", ""]);
}

#[test]
fn aggregation_takes_the_first_position() {
    assert_eq!(aggregated_positions(1), vec![0, 1]);
    let plan = plan_aggregation(&[1, 0], 4);
    assert_eq!(plan.places, 2);
    assert_eq!(plan.place, 1);
    assert_eq!(plan.selector, vec![true, false, false, false]);
}

#[test]
fn one_partial_decryption_is_enough() {
    let mut session = DecryptSession::new();
    assert!(matches!(
        session.step(SessionEvent::Received {
            filename: b"name".to_vec(),
            partial_decryption: vec![4],
        }),
        SessionAction::LookUp { filename } if filename == b"name".to_vec()
    ));
    assert!(matches!(
        session.step(SessionEvent::IntentFound { cid: vec![5] }),
        SessionAction::Fetch { cid } if cid == vec![5]
    ));
    assert!(matches!(
        session.step(SessionEvent::Fetched { ciphertext: vec![6] }),
        SessionAction::Aggregate { ciphertext, partial_decryption }
            if ciphertext == vec![6] && partial_decryption == vec![4]
    ));
    assert!(matches!(
        session.step(SessionEvent::Aggregated { plaintext: vec![8] }),
        SessionAction::Save { name, plaintext } if name == "name" && plaintext == vec![8]
    ));
    assert!(matches!(session.step(SessionEvent::Saved), SessionAction::Finish));
}
