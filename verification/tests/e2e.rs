//! Two transports that hand each other their frames.
use clipsync::clipboard::ClipboardContent;
use clipsync::pairing::{Cipher, WireMessage};
use clipsync::transport::{
    finish_handshake, hello_frame, read_step, ConnectDecision, FirstFrame, ReadAction, ReadEvent,
    Side, TransportManager, WS_SIZE_LIMIT,
};

struct TestPeer {
    manager: TransportManager<()>,
    id: String,
}

impl TestPeer {
    fn new(id: &str) -> Self {
        TestPeer { manager: TransportManager::new(id.to_string()), id: id.to_string() }
    }
}

/// Dials from the client to the server and shakes hands.
fn connect(server: &mut TestPeer, client: &mut TestPeer) -> Result<(), String> {
    assert_eq!(client.manager.connect_to_peer(&server.id), ConnectDecision::StartLoop);
    assert_eq!(server.manager.connect_to_peer(&client.id), ConnectDecision::AwaitInbound);
    let client_cipher = client.manager.current_cipher().expect("client is paired");
    let server_cipher = server.manager.gate_incoming()?;
    let hello = hello_frame(&client.id, &client_cipher)?;
    let client_id = finish_handshake(Side::Server, &FirstFrame::Binary(hello), &server_cipher)?;
    let reply = hello_frame(&server.id, &server_cipher)?;
    finish_handshake(Side::Client, &FirstFrame::Binary(reply), &client_cipher)?;
    server.manager.register(&client_id, (), "127.0.0.1", 40000);
    client.manager.register(&server.id, (), "127.0.0.1", 40001);
    Ok(())
}

fn connected_pair(code: &str) -> (TestPeer, TestPeer) {
    let mut server = TestPeer::new("zzzz-server");
    let mut client = TestPeer::new("aaaa-client");
    server.manager.set_pairing_code(code);
    client.manager.set_pairing_code(code);
    connect(&mut server, &mut client).expect("handshake completes");
    (server, client)
}

/// Sends `content` from `client` to `server` and returns what `server` receives.
fn round_trip(server: &TestPeer, client: &TestPeer, content: &ClipboardContent) -> (String, ClipboardContent) {
    let payload = content.to_payload().expect("serialize clipboard");
    assert!(client.manager.get_peer(&server.id).is_some(), "peer handle exists once connected");
    let cipher = client.manager.current_cipher().expect("client is paired");
    let frame = WireMessage::new("clipboard", payload).to_encrypted(&cipher).expect("send to peer");
    assert!(frame.len() <= WS_SIZE_LIMIT);
    let cipher = server.manager.current_cipher().expect("server is paired");
    let from = server.manager.connected_peer_ids()[0].clone();
    match read_step(&ReadEvent::Binary(frame), &cipher) {
        ReadAction::Deliver(message) => {
            assert_eq!(message.msg_type, "clipboard");
            let got = ClipboardContent::from_payload(&message.payload).expect("deserialize clipboard");
            (from, got)
        }
        _ => panic!("message arrives"),
    }
}

#[test]
fn text_clipboard_syncs_end_to_end() {
    let (server, client) = connected_pair("123456");

    let content = ClipboardContent {
        content_type: "text".into(),
        text: Some("hello from the other side".into()),
        image_data: None,
        content_hash: "hash-text".into(),
    };

    let (from, got) = round_trip(&server, &client, &content);
    assert_eq!(from, client.id);
    assert_eq!(got.content_type, "text");
    assert_eq!(got.text.as_deref(), Some("hello from the other side"));
    assert!(got.image_data.is_none());
    assert_eq!(got.content_hash, "hash-text");
}

#[test]
fn large_image_clipboard_syncs_end_to_end() {
    let (server, client) = connected_pair("654321");

    let (w, h) = (2100u32, 2100u32);
    let pixels = (w as usize) * (h as usize) * 4;
    let mut image_data = Vec::with_capacity(8 + pixels);
    image_data.extend_from_slice(&w.to_be_bytes());
    image_data.extend_from_slice(&h.to_be_bytes());
    image_data.resize(8 + pixels, 0xAB);
    assert!(
        image_data.len() > 16 * 1024 * 1024,
        "test image must exceed the old 16 MiB frame limit to be a valid regression"
    );

    let content = ClipboardContent {
        content_type: "image".into(),
        text: None,
        image_data: Some(image_data.clone()),
        content_hash: "hash-image".into(),
    };

    let (from, got) = round_trip(&server, &client, &content);
    assert_eq!(from, client.id);
    assert_eq!(got.content_type, "image");
    assert_eq!(got.image_data.as_deref(), Some(image_data.as_slice()));
    assert_eq!(got.content_hash, "hash-image");
}

/// The frame of a clipboard message with an image of `size` bytes of one value.
fn image_frame(size: usize, value: u8) -> Vec<u8> {
    let content = ClipboardContent {
        content_type: "image".into(),
        text: None,
        image_data: Some(vec![value; size]),
        content_hash: "0".repeat(64),
    };
    let message = WireMessage::new("clipboard", content.to_payload().unwrap());
    message.to_encrypted(&Cipher::from_pairing_code("123456")).unwrap()
}

#[test]
fn sixty_three_mebibytes_of_any_bytes_fit_one_websocket_message() {
    assert!(image_frame(63 * 1024 * 1024, 0xFF).len() <= WS_SIZE_LIMIT);
}

#[test]
fn a_hundred_mebibytes_of_low_bytes_fit_one_websocket_message() {
    assert!(image_frame(100 * 1024 * 1024, 0x7F).len() <= WS_SIZE_LIMIT);
}

#[test]
fn bytes_from_128_on_take_two() {
    assert_eq!(image_frame(70_000, 0xFF).len(), image_frame(70_000, 0x7F).len() + 70_000);
    assert!(image_frame(65 * 1024 * 1024, 0xFF).len() > WS_SIZE_LIMIT);
}

#[test]
fn wrong_pairing_code_never_connects() {
    let mut server = TestPeer::new("zzzz-server");
    let mut client = TestPeer::new("aaaa-client");

    server.manager.set_pairing_code("111111");
    client.manager.set_pairing_code("222222"); // mismatched code

    assert!(connect(&mut server, &mut client).is_err());

    assert!(
        client.manager.connected_peer_ids().is_empty(),
        "client must not connect with the wrong pairing code"
    );
    assert!(
        server.manager.connected_peer_ids().is_empty(),
        "server must not accept a peer with the wrong pairing code"
    );
}

#[test]
fn without_a_code_nobody_connects() {
    let mut server = TestPeer::new("zzzz-server");
    let mut client = TestPeer::new("aaaa-client");
    client.manager.set_pairing_code("222222");
    assert_eq!(
        connect(&mut server, &mut client).unwrap_err(),
        "not paired (no cipher); rejecting"
    );
}
