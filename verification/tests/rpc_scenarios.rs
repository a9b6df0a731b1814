use ipiis::client::{Address, Client};
use ipiis::crypto::Account;
use ipiis::errors::Error;
use ipiis::frame::{ACK_ERR, ACK_OK};
use ipiis::schema::{find_route, route_request, MethodSchema};
use ipiis::server::{
    decode_opt_address, error_message, Server, ServerStep, OPCODE_ARP, OPCODE_TEXT,
};

fn make_client_and_server() -> (Client, Server) {
    let client = Client::new(Account::generate(), None);
    let server = Server::new(Client::new(Account::generate(), None));
    (client, server)
}

/// The application handler of the end-to-end scenario: the payload carries
/// an age, then a name, and the answer greets them.
fn text_handler(payload: &[u8]) -> Result<Vec<u8>, Vec<u8>> {
    if payload.len() < 8 {
        return Err(b"payload too short".to_vec());
    }
    let mut age_bytes = [0u8; 8];
    age_bytes.copy_from_slice(&payload[..8]);
    let age = u64::from_le_bytes(age_bytes);
    let name = String::from_utf8(payload[8..].to_vec()).map_err(|_| b"bad name".to_vec())?;
    Ok(format!("hello, {} years old {}!", name, age).into_bytes())
}

fn drive_server(server: &Server, request: &Vec<u8>, now: i64) -> Vec<u8> {
    match server.handle_request(request, now) {
        ServerStep::Reply { bytes } => bytes,
        ServerStep::NeedHandler { guarantee, expiration, payload } => {
            let outcome = text_handler(&payload);
            server.finish_handled(&guarantee, expiration, outcome)
        },
    }
}

#[test]
fn text_call_end_to_end_five_times() {
    let (client, server) = make_client_and_server();
    let server_ref = server.account_me().account_ref();
    for _ in 0..5 {
        let mut payload = 42u64.to_le_bytes().to_vec();
        payload.extend_from_slice(b"Alice");
        let request = client.encode_call_permanent(OPCODE_TEXT, &server_ref, None, payload);
        let reply = drive_server(&server, &request, 1000);
        assert_eq!(reply[0], ACK_OK);
        let answer = client.decode_reply_payload(&reply, 1000).unwrap();
        assert_eq!(answer, b"hello, Alice years old 42!".to_vec());
    }
}

#[test]
fn response_signature_verified_against_server() {
    let (client, server) = make_client_and_server();
    let server_ref = server.account_me().account_ref();
    let request = client.encode_call_permanent(OPCODE_TEXT, &server_ref, None, {
        let mut p = 7u64.to_le_bytes().to_vec();
        p.extend_from_slice(b"Bob");
        p
    });
    let reply = drive_server(&server, &request, 0);
    // the reply is addressed to the caller: another client must not accept it
    let envelope = client.decode_reply(&reply, 0).unwrap();
    assert_eq!(envelope.guarantor.id, server_ref.id);
    let other = Client::new(Account::generate(), None);
    assert!(matches!(other.decode_reply(&reply, 0), Err(Error::GuaranteeMismatch)));
}

#[test]
fn arp_unregistered_account_yields_absent_address() {
    let (mut client, server) = make_client_and_server();
    let server_ref = server.account_me().account_ref();
    let unknown = Account::generate().account_ref();
    let request = client.encode_call_permanent(OPCODE_ARP, &server_ref, None, unknown.id.clone());
    let reply = drive_server(&server, &request, 0);
    assert_eq!(reply[0], ACK_OK);
    let payload = client.decode_reply_payload(&reply, 0).unwrap();
    let resolved = decode_opt_address(&payload).unwrap();
    assert!(resolved.is_none());
    // the caller's cache stays unset for that account
    assert!(matches!(client.get_address(&unknown), Err(Error::AddressNotFound)));
    client.set_account_primary(server_ref);
    assert!(matches!(client.get_address(&unknown), Err(Error::AddressNotFound)));
}

#[test]
fn arp_registered_account_resolves_and_fills_cache() {
    let (mut client, mut server) = make_client_and_server();
    let server_ref = server.account_me().account_ref();
    let peer = Account::generate().account_ref();
    server.set_address(&peer, Address::new(b"127.0.0.1:9801".to_vec()));
    let request = client.encode_call_permanent(OPCODE_ARP, &server_ref, None, peer.id.clone());
    let reply = drive_server(&server, &request, 0);
    let payload = client.decode_reply_payload(&reply, 0).unwrap();
    let resolved = decode_opt_address(&payload).unwrap().unwrap();
    assert_eq!(resolved.bytes, b"127.0.0.1:9801".to_vec());
    client.set_address(&peer, resolved);
    assert_eq!(client.get_address(&peer).unwrap().bytes, b"127.0.0.1:9801".to_vec());
}

#[test]
fn tampered_request_signature_answered_with_err_frame() {
    let (client, server) = make_client_and_server();
    let server_ref = server.account_me().account_ref();
    let mut payload = 1u64.to_le_bytes().to_vec();
    payload.extend_from_slice(b"Mallory");
    let mut request = client.encode_call_permanent(OPCODE_TEXT, &server_ref, None, payload);
    // the envelope chunk starts at 9; its signature bytes at offsets 73..137
    request[9 + 80] ^= 0x01;
    // the handler is never invoked: the step is a finished error reply
    let reply = match server.handle_request(&request, 0) {
        ServerStep::Reply { bytes } => bytes,
        ServerStep::NeedHandler { .. } => panic!("a tampered request must not reach the handler"),
    };
    assert_eq!(reply[0], ACK_ERR);
    match client.decode_reply(&reply, 0) {
        Err(Error::Remote { message }) => assert_eq!(message, b"bad signature".to_vec()),
        _ => panic!("expected the remote error"),
    }
}

#[test]
fn expired_request_rejected_before_handler() {
    let (client, server) = make_client_and_server();
    let server_ref = server.account_me().account_ref();
    let request = client.encode_call_permanent(OPCODE_TEXT, &server_ref, Some(50), vec![0; 9]);
    let reply = match server.handle_request(&request, 51) {
        ServerStep::Reply { bytes } => bytes,
        ServerStep::NeedHandler { .. } => panic!("an expired request must not reach the handler"),
    };
    assert_eq!(reply[0], ACK_ERR);
    match client.decode_reply(&reply, 51) {
        Err(Error::Remote { message }) => assert_eq!(message, b"envelope expired".to_vec()),
        _ => panic!("expected the remote error"),
    }
}

#[test]
fn request_addressed_to_another_server_rejected() {
    let (client, server) = make_client_and_server();
    let stranger = Account::generate().account_ref();
    let request = client.encode_call_permanent(OPCODE_TEXT, &stranger, None, vec![0; 9]);
    let reply = drive_server(&server, &request, 0);
    assert_eq!(reply[0], ACK_ERR);
    match client.decode_reply(&reply, 0) {
        Err(Error::Remote { message }) => assert_eq!(message, b"guarantee mismatch".to_vec()),
        _ => panic!("expected the remote error"),
    }
}

#[test]
fn unknown_opcode_is_a_protocol_error() {
    let (client, server) = make_client_and_server();
    let server_ref = server.account_me().account_ref();
    let request = client.encode_call_permanent(0x7F, &server_ref, None, Vec::new());
    let reply = drive_server(&server, &request, 0);
    assert_eq!(reply[0], ACK_ERR);
    match client.decode_reply(&reply, 0) {
        Err(Error::Remote { message }) => assert_eq!(message, b"unknown opcode".to_vec()),
        _ => panic!("expected the remote error"),
    }
}

#[test]
fn malformed_stream_answered_with_err_frame() {
    let (client, server) = make_client_and_server();
    let reply = drive_server(&server, &vec![OPCODE_TEXT, 1, 2, 3], 0);
    assert_eq!(reply[0], ACK_ERR);
    match client.decode_reply(&reply, 0) {
        Err(Error::Remote { message }) => assert_eq!(message, b"malformed frame".to_vec()),
        _ => panic!("expected the remote error"),
    }
}

#[test]
fn concurrent_calls_correlate_by_nonce() {
    // five calls from one client, each under its own opcode and nonce; the
    // server answers them out of order, and each reply matches its request
    let (client, server) = make_client_and_server();
    let server_ref = server.account_me().account_ref();
    let schemas: Vec<MethodSchema> = (0u8..5)
        .map(|i| MethodSchema { opcode: 0x20 + i, n_inputs: 1, n_outputs: 1 })
        .collect();
    let requests: Vec<Vec<u8>> = (0u8..5)
        .map(|i| {
            let nonce = vec![0xA0 + i; 4];
            schemas[i as usize].send_request(
                client.account_me(),
                &server_ref,
                None,
                vec![i],
                &vec![nonce],
            )
        })
        .collect();
    // the server routes by opcode and echoes the nonce back, in reverse order
    let mut replies: Vec<(usize, Vec<u8>)> = Vec::new();
    for idx in (0..5).rev() {
        let request = &requests[idx];
        let (route, req) = route_request(&schemas, &server.client, request, 0).unwrap();
        assert_eq!(route, idx);
        let echoed = req.inputs[0].clone();
        let reply = schemas[route].send_response(
            server.account_me(),
            &req.envelope.guarantor,
            None,
            req.envelope.payload.clone(),
            &vec![echoed],
        );
        replies.push((idx, reply));
    }
    for (idx, reply) in replies {
        let res = schemas[idx].recv_response(&client, &reply, 0).unwrap();
        assert_eq!(res.outputs[0], vec![0xA0 + idx as u8; 4]);
        assert_eq!(res.envelope.payload, vec![idx as u8]);
    }
}

#[test]
fn router_rejects_undeclared_opcode() {
    let schemas = vec![
        MethodSchema { opcode: 0x10, n_inputs: 1, n_outputs: 2 },
        MethodSchema { opcode: 0x12, n_inputs: 2, n_outputs: 1 },
    ];
    assert!(find_route(&schemas, 0x10).is_ok());
    assert!(matches!(find_route(&schemas, 0x33), Err(Error::UnknownOpcode { opcode: 0x33 })));
}

#[test]
fn request_roundtrip_reproduces_fields_and_rejects_tampering() {
    let (client, server) = make_client_and_server();
    let server_ref = server.account_me().account_ref();
    let schema = ipiis::schema::get_address_schema();
    let inputs = vec![b"namespace".to_vec(), server_ref.id.clone()];
    let request = schema.send_request(client.account_me(), &server_ref, None, vec![1], &inputs);
    // the round trip reproduces the typed field values exactly
    let back = schema.recv_request(&server.client, &request, 0).unwrap();
    assert_eq!(back.inputs, inputs);
    assert_eq!(back.envelope.payload, vec![1]);
    // a truncated stream is a protocol error, never a different valid value
    let mut short = request.clone();
    short.pop();
    assert!(matches!(schema.recv_request(&server.client, &short, 0), Err(Error::Malformed)));
    // a flipped payload byte is caught by the trust layer
    let mut flipped = request.clone();
    flipped[9 + 137] ^= 0x01;
    assert!(matches!(
        schema.recv_request(&server.client, &flipped, 0),
        Err(Error::BadSignature)
    ));
}

#[test]
fn error_messages_are_fixed_texts() {
    assert_eq!(error_message(&Error::BadSignature), b"bad signature".to_vec());
    assert_eq!(error_message(&Error::Expired), b"envelope expired".to_vec());
    assert_eq!(error_message(&Error::GuaranteeMismatch), b"guarantee mismatch".to_vec());
    assert_eq!(error_message(&Error::Malformed), b"malformed frame".to_vec());
    assert_eq!(error_message(&Error::UnknownOpcode { opcode: 9 }), b"unknown opcode".to_vec());
    assert_eq!(error_message(&Error::Remote { message: b"x".to_vec() }), b"x".to_vec());
}

#[test]
fn primary_account_set_and_get() {
    let mut client = Client::new(Account::generate(), None);
    assert!(matches!(client.get_account_primary(), Err(Error::AddressNotFound)));
    let primary = Account::generate().account_ref();
    client.set_account_primary(primary.clone_ref());
    assert_eq!(client.get_account_primary().unwrap().id, primary.id);
    assert_eq!(client.account_primary().unwrap().id, primary.id);
}

#[test]
fn address_cache_updates_and_isolates_keys() {
    let mut client = Client::new(Account::generate(), None);
    let a = Account::generate().account_ref();
    let b = Account::generate().account_ref();
    client.set_address(&a, Address::new(b"1.1.1.1:1".to_vec()));
    client.set_address(&b, Address::new(b"2.2.2.2:2".to_vec()));
    client.set_address(&a, Address::new(b"3.3.3.3:3".to_vec()));
    assert_eq!(client.get_address(&a).unwrap().bytes, b"3.3.3.3:3".to_vec());
    assert_eq!(client.get_address(&b).unwrap().bytes, b"2.2.2.2:2".to_vec());
}

#[test]
fn concurrent_tasks_receive_their_own_answers() {
    // several calls in flight at once from one client to one server, each
    // with its own nonce in the payload; every task gets the answer built
    // from its own request
    let rt = tokio::runtime::Builder::new_multi_thread().worker_threads(4).build().unwrap();
    rt.block_on(async {
        let (client, server) = make_client_and_server();
        let client = std::sync::Arc::new(client);
        let server = std::sync::Arc::new(server);
        let mut handles = Vec::new();
        for i in 0u8..8 {
            let client = client.clone();
            let server = server.clone();
            handles.push(tokio::spawn(async move {
                let server_ref = server.account_me().account_ref();
                let mut payload = (i as u64).to_le_bytes().to_vec();
                payload.extend_from_slice(format!("task{}", i).as_bytes());
                let request =
                    client.encode_call_permanent(OPCODE_TEXT, &server_ref, None, payload);
                let reply = drive_server(&server, &request, 0);
                let answer = client.decode_reply_payload(&reply, 0).unwrap();
                assert_eq!(
                    answer,
                    format!("hello, task{} years old {}!", i, i).into_bytes()
                );
            }));
        }
        for handle in handles {
            handle.await.unwrap();
        }
    });
}

#[test]
fn reply_checker_distinguishes_remote_from_protocol_errors() {
    let client = Client::new(Account::generate(), None);
    // an ACK-with-ERR frame surfaces as the typed remote error
    let err_frame = ipiis::frame::encode_response_err(&b"remote says no".to_vec());
    match client.decode_reply(&err_frame, 0) {
        Err(Error::Remote { message }) => assert_eq!(message, b"remote says no".to_vec()),
        _ => panic!("expected the remote error"),
    }
    match client.decode_reply_payload(&err_frame, 0) {
        Err(Error::Remote { message }) => assert_eq!(message, b"remote says no".to_vec()),
        _ => panic!("expected the remote error"),
    }
    // a flag with the ACK bit but neither OK nor ERR, and a byte that is no
    // flag at all, are protocol errors distinct from each other and from it
    assert!(matches!(
        client.decode_reply(&vec![0x80, 0, 0], 0),
        Err(Error::UnknownAckFlag { flag: 0x80 })
    ));
    assert!(matches!(
        client.decode_reply(&vec![0x01], 0),
        Err(Error::BadResultFlag { flag: 0x01 })
    ));
    assert!(matches!(client.decode_reply(&Vec::new(), 0), Err(Error::Malformed)));
}

#[test]
fn schema_recv_response_distinguishes_remote_errors() {
    let client = Client::new(Account::generate(), None);
    let schema = MethodSchema { opcode: 0x21, n_inputs: 1, n_outputs: 1 };
    let err_frame = ipiis::frame::encode_response_err(&b"no such record".to_vec());
    match schema.recv_response(&client, &err_frame, 0) {
        Err(Error::Remote { message }) => assert_eq!(message, b"no such record".to_vec()),
        _ => panic!("expected the remote error"),
    }
    assert!(matches!(
        schema.recv_response(&client, &vec![0xE0, 0], 0),
        Err(Error::UnknownAckFlag { flag: 0xE0 })
    ));
}

#[test]
fn route_request_owes_success_and_ties_errors() {
    let (client, server) = make_client_and_server();
    let server_ref = server.account_me().account_ref();
    let schemas = vec![MethodSchema { opcode: 0x30, n_inputs: 1, n_outputs: 0 }];
    let good = schemas[0].send_request(
        client.account_me(),
        &server_ref,
        None,
        vec![1],
        &vec![vec![9, 9]],
    );
    let (route, req) = route_request(&schemas, &server.client, &good, 0).unwrap();
    assert_eq!(route, 0);
    assert_eq!(req.inputs, vec![vec![9, 9]]);
    // an undeclared opcode
    let other = schemas[0].send_request(client.account_me(), &server_ref, None, vec![1], &vec![
        vec![9, 9],
    ]);
    let mut renamed = other.clone();
    renamed[0] = 0x31;
    assert!(matches!(
        route_request(&schemas, &server.client, &renamed, 0),
        Err(Error::UnknownOpcode { opcode: 0x31 })
    ));
    // a truncated stream on a declared route
    let mut short = other.clone();
    short.pop();
    assert!(matches!(
        route_request(&schemas, &server.client, &short, 0),
        Err(Error::Malformed)
    ));
    // an empty stream
    assert!(matches!(
        route_request(&schemas, &server.client, &Vec::new(), 0),
        Err(Error::Malformed)
    ));
    // a request signed for someone else on a declared route
    let stranger = Account::generate().account_ref();
    let misaddressed = schemas[0].send_request(client.account_me(), &stranger, None, vec![1], &vec![
        vec![9, 9],
    ]);
    assert!(matches!(
        route_request(&schemas, &server.client, &misaddressed, 0),
        Err(Error::GuaranteeMismatch)
    ));
}
