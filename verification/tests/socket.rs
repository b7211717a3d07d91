use vmm_sys_util::completion::socket::{
    accept, accept_ex, accept_outstanding, associate, check_accept, context_updated,
    finish_accept, outstanding, recv, send, ACCEPT_BUFFER_LEN, ADDRESS_LEN,
};
use vmm_sys_util::completion::{
    Call, Completion, Dequeued, Held, Operation, Packet, Port, RESERVED_KEY,
};
use vmm_sys_util::error::{Error, ErrorKind};
use windows_sys::Win32::Networking::WinSock::SOCKADDR_STORAGE;

const SERVER: usize = 0x300;

fn new_port() -> Port<u32> {
    Port::new(0x50, 0).unwrap()
}

/// Complete the one request and dequeue its completion.
fn one_operation(
    port: &mut Port<u32>,
    packet: Packet,
) -> (usize, Result<usize, Error>, Operation<u32>) {
    let mut out = Vec::new();
    assert!(port.owns(packet.key, packet.pointer));
    assert_eq!(port.dequeue_batch(Dequeued::Packets(vec![packet]), &mut out).unwrap(), 1);
    match out.pop().unwrap() {
        Completion::Operation { key, result, operation } => (key, result, operation),
        other => panic!("expected an operation completion, got {other:?}"),
    }
}

#[test]
fn a_receive_completes_with_the_bytes_the_peer_sent() {
    let mut port = new_port();
    let key = associate(&port, SERVER, 7).unwrap().key;

    let op = Operation::new(0xA000, vec![0; 16]);
    let token = op.token();
    let request = recv(&mut port, SERVER, op).unwrap();
    assert_eq!(request.call, Call::Receive);
    assert_eq!((request.handle, request.length), (SERVER, 16));
    port.settle(token, outstanding(-1, 997)).unwrap();

    let mut buffer = request.buffer;
    buffer[..4].copy_from_slice(b"ping");
    let packet = Packet { key, pointer: request.block, bytes: 4, status: 0, code: 0, buffer };
    let (key, result, op) = one_operation(&mut port, packet);
    assert_eq!(key, 7);
    assert_eq!(result.unwrap(), 4);
    assert_eq!(&op.buffer()[..4], b"ping");
    assert_eq!(op.token(), token);
}

#[test]
fn a_send_completes_with_its_byte_count_and_the_peer_reads_it() {
    let mut port = new_port();
    let key = associate(&port, SERVER, 8).unwrap().key;

    let op = Operation::new(0xA000, b"pong!".to_vec());
    let token = op.token();
    let request = send(&mut port, SERVER, op).unwrap();
    assert_eq!(request.call, Call::Send);
    port.settle(token, outstanding(0, 0)).unwrap();
    let got = request.buffer.clone();

    let packet =
        Packet { key, pointer: request.block, bytes: 5, status: 0, code: 0, buffer: request.buffer };
    let (key, result, op) = one_operation(&mut port, packet);
    assert_eq!(key, 8);
    assert_eq!(result.unwrap(), 5);
    assert_eq!(op.into_buffer(), b"pong!");
    assert_eq!(&got, b"pong!");
}

#[test]
fn a_receive_cancelled_before_data_arrives_completes_with_an_error() {
    let mut port = new_port();
    associate(&port, SERVER, 1).unwrap();

    let op = Operation::new(0xA000, vec![0; 16]);
    let token = op.token();
    let request = recv(&mut port, SERVER, op).unwrap();
    let mut out = Vec::new();
    assert_eq!(port.wait(100, Dequeued::Failed(258), &mut out).unwrap(), None);
    let cancellation = port.cancel(token).unwrap();
    assert_eq!(cancellation.handle, SERVER);

    let packet = Packet {
        key: 1,
        pointer: cancellation.block,
        bytes: 0,
        status: 0xC000_0120,
        code: 995,
        buffer: request.buffer,
    };
    let (_, result, _) = one_operation(&mut port, packet);
    assert_eq!(result.unwrap_err().raw_os_error(), Some(995));
    assert_eq!(port.outstanding(), 0);
}

#[test]
fn an_accept_completes_when_a_client_connects() {
    let mut port = new_port();
    let listener = 0x400;
    let fresh = 0x500;
    let key = associate(&port, listener, 3).unwrap().key;

    let op = Operation::new(0xA000, vec![0; ACCEPT_BUFFER_LEN]);
    check_accept(&op).unwrap();
    let token = op.token();
    let request = accept(&mut port, listener, fresh, op, accept_ex(0, 0, 0x7000)).unwrap();
    assert_eq!(request.call, Call::Accept(fresh));
    assert_eq!(request.handle, listener);
    port.settle(token, accept_outstanding(false, 997)).unwrap();

    let mut out = Vec::new();
    assert_eq!(port.wait(100, Dequeued::Failed(258), &mut out).unwrap(), None, "no client yet");

    let packet =
        Packet { key, pointer: request.block, bytes: 0, status: 0, code: 0, buffer: request.buffer };
    let (key, result, mut op) = one_operation(&mut port, packet);
    assert_eq!(key, 3);
    assert_eq!(result.unwrap(), 0, "no data was asked for with the accept");

    let context = finish_accept(listener, &mut op).unwrap();
    assert!(!op.holds_something());
    assert_eq!((context.socket, context.listener), (fresh, listener));
    assert_eq!(context_updated(context, 0, 0).unwrap(), fresh);
    assert_eq!(context_updated(context, -1, 10022).unwrap_err().raw_os_error(), Some(10022));
}

#[test]
fn an_accept_refuses_a_buffer_too_small_for_the_addresses() {
    let mut port = new_port();
    let op = Operation::new(0xA000, vec![0; ACCEPT_BUFFER_LEN - 1]);
    assert!(check_accept(&op).is_err());
    let err = accept(&mut port, 0x400, 0x500, op, Ok(1)).unwrap_err();
    assert_eq!(err.kind(), Some(ErrorKind::InvalidInput));
    assert_eq!(err.message(), Some("an accept operation needs a buffer of at least 288 bytes"));
    assert_eq!(port.outstanding(), 0);
}

#[test]
fn an_accept_refuses_an_operation_that_holds_something() {
    let mut port = new_port();
    let mut op = Operation::new(0xA000, vec![0; ACCEPT_BUFFER_LEN]);
    op.hold(Held::Item(42));
    let err = accept(&mut port, 0x400, 0x500, op, Ok(1)).unwrap_err();
    assert_eq!(err.kind(), Some(ErrorKind::InvalidInput));
    assert_eq!(port.outstanding(), 0);
}

#[test]
fn an_accept_needs_the_function_of_its_provider() {
    let mut port = new_port();
    let op = Operation::new(0xA000, vec![0; ACCEPT_BUFFER_LEN]);
    let err = accept(&mut port, 0x400, 0x500, op, accept_ex(-1, 10045, 0)).unwrap_err();
    assert_eq!(err.raw_os_error(), Some(10045));
    let err = accept_ex(0, 0, 0).unwrap_err();
    assert_eq!(err.kind(), Some(ErrorKind::Other));
    assert_eq!(err.message(), Some("the socket's provider has no AcceptEx"));
    assert_eq!(port.outstanding(), 0);
}

#[test]
fn finish_accept_refuses_an_operation_that_is_not_an_accept() {
    let mut op = Operation::new(0xA000, vec![0; 8]);
    let err = finish_accept(0x400, &mut op).unwrap_err();
    assert_eq!(err.kind(), Some(ErrorKind::InvalidInput));

    // Something else held is handed back, not lost.
    op.hold(Held::Item(42u32));
    let err = finish_accept(0x400, &mut op).unwrap_err();
    assert_eq!(err.kind(), Some(ErrorKind::InvalidInput));
    assert!(matches!(op.take_held(), Some(Held::Item(42))));
}

#[test]
fn a_socket_call_that_goes_on_is_outstanding() {
    assert!(outstanding(0, 0).is_ok());
    assert!(outstanding(-1, 997).is_ok());
    assert_eq!(outstanding(-1, 10054).unwrap_err().raw_os_error(), Some(10054));
    assert!(accept_outstanding(true, 0).is_ok());
    assert_eq!(accept_outstanding(false, 10054).unwrap_err().raw_os_error(), Some(10054));
}

#[test]
fn an_accept_buffer_has_room_for_two_addresses() {
    assert_eq!(ADDRESS_LEN, std::mem::size_of::<SOCKADDR_STORAGE>() + 16);
    assert_eq!(ACCEPT_BUFFER_LEN, 288);
}

#[test]
fn a_socket_may_not_use_the_reserved_key() {
    assert!(associate(&new_port(), SERVER, RESERVED_KEY).is_err());
}
