use openssl::rsa::{Padding, Rsa};
use simpletcp::error::Error;
use simpletcp::frame::{frame_header, ReadOutcome, ReadProgress, WriteOutcome, MAX_FRAME_SIZE};
use simpletcp::message::Message;
use simpletcp::server::{ServerKey, RSA_BITS};
use simpletcp::stream::{EncryptedStream, State, MAX_MESSAGE_SIZE};
use std::collections::VecDeque;

const TEST_KEY: [u8; 1192] = [
    48, 130, 4, 164, 2, 1, 0, 2, 130, 1, 1, 0, 198, 95, 133, 22,
    174, 47, 221, 164, 186, 173, 148, 127, 98, 145, 97, 24, 184, 113, 229, 137,
    169, 171, 134, 54, 199, 133, 175, 15, 238, 30, 102, 9, 214, 122, 50, 87,
    221, 198, 208, 66, 141, 122, 243, 26, 216, 160, 138, 190, 25, 194, 5, 91,
    240, 23, 82, 118, 131, 78, 72, 211, 26, 208, 153, 114, 84, 174, 6, 206,
    251, 168, 193, 164, 145, 45, 179, 113, 12, 37, 178, 235, 171, 42, 14, 143,
    155, 49, 62, 191, 98, 47, 197, 154, 70, 190, 27, 243, 155, 13, 199, 171,
    187, 183, 189, 116, 253, 156, 86, 227, 112, 66, 215, 240, 173, 233, 241, 138,
    32, 82, 120, 120, 207, 31, 212, 47, 34, 67, 27, 243, 145, 134, 153, 125,
    220, 200, 154, 144, 31, 209, 207, 219, 52, 68, 98, 210, 64, 116, 189, 73,
    22, 102, 33, 176, 49, 245, 251, 163, 118, 182, 84, 131, 192, 69, 20, 29,
    27, 154, 139, 207, 65, 146, 67, 102, 48, 126, 161, 250, 159, 55, 99, 11,
    14, 102, 99, 233, 51, 79, 107, 43, 237, 23, 174, 252, 158, 56, 11, 86,
    0, 82, 225, 116, 197, 4, 181, 133, 90, 103, 214, 254, 10, 48, 143, 110,
    148, 104, 182, 254, 211, 188, 118, 5, 26, 214, 6, 139, 168, 123, 78, 175,
    12, 244, 104, 54, 95, 111, 243, 104, 128, 83, 124, 6, 35, 212, 143, 48,
    226, 39, 56, 223, 31, 183, 99, 229, 5, 128, 213, 133, 2, 3, 1, 0,
    1, 2, 130, 1, 0, 82, 96, 15, 5, 164, 142, 150, 229, 21, 106, 8,
    76, 191, 147, 44, 53, 86, 62, 97, 185, 129, 62, 11, 109, 74, 252, 61,
    254, 136, 252, 145, 149, 203, 61, 18, 19, 191, 178, 20, 0, 86, 252, 243,
    223, 181, 142, 49, 31, 16, 214, 43, 96, 138, 186, 60, 145, 159, 36, 14,
    132, 175, 81, 105, 46, 251, 112, 10, 190, 191, 237, 75, 128, 57, 147, 55,
    61, 29, 244, 183, 176, 58, 115, 43, 249, 193, 81, 185, 67, 67, 20, 32,
    99, 216, 181, 144, 40, 224, 61, 224, 40, 245, 186, 46, 143, 218, 210, 165,
    152, 43, 161, 110, 71, 113, 8, 193, 55, 1, 6, 14, 37, 232, 168, 200,
    117, 76, 46, 126, 247, 177, 205, 86, 253, 92, 14, 228, 124, 218, 246, 172,
    156, 217, 157, 135, 227, 137, 172, 153, 185, 79, 164, 204, 211, 145, 216, 152,
    32, 11, 140, 108, 80, 141, 167, 210, 105, 149, 95, 254, 48, 212, 164, 127,
    34, 138, 107, 155, 242, 34, 221, 100, 192, 213, 113, 52, 9, 222, 194, 238,
    97, 144, 23, 49, 67, 203, 103, 245, 4, 81, 121, 145, 96, 231, 225, 249,
    102, 167, 171, 78, 54, 11, 91, 198, 61, 32, 201, 151, 117, 209, 89, 12,
    248, 250, 143, 110, 254, 85, 141, 167, 250, 34, 12, 113, 151, 34, 80, 76,
    41, 209, 40, 5, 92, 234, 138, 5, 138, 100, 254, 25, 241, 133, 184, 8,
    71, 104, 112, 124, 111, 2, 129, 129, 0, 242, 182, 59, 23, 226, 24, 213,
    243, 181, 80, 210, 238, 178, 130, 237, 83, 183, 68, 39, 235, 211, 220, 240,
    47, 190, 20, 200, 130, 69, 112, 228, 86, 14, 152, 189, 117, 40, 201, 204,
    53, 39, 40, 14, 25, 142, 71, 150, 170, 154, 86, 96, 132, 94, 9, 204,
    215, 23, 178, 88, 49, 163, 219, 245, 130, 158, 92, 35, 145, 166, 162, 114,
    240, 184, 57, 127, 199, 211, 180, 232, 21, 161, 152, 242, 137, 69, 102, 68,
    182, 254, 116, 56, 145, 107, 131, 114, 142, 245, 14, 79, 32, 77, 208, 142,
    10, 73, 239, 92, 89, 128, 66, 101, 68, 226, 64, 15, 85, 208, 188, 40,
    218, 169, 253, 254, 236, 245, 240, 40, 31, 2, 129, 129, 0, 209, 59, 218,
    43, 165, 196, 253, 60, 191, 245, 142, 67, 58, 241, 91, 172, 15, 44, 108,
    3, 87, 143, 23, 120, 69, 152, 208, 167, 94, 100, 25, 205, 29, 126, 154,
    44, 131, 223, 26, 63, 63, 233, 108, 39, 138, 213, 71, 245, 213, 104, 81,
    245, 148, 27, 176, 60, 224, 166, 51, 184, 254, 124, 31, 222, 129, 23, 93,
    186, 209, 18, 66, 50, 55, 219, 232, 176, 61, 12, 151, 16, 119, 112, 19,
    76, 166, 164, 9, 182, 24, 157, 239, 238, 59, 33, 151, 135, 235, 155, 144,
    236, 14, 129, 11, 41, 109, 111, 239, 133, 246, 228, 89, 166, 207, 93, 40,
    165, 131, 221, 143, 231, 221, 212, 3, 249, 255, 29, 29, 219, 2, 129, 129,
    0, 162, 157, 47, 136, 119, 230, 149, 234, 91, 207, 212, 19, 51, 44, 255,
    95, 56, 137, 132, 137, 191, 127, 230, 184, 198, 12, 220, 174, 83, 98, 40,
    201, 243, 171, 168, 60, 7, 224, 244, 93, 164, 103, 116, 210, 240, 125, 204,
    87, 111, 98, 113, 246, 29, 159, 73, 75, 207, 71, 161, 73, 88, 244, 181,
    80, 23, 83, 186, 77, 10, 173, 10, 127, 119, 158, 166, 155, 54, 159, 157,
    99, 104, 202, 181, 172, 252, 255, 97, 8, 142, 1, 70, 41, 64, 52, 104,
    155, 153, 90, 69, 239, 105, 211, 82, 103, 88, 83, 243, 182, 207, 117, 44,
    174, 115, 59, 226, 74, 103, 184, 185, 82, 143, 212, 106, 105, 78, 249, 225,
    151, 2, 129, 128, 70, 64, 215, 119, 114, 88, 155, 66, 235, 157, 82, 160,
    38, 73, 102, 35, 118, 144, 206, 207, 172, 117, 162, 70, 194, 239, 149, 151,
    172, 236, 229, 112, 230, 167, 92, 178, 247, 176, 80, 138, 206, 53, 221, 23,
    197, 216, 233, 41, 148, 247, 75, 21, 175, 30, 64, 229, 159, 244, 142, 71,
    94, 67, 101, 27, 251, 178, 81, 201, 105, 107, 189, 8, 73, 147, 48, 37,
    4, 202, 150, 106, 116, 0, 16, 170, 219, 5, 23, 49, 170, 64, 85, 144,
    99, 16, 91, 101, 202, 233, 88, 22, 186, 163, 255, 144, 112, 107, 118, 60,
    63, 242, 218, 91, 85, 35, 13, 131, 205, 171, 246, 38, 191, 103, 241, 209,
    222, 35, 243, 163, 2, 129, 129, 0, 174, 66, 215, 119, 103, 217, 90, 153,
    68, 14, 134, 194, 39, 154, 14, 216, 7, 219, 2, 200, 204, 110, 18, 80,
    101, 2, 54, 145, 3, 195, 76, 201, 193, 249, 240, 18, 147, 103, 90, 200,
    60, 131, 209, 187, 108, 192, 52, 61, 92, 14, 96, 208, 196, 108, 26, 167,
    128, 183, 101, 52, 108, 172, 215, 143, 0, 60, 109, 204, 230, 159, 231, 8,
    144, 195, 55, 58, 34, 181, 114, 8, 104, 29, 212, 118, 252, 183, 151, 194,
    54, 94, 72, 225, 50, 51, 200, 38, 36, 58, 211, 0, 224, 201, 211, 90,
    51, 44, 240, 229, 112, 245, 128, 178, 187, 154, 193, 43, 224, 213, 141, 183,
    239, 123, 51, 247, 251, 180, 97, 29,
];

const TEST_PUBLIC_KEY: [u8; 294] = [
    48, 130, 1, 34, 48, 13, 6, 9, 42, 134, 72, 134, 247, 13, 1, 1,
    1, 5, 0, 3, 130, 1, 15, 0, 48, 130, 1, 10, 2, 130, 1, 1,
    0, 198, 95, 133, 22, 174, 47, 221, 164, 186, 173, 148, 127, 98, 145, 97,
    24, 184, 113, 229, 137, 169, 171, 134, 54, 199, 133, 175, 15, 238, 30, 102,
    9, 214, 122, 50, 87, 221, 198, 208, 66, 141, 122, 243, 26, 216, 160, 138,
    190, 25, 194, 5, 91, 240, 23, 82, 118, 131, 78, 72, 211, 26, 208, 153,
    114, 84, 174, 6, 206, 251, 168, 193, 164, 145, 45, 179, 113, 12, 37, 178,
    235, 171, 42, 14, 143, 155, 49, 62, 191, 98, 47, 197, 154, 70, 190, 27,
    243, 155, 13, 199, 171, 187, 183, 189, 116, 253, 156, 86, 227, 112, 66, 215,
    240, 173, 233, 241, 138, 32, 82, 120, 120, 207, 31, 212, 47, 34, 67, 27,
    243, 145, 134, 153, 125, 220, 200, 154, 144, 31, 209, 207, 219, 52, 68, 98,
    210, 64, 116, 189, 73, 22, 102, 33, 176, 49, 245, 251, 163, 118, 182, 84,
    131, 192, 69, 20, 29, 27, 154, 139, 207, 65, 146, 67, 102, 48, 126, 161,
    250, 159, 55, 99, 11, 14, 102, 99, 233, 51, 79, 107, 43, 237, 23, 174,
    252, 158, 56, 11, 86, 0, 82, 225, 116, 197, 4, 181, 133, 90, 103, 214,
    254, 10, 48, 143, 110, 148, 104, 182, 254, 211, 188, 118, 5, 26, 214, 6,
    139, 168, 123, 78, 175, 12, 244, 104, 54, 95, 111, 243, 104, 128, 83, 124,
    6, 35, 212, 143, 48, 226, 39, 56, 223, 31, 183, 99, 229, 5, 128, 213,
    133, 2, 3, 1, 0, 1,
];

const TEST_FINGERPRINT: [u8; 32] = [
    71, 47, 113, 125, 214, 48, 223, 219, 181, 37, 92, 230, 25, 195, 9, 73,
    22, 38, 182, 13, 188, 236, 35, 97, 7, 112, 178, 121, 218, 208, 255, 65,
];

struct Pipe {
    bytes: VecDeque<u8>,
    room: usize,
}

fn pipe_with_room(room: usize) -> Pipe {
    Pipe { bytes: VecDeque::new(), room }
}

fn pipe_write(pipe: &mut Pipe, piece: &[u8]) -> WriteOutcome {
    if piece.is_empty() {
        return WriteOutcome::Written(0);
    }
    let space = pipe.room - pipe.bytes.len();
    if space == 0 {
        return WriteOutcome::WouldBlock;
    }
    let n = if piece.len() < space { piece.len() } else { space };
    pipe.bytes.extend(&piece[..n]);
    WriteOutcome::Written(n)
}

fn pipe_read(pipe: &mut Pipe, want: usize) -> ReadOutcome {
    if want > 0 && pipe.bytes.is_empty() {
        return ReadOutcome::WouldBlock;
    }
    let n = if want < pipe.bytes.len() { want } else { pipe.bytes.len() };
    ReadOutcome::Data(pipe.bytes.drain(..n).collect())
}

fn send_raw(stream: &mut EncryptedStream, pipe: &mut Pipe, payload: &[u8]) -> Result<(), Error> {
    let header = frame_header(payload.len())?;
    for piece in [&header[..], payload] {
        let outcome = if stream.may_write() {
            pipe_write(pipe, piece)
        } else {
            WriteOutcome::WouldBlock
        };
        stream.write_raw(piece, outcome)?;
    }
    Ok(())
}

fn recv_raw(stream: &mut EncryptedStream, pipe: &mut Pipe) -> Result<Option<Vec<u8>>, Error> {
    loop {
        let want = stream.read_demand()?;
        match stream.read_raw(pipe_read(pipe, want))? {
            ReadProgress::Frame(payload) => return Ok(Some(payload)),
            ReadProgress::Pending => return Ok(None),
            ReadProgress::HeaderComplete => {}
        }
    }
}

fn flush(stream: &mut EncryptedStream, pipe: &mut Pipe) -> Result<bool, Error> {
    while !stream.may_write() {
        if pipe.bytes.len() == pipe.room {
            return Ok(false);
        }
        let outcome = pipe_write(pipe, stream.unsent());
        stream.flush(outcome)?;
    }
    Ok(true)
}

fn write(stream: &mut EncryptedStream, pipe: &mut Pipe, msg: &Message) -> Result<(), Error> {
    let payload = stream.encrypt(msg)?;
    send_raw(stream, pipe, &payload)
}

fn read(stream: &mut EncryptedStream, pipe: &mut Pipe) -> Result<Option<Message>, Error> {
    stream.check_ready()?;
    match recv_raw(stream, pipe)? {
        None => Ok(None),
        Some(frame) => Ok(Some(stream.decrypt(&frame)?)),
    }
}

fn get_ready(
    stream: &mut EncryptedStream,
    incoming: &mut Pipe,
    outgoing: &mut Pipe,
) -> Result<bool, Error> {
    if stream.is_ready() {
        return Ok(true);
    }
    let frame = recv_raw(stream, incoming)?;
    let (ready, reply) = stream.get_ready(frame)?;
    if let Some(reply) = reply {
        send_raw(stream, outgoing, &reply)?;
    }
    Ok(ready)
}

struct Pair {
    client: EncryptedStream,
    server: EncryptedStream,
    to_server: Pipe,
    to_client: Pipe,
}

fn connected(key: &ServerKey, room: usize) -> Pair {
    let mut to_client = pipe_with_room(room);
    let to_server = pipe_with_room(room);
    let client = EncryptedStream::connect();
    let mut server = EncryptedStream::new();
    let hello = server.server_init(key);
    send_raw(&mut server, &mut to_client, &hello).unwrap();
    Pair { client, server, to_server, to_client }
}

fn shake_hands(pair: &mut Pair) {
    assert!(!get_ready(&mut pair.server, &mut pair.to_server, &mut pair.to_client).unwrap());
    assert!(get_ready(&mut pair.client, &mut pair.to_client, &mut pair.to_server).unwrap());
    assert!(get_ready(&mut pair.server, &mut pair.to_server, &mut pair.to_client).unwrap());
}

fn test_key() -> ServerKey {
    ServerKey::new_with_key(Some(&TEST_KEY)).unwrap()
}

#[test]
fn client_write_server_read() {
    let mut pair = connected(&test_key(), 1 << 16);
    shake_hands(&mut pair);
    let mut msg = Message::new();
    msg.write_i32(-123);
    msg.write_i8(-5);
    write(&mut pair.client, &mut pair.to_server, &msg).unwrap();

    let mut msg = read(&mut pair.server, &mut pair.to_server).unwrap().unwrap();
    assert_eq!(msg.read_i32().unwrap(), -123);
    assert_eq!(msg.read_i8().unwrap(), -5);
    assert!(msg.read_i32().is_err());
}

#[test]
fn server_write_client_read() {
    let mut pair = connected(&test_key(), 1 << 16);
    shake_hands(&mut pair);
    let mut msg = Message::new();
    msg.write_i64(-12345);
    msg.write_u8(23);
    write(&mut pair.server, &mut pair.to_client, &msg).unwrap();

    let mut msg = read(&mut pair.client, &mut pair.to_client).unwrap().unwrap();
    assert_eq!(msg.read_i64().unwrap(), -12345);
    assert!(msg.read_i16().is_err());
}

#[test]
fn buffer_overflow() {
    let mut pair = connected(&test_key(), 1 << 16);
    shake_hands(&mut pair);
    let buf = [0; 65537];
    let mut msg = Message::new();
    msg.write_buffer(&buf);

    let mut i = 0;
    while i < 25 {
        write(&mut pair.client, &mut pair.to_server, &msg).unwrap();
        i += 1;
    }
    assert!(!pair.client.may_write());

    let mut i = 0;
    while i < 25 {
        let mut msg = loop {
            flush(&mut pair.client, &mut pair.to_server).unwrap();
            match read(&mut pair.server, &mut pair.to_server).unwrap() {
                Some(msg) => break msg,
                None => {}
            }
        };
        let mut check = Vec::new();
        check.resize(65537, 0);
        assert_eq!(msg.read_buffer().unwrap(), &check[..]);
        i += 1;
    }
    assert!(flush(&mut pair.client, &mut pair.to_server).unwrap());
    assert!(read(&mut pair.server, &mut pair.to_server).unwrap().is_none());
}

#[test]
fn write_blocking() {
    let mut pair = connected(&test_key(), 1 << 16);
    shake_hands(&mut pair);
    let buf = vec![0; 1024 * 1024];
    let mut msg = Message::new();
    msg.write_buffer(&buf);
    msg.write_u64(f64::to_bits(1.234));

    write(&mut pair.client, &mut pair.to_server, &msg).unwrap();
    let mut msg = loop {
        let flushed = flush(&mut pair.client, &mut pair.to_server).unwrap();
        match read(&mut pair.server, &mut pair.to_server).unwrap() {
            Some(msg) => {
                assert!(flushed);
                break msg;
            }
            None => assert!(!flushed || !pair.to_server.bytes.is_empty()),
        }
    };
    assert_eq!(msg.read_buffer().unwrap(), &vec![0; 1024 * 1024][..]);
    assert_eq!(f64::from_bits(msg.read_u64().unwrap()), 1.234);
}

#[test]
fn messages_arrive_in_order() {
    let mut pair = connected(&test_key(), 100);
    loop {
        let served = get_ready(&mut pair.server, &mut pair.to_server, &mut pair.to_client).unwrap();
        flush(&mut pair.server, &mut pair.to_client).unwrap();
        let ready = get_ready(&mut pair.client, &mut pair.to_client, &mut pair.to_server).unwrap();
        flush(&mut pair.client, &mut pair.to_server).unwrap();
        if served && ready {
            break;
        }
    }
    let mut n: u32 = 0;
    while n < 40 {
        let mut msg = Message::new();
        msg.write_u32(n);
        msg.write_buffer(&vec![n as u8; (n * 7) as usize]);
        write(&mut pair.client, &mut pair.to_server, &msg).unwrap();
        n += 1;
    }
    let mut n: u32 = 0;
    while n < 40 {
        flush(&mut pair.client, &mut pair.to_server).unwrap();
        if let Some(mut msg) = read(&mut pair.server, &mut pair.to_server).unwrap() {
            assert_eq!(msg.read_u32().unwrap(), n);
            assert_eq!(msg.read_buffer().unwrap(), vec![n as u8; (n * 7) as usize]);
            n += 1;
        }
    }
    assert!(flush(&mut pair.client, &mut pair.to_server).unwrap());
}

#[test]
fn fingerprint() {
    let first = ServerKey::generate().expect("Failed to create server");
    let key = first.key();

    let mut pair = connected(&first, 1 << 16);
    shake_hands(&mut pair);
    let fingerprint = pair.client.fingerprint();

    let second = ServerKey::new_with_key(Some(&key)).expect("Failed to create server");
    let mut pair = connected(&second, 1 << 16);
    shake_hands(&mut pair);
    assert_eq!(pair.client.fingerprint(), fingerprint);
    assert_eq!(pair.server.fingerprint(), fingerprint);
    assert_eq!(second.key(), key);
    assert_eq!(first.public_key().len(), 550);
    assert_eq!(RSA_BITS, 4096);
}

#[test]
fn fingerprint_is_the_digest_of_the_public_key() {
    let key = test_key();
    assert_eq!(key.key(), TEST_KEY);
    assert_eq!(key.public_key()[..], TEST_PUBLIC_KEY);
    assert_eq!(key.fingerprint(), TEST_FINGERPRINT);
    let mut pair = connected(&key, 1 << 16);
    assert_eq!(pair.server.fingerprint(), TEST_FINGERPRINT);
    assert!(pair.client.fingerprint().is_empty());
    shake_hands(&mut pair);
    assert_eq!(pair.client.fingerprint(), TEST_FINGERPRINT);
    assert_eq!(pair.server.fingerprint(), TEST_FINGERPRINT);
}

#[test]
fn other_key_other_fingerprint() {
    let mut other = Rsa::generate(2048).unwrap().private_key_to_der().unwrap();
    let key = ServerKey::new_with_key(Some(&other)).unwrap();
    assert_ne!(key.fingerprint(), TEST_FINGERPRINT);
    assert_eq!(key.fingerprint().len(), 32);
    other.truncate(100);
    assert!(matches!(ServerKey::new_with_key(Some(&other)), Err(Error::EncryptionError(_))));
}

#[test]
fn key_bytes_that_are_no_key_are_refused() {
    assert!(matches!(ServerKey::new_with_key(Some(&[])), Err(Error::EncryptionError(_))));
    assert!(matches!(ServerKey::from_der(vec![1, 2, 3]), Err(Error::EncryptionError(_))));
    assert!(matches!(
        ServerKey::new_with_key(Some(&TEST_PUBLIC_KEY)),
        Err(Error::EncryptionError(_))
    ));
}

#[test]
fn states_of_the_handshake() {
    let key = test_key();
    let fresh = EncryptedStream::new();
    assert_eq!(fresh.state(), State::NotInitialized);
    let mut pair = connected(&key, 1 << 16);
    assert_eq!(pair.client.state(), State::WaitingForPublicKey);
    assert_eq!(pair.server.state(), State::WaitingForSymmKey);
    assert!(!get_ready(&mut pair.server, &mut pair.to_server, &mut pair.to_client).unwrap());
    assert_eq!(pair.server.state(), State::WaitingForSymmKey);
    assert!(get_ready(&mut pair.client, &mut pair.to_client, &mut pair.to_server).unwrap());
    assert_eq!(pair.client.state(), State::Ready);
    assert_eq!(pair.to_server.bytes.len(), 4 + 256);
    assert!(get_ready(&mut pair.server, &mut pair.to_server, &mut pair.to_client).unwrap());
    assert_eq!(pair.server.state(), State::Ready);
    assert!(pair.client.init_step(vec![1, 2, 3]).unwrap().is_none());
    assert_eq!(pair.client.state(), State::Ready);
}

#[test]
fn first_frame_is_the_public_key() {
    let mut pair = connected(&test_key(), 1 << 16);
    let frame = recv_raw(&mut pair.client, &mut pair.to_client).unwrap().unwrap();
    assert_eq!(frame, TEST_PUBLIC_KEY);
}

#[test]
fn not_ready_before_the_handshake() {
    let mut pair = connected(&test_key(), 1 << 16);
    let mut msg = Message::new();
    msg.write_u8(1);
    assert!(matches!(pair.client.encrypt(&msg), Err(Error::NotReady)));
    assert!(matches!(pair.server.encrypt(&msg), Err(Error::NotReady)));
    assert!(matches!(pair.client.decrypt(&[0; 32]), Err(Error::NotReady)));
    assert!(matches!(pair.server.decrypt(&[0; 32]), Err(Error::NotReady)));
    assert!(matches!(pair.client.check_ready(), Err(Error::NotReady)));
    assert!(matches!(read(&mut pair.client, &mut pair.to_client), Err(Error::NotReady)));
    assert_eq!(pair.to_client.bytes.len(), 4 + TEST_PUBLIC_KEY.len());
    let mut fresh = EncryptedStream::new();
    assert!(matches!(fresh.encrypt(&msg), Err(Error::NotReady)));
    assert!(matches!(fresh.check_ready(), Err(Error::NotReady)));
    shake_hands(&mut pair);
    assert!(pair.client.check_ready().is_ok());
    assert!(pair.server.check_ready().is_ok());
}

#[test]
fn frame_holds_vector_and_ciphertext() {
    let mut pair = connected(&test_key(), 1 << 16);
    shake_hands(&mut pair);
    let mut msg = Message::new();
    msg.write_buffer(&[7; 40]);
    let one = pair.client.encrypt(&msg).unwrap();
    let two = pair.client.encrypt(&msg).unwrap();
    assert_eq!(one.len(), 16 + 48);
    assert_eq!(two.len(), 16 + 48);
    assert_ne!(one[..16], two[..16]);
    assert_ne!(one[16..], two[16..]);
    assert_ne!(one[16..60], msg.as_bytes()[..]);
    let mut back = pair.server.decrypt(&two).unwrap();
    assert_eq!(back.as_bytes(), msg.as_bytes());
    assert_eq!(back.read_buffer().unwrap(), vec![7; 40]);
    let mut empty = pair.server.decrypt(&pair.client.encrypt(&Message::new()).unwrap()).unwrap();
    assert!(empty.as_bytes().is_empty());
    assert!(empty.read_u8().is_err());
}

#[test]
fn ciphertext_is_that_of_aes_256_cbc() {
    let key = test_key();
    let mut server = EncryptedStream::new();
    server.server_init(&key);
    let session_key = [0x42u8; 32];
    let rsa = Rsa::public_key_from_der(&TEST_PUBLIC_KEY).unwrap();
    let mut answer = vec![0; rsa.size() as usize];
    let len = rsa.public_encrypt(&session_key, &mut answer, Padding::PKCS1_OAEP).unwrap();
    answer.truncate(len);
    assert!(server.init_step(answer).unwrap().is_none());
    assert!(server.is_ready());

    let mut msg = Message::new();
    msg.write_u32(0xdead_beef);
    let payload = server.encrypt(&msg).unwrap();
    let expected = openssl::symm::encrypt(
        openssl::symm::Cipher::aes_256_cbc(),
        &session_key,
        Some(&payload[..16]),
        &[0xef, 0xbe, 0xad, 0xde],
    )
    .unwrap();
    assert_eq!(payload[16..], expected[..]);

    let iv = [9u8; 16];
    let mut frame = iv.to_vec();
    frame.extend(
        openssl::symm::encrypt(openssl::symm::Cipher::aes_256_cbc(), &session_key, Some(&iv), &[
            1, 0, 2, 0,
        ])
        .unwrap(),
    );
    let mut msg = server.decrypt(&frame).unwrap();
    assert_eq!(msg.read_u16().unwrap(), 1);
    assert_eq!(msg.read_u16().unwrap(), 2);
}

#[test]
fn malformed_frames_are_encryption_errors() {
    let mut pair = connected(&test_key(), 1 << 16);
    shake_hands(&mut pair);
    assert!(matches!(pair.server.decrypt(&[]), Err(Error::EncryptionError(_))));
    assert!(matches!(pair.server.decrypt(&[0; 15]), Err(Error::EncryptionError(_))));
    assert!(matches!(pair.server.decrypt(&[0; 16]), Err(Error::EncryptionError(_))));
    assert!(matches!(pair.server.decrypt(&[0; 21]), Err(Error::EncryptionError(_))));
    assert!(matches!(
        pair.server.decrypt(&vec![0; MAX_FRAME_SIZE + 1]),
        Err(Error::SizeLimitExceeded)
    ));
}

#[test]
fn message_size_limit() {
    let mut pair = connected(&test_key(), 1 << 16);
    shake_hands(&mut pair);
    assert_eq!(MAX_MESSAGE_SIZE, MAX_FRAME_SIZE - 32);
    let fits = Message::from_buffer(vec![0; MAX_MESSAGE_SIZE]);
    assert_eq!(pair.client.encrypt(&fits).unwrap().len(), MAX_FRAME_SIZE);
    let too_long = Message::from_buffer(vec![0; MAX_MESSAGE_SIZE + 1]);
    assert!(matches!(pair.client.encrypt(&too_long), Err(Error::SizeLimitExceeded)));
}

#[test]
fn malformed_public_key_is_an_encryption_error() {
    let mut client = EncryptedStream::connect();
    assert!(matches!(client.init_step(vec![1, 2, 3]), Err(Error::EncryptionError(_))));
    assert_eq!(client.state(), State::WaitingForPublicKey);
    assert!(client.fingerprint().is_empty());
    assert!(matches!(
        client.init_step(vec![0; MAX_FRAME_SIZE + 1]),
        Err(Error::SizeLimitExceeded)
    ));
    assert!(client.init_step(TEST_PUBLIC_KEY.to_vec()).unwrap().is_some());
    assert_eq!(client.state(), State::Ready);
}

#[test]
fn malformed_session_key_is_an_encryption_error() {
    let key = test_key();
    let mut server = EncryptedStream::new();
    server.server_init(&key);
    assert!(matches!(server.init_step(vec![0; 256]), Err(Error::EncryptionError(_))));
    assert_eq!(server.state(), State::WaitingForSymmKey);

    let rsa = Rsa::public_key_from_der(&TEST_PUBLIC_KEY).unwrap();
    let mut short = vec![0; rsa.size() as usize];
    let len = rsa.public_encrypt(&[1; 16], &mut short, Padding::PKCS1_OAEP).unwrap();
    short.truncate(len);
    assert!(matches!(server.init_step(short), Err(Error::EncryptionError(_))));
    assert_eq!(server.state(), State::WaitingForSymmKey);

    let mut right = vec![0; rsa.size() as usize];
    let len = rsa.public_encrypt(&[1; 32], &mut right, Padding::PKCS1_OAEP).unwrap();
    right.truncate(len);
    assert!(server.init_step(right).unwrap().is_none());
    assert_eq!(server.state(), State::Ready);
}

#[test]
fn raw_frames_pass_before_the_handshake() {
    let mut pair = connected(&test_key(), 1 << 16);
    send_raw(&mut pair.client, &mut pair.to_server, &[1, 2, 3]).unwrap();
    pair.to_client.bytes.clear();
    assert_eq!(recv_raw(&mut pair.client, &mut pair.to_client).unwrap(), None);
    let mut reader = EncryptedStream::new();
    assert_eq!(recv_raw(&mut reader, &mut pair.to_server).unwrap(), Some(vec![1, 2, 3]));
}

#[test]
fn closed_peer_is_reported() {
    let mut pair = connected(&test_key(), 1 << 16);
    assert!(matches!(
        pair.client.read_raw(ReadOutcome::Data(vec![])),
        Err(Error::ConnectionClosed)
    ));
    assert!(matches!(
        pair.client.write_raw(&[1, 2], WriteOutcome::Written(0)),
        Err(Error::ConnectionClosed)
    ));
    assert!(pair.client.may_write());
    pair.client.write_raw(&[1, 2], WriteOutcome::WouldBlock).unwrap();
    assert!(!pair.client.may_write());
    assert_eq!(pair.client.unsent(), &[1, 2]);
    assert!(matches!(pair.client.flush(WriteOutcome::Written(0)), Err(Error::ConnectionClosed)));
    assert!(!pair.client.flush(WriteOutcome::Written(1)).unwrap());
    assert_eq!(pair.client.unsent(), &[2]);
    assert!(pair.client.flush(WriteOutcome::Written(1)).unwrap());
    assert!(pair.client.may_write());
}

#[test]
fn no_frame_moves_nothing() {
    let mut pair = connected(&test_key(), 1 << 16);
    let (ready, reply) = pair.client.get_ready(None).unwrap();
    assert!(!ready);
    assert!(reply.is_none());
    assert_eq!(pair.client.state(), State::WaitingForPublicKey);
    let (ready, reply) = pair.client.get_ready(Some(TEST_PUBLIC_KEY.to_vec())).unwrap();
    assert!(ready);
    assert_eq!(reply.unwrap().len(), 256);
    let (ready, reply) = pair.client.get_ready(None).unwrap();
    assert!(ready);
    assert!(reply.is_none());
    let (ready, reply) = pair.server.get_ready(None).unwrap();
    assert!(!ready);
    assert!(reply.is_none());
}
