use diskio::channel::{Channel, DataChunk, RecvError};
use diskio::header::ProtocolError;
use diskio::ingest::{AbortReason, Outcome};
use diskio::pipeline::{append_bytes, drain, forward, upload, write_next, StoredFile, Upload};

fn framed(text: &str) -> Vec<u8> {
    let mut bytes = text.as_bytes().to_vec();
    bytes.resize(256, 0);
    bytes
}

fn pattern(len: usize) -> Vec<u8> {
    (0..len).map(|i| (i * 31 + i / 251) as u8).collect()
}

#[test]
fn upload_round_trip_of_one_mebibyte() {
    let n: usize = 1_048_576;
    let body = pattern(n);
    let result = upload(&framed("pattern.bin|1048576"), &body, 65536, 100);
    let file = result.file.unwrap();
    assert_eq!(file.name, b"pattern.bin".to_vec());
    assert_eq!(file.content.len(), n);
    assert!(file.content == body);
    assert_eq!(result.result, Ok(Outcome::Complete));
}

#[test]
fn upload_with_bad_header_writes_nothing() {
    let result = upload(&framed("badheader"), &pattern(1024), 64, 4);
    assert_eq!(
        result,
        Upload { file: None, result: Err(AbortReason::Protocol(ProtocolError::FieldCount)) }
    );
}

#[test]
fn upload_closed_half_way_is_incomplete() {
    let n: usize = 1_048_576;
    let body = pattern(n / 2);
    let result = upload(&framed("half.bin|1048576"), &body, 65536, 100);
    let file = result.file.unwrap();
    assert_eq!(file.content.len(), n / 2);
    assert!(file.content == body);
    assert_eq!(
        result.result,
        Ok(Outcome::Incomplete { received: 524_288, declared: 1_048_576 })
    );
}

#[test]
fn upload_ignores_bytes_beyond_the_declared_size() {
    let body = pattern(100);
    let result = upload(&framed("short.bin|60"), &body, 16, 2);
    assert_eq!(result.file.unwrap().content, body[..60].to_vec());
    assert_eq!(result.result, Ok(Outcome::Complete));
}

#[test]
fn upload_through_a_channel_of_one_keeps_the_order() {
    let body = pattern(1000);
    let result = upload(&framed("tight.bin|1000"), &body, 7, 1);
    assert_eq!(
        result,
        Upload {
            file: Some(StoredFile { name: b"tight.bin".to_vec(), content: body }),
            result: Ok(Outcome::Complete),
        }
    );
}

#[test]
fn upload_of_nothing_creates_an_empty_file() {
    let result = upload(&framed("empty.bin|0"), &[], 64, 4);
    assert_eq!(
        result,
        Upload {
            file: Some(StoredFile { name: b"empty.bin".to_vec(), content: Vec::new() }),
            result: Ok(Outcome::Complete),
        }
    );
}

#[test]
fn upload_with_reads_of_size_zero_receives_nothing() {
    let result = upload(&framed("none.bin|10"), &pattern(10), 0, 4);
    assert_eq!(result.file.unwrap().content, Vec::<u8>::new());
    assert_eq!(result.result, Ok(Outcome::Incomplete { received: 0, declared: 10 }));
}

#[test]
fn upload_with_short_preamble_is_refused() {
    let result = upload(b"a|1", &pattern(1), 64, 4);
    assert_eq!(
        result,
        Upload { file: None, result: Err(AbortReason::Protocol(ProtocolError::HeaderLength)) }
    );
}

#[test]
fn forward_makes_room_by_writing_the_oldest_chunk() {
    let mut channel = Channel::new(2);
    let mut file: Vec<u8> = Vec::new();
    forward(&mut channel, &mut file, DataChunk { offset: 0, data: vec![1, 2] });
    forward(&mut channel, &mut file, DataChunk { offset: 2, data: vec![3] });
    assert_eq!(channel.len(), 2);
    assert!(file.is_empty());
    forward(&mut channel, &mut file, DataChunk { offset: 3, data: vec![4, 5] });
    assert_eq!(channel.len(), 2);
    assert_eq!(file, vec![1, 2]);
    drain(&mut channel, &mut file);
    assert_eq!(file, vec![1, 2, 3, 4, 5]);
    assert!(channel.is_empty());
}

#[test]
fn write_next_tells_waiting_from_stopping() {
    let mut channel = Channel::new(2);
    let mut file: Vec<u8> = vec![9];
    assert_eq!(write_next(&mut channel, &mut file), Err(RecvError::Empty));
    assert_eq!(channel.try_send(DataChunk { offset: 0, data: vec![7, 8] }), Ok(()));
    channel.close();
    assert_eq!(write_next(&mut channel, &mut file), Ok(()));
    assert_eq!(file, vec![9, 7, 8]);
    assert_eq!(write_next(&mut channel, &mut file), Err(RecvError::Closed));
    assert_eq!(file, vec![9, 7, 8]);
}

#[test]
fn append_bytes_appends() {
    let mut file = vec![1u8, 2];
    append_bytes(&mut file, &vec![3, 4, 5]);
    assert_eq!(file, vec![1, 2, 3, 4, 5]);
    append_bytes(&mut file, &Vec::new());
    assert_eq!(file, vec![1, 2, 3, 4, 5]);
}
