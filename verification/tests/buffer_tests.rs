//! Tests of the spill buffer: threshold behavior, replay, chunking, the
//! size limit, and removal of the spilled file on drop.

use actix_web_detached_jws_middleware::{BufferError, FileBufferingStreamBuilder};

fn read_pass(buf: &mut actix_web_detached_jws_middleware::FileBufferingStream) -> Vec<u8> {
    let mut out = Vec::new();
    loop {
        let chunk = buf.read_from_buffer().unwrap();
        if chunk.is_empty() {
            break;
        }
        out.extend_from_slice(&chunk);
    }
    out
}

#[test]
fn memory_round_trip() {
    let mut buf = FileBufferingStreamBuilder::new().threshold(1024).build();
    buf.write_to_buffer(b"hello ").unwrap();
    buf.write_to_buffer(b"world").unwrap();
    assert_eq!(buf.len(), 11);
    assert!(!buf.is_spilled());
    assert_eq!(read_pass(&mut buf), b"hello world".to_vec());
}

#[test]
fn two_passes_identical_memory() {
    let mut buf = FileBufferingStreamBuilder::new().threshold(1024).produce_block_size(3).build();
    buf.write_to_buffer(&[1, 2, 3, 4, 5, 6, 7]).unwrap();
    let first = read_pass(&mut buf);
    let second = read_pass(&mut buf);
    assert_eq!(first, second);
    assert_eq!(first, vec![1, 2, 3, 4, 5, 6, 7]);
}

#[test]
fn two_passes_identical_file() {
    let mut buf = FileBufferingStreamBuilder::new().threshold(4).produce_block_size(3).build();
    buf.write_to_buffer(&[10, 20, 30]).unwrap();
    buf.write_to_buffer(&[40, 50, 60, 70, 80]).unwrap();
    assert!(buf.is_spilled());
    let first = read_pass(&mut buf);
    let second = read_pass(&mut buf);
    assert_eq!(first, second);
    assert_eq!(first, vec![10, 20, 30, 40, 50, 60, 70, 80]);
}

#[test]
fn spills_exactly_when_threshold_exceeded() {
    let mut buf = FileBufferingStreamBuilder::new().threshold(10).build();
    buf.write_to_buffer(&[0u8; 10]).unwrap();
    // Ten buffered bytes do not exceed a threshold of ten.
    assert!(!buf.is_spilled());
    buf.write_to_buffer(&[1u8]).unwrap();
    // The write that makes the total exceed the threshold flips to file
    // mode...
    assert!(buf.is_spilled());
    buf.write_to_buffer(&[2u8; 3]).unwrap();
    // ... and it never flips back.
    assert!(buf.is_spilled());
    assert_eq!(buf.len(), 14);
    let mut expected = vec![0u8; 10];
    expected.push(1);
    expected.extend_from_slice(&[2, 2, 2]);
    assert_eq!(read_pass(&mut buf), expected);
}

#[test]
fn empty_buffer_reads_empty() {
    let mut buf = FileBufferingStreamBuilder::new().build();
    assert_eq!(buf.len(), 0);
    assert_eq!(read_pass(&mut buf), Vec::<u8>::new());
    assert_eq!(read_pass(&mut buf), Vec::<u8>::new());
}

#[test]
fn chunks_are_block_sized() {
    let mut buf = FileBufferingStreamBuilder::new().threshold(1024).produce_block_size(4).build();
    buf.write_to_buffer(&[9u8; 10]).unwrap();
    let c1 = buf.read_from_buffer().unwrap();
    let c2 = buf.read_from_buffer().unwrap();
    let c3 = buf.read_from_buffer().unwrap();
    let c4 = buf.read_from_buffer().unwrap();
    assert_eq!(c1.len(), 4);
    assert_eq!(c2.len(), 4);
    assert_eq!(c3.len(), 2);
    assert!(c4.is_empty());
}

#[test]
fn buffer_limit_overflows() {
    let mut buf = FileBufferingStreamBuilder::new().buffer_limit(Some(5)).build();
    buf.write_to_buffer(&[1, 2, 3]).unwrap();
    let err = buf.write_to_buffer(&[4, 5, 6]).unwrap_err();
    assert!(matches!(err, BufferError::Overflow));
    // Nothing was written by the failed call, and the buffer still works.
    assert_eq!(buf.len(), 3);
    buf.write_to_buffer(&[4, 5]).unwrap();
    assert_eq!(read_pass(&mut buf), vec![1, 2, 3, 4, 5]);
}

#[test]
fn dropping_spilled_buffer_removes_file() {
    let mut buf = FileBufferingStreamBuilder::new().threshold(2).build();
    buf.write_to_buffer(&[7u8; 8]).unwrap();
    assert!(buf.is_spilled());
    let path = buf.backing_path().unwrap();
    assert!(std::path::Path::new(&path).exists());
    drop(buf);
    assert!(!std::path::Path::new(&path).exists());
}

#[test]
fn dropping_mid_read_removes_file() {
    let mut buf = FileBufferingStreamBuilder::new().threshold(2).produce_block_size(2).build();
    buf.write_to_buffer(&[7u8; 8]).unwrap();
    let _partial = buf.read_from_buffer().unwrap();
    let path = buf.backing_path().unwrap();
    assert!(std::path::Path::new(&path).exists());
    drop(buf);
    assert!(!std::path::Path::new(&path).exists());
}

#[test]
fn spill_into_missing_directory_fails_with_io() {
    let mut buf = FileBufferingStreamBuilder::new()
        .tmp_dir("/nonexistent/surely/missing".to_string())
        .threshold(2)
        .build();
    let err = buf.write_to_buffer(&[1, 2, 3, 4]).unwrap_err();
    assert!(matches!(err, BufferError::Io(_)));
    // The buffer is unusable from here on.
    assert!(matches!(buf.write_to_buffer(&[1]).unwrap_err(), BufferError::Io(_)));
}

#[test]
fn spill_file_lands_in_configured_directory() {
    let dir = tempfile::tempdir().unwrap();
    let dir_path = dir.path().to_str().unwrap().to_string();
    let mut buf = FileBufferingStreamBuilder::new()
        .tmp_dir(dir_path.clone())
        .threshold(2)
        .build();
    buf.write_to_buffer(&[5u8; 6]).unwrap();
    assert!(buf.is_spilled());
    let path = buf.backing_path().unwrap();
    assert!(path.starts_with(&dir_path));
    assert_eq!(read_pass(&mut buf), vec![5u8; 6]);
}
