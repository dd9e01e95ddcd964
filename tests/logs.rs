use shuttle_runtime::logs::{decode_records, encode_record, take_record, LogItem};

#[test]
fn encode_prefixes_length() {
    assert_eq!(encode_record(&b"hi".to_vec()), vec![0, 0, 0, 2, b'h', b'i']);
    assert_eq!(encode_record(&Vec::new()), vec![0, 0, 0, 0]);
    let long = vec![7u8; 300];
    let framed = encode_record(&long);
    assert_eq!(&framed[..4], &[0, 0, 1, 44]);
    assert_eq!(framed.len(), 304);
}

#[test]
fn decode_round_trip() {
    let recs = vec![b"one".to_vec(), Vec::new(), b"three".to_vec()];
    let mut stream = Vec::new();
    for r in &recs {
        stream.extend(encode_record(r));
    }
    assert_eq!(decode_records(&stream), recs);
}

#[test]
fn decode_drops_cut_record() {
    let mut stream = encode_record(&b"whole".to_vec());
    stream.extend([0, 0, 0, 9, b'c', b'u']);
    assert_eq!(decode_records(&stream), vec![b"whole".to_vec()]);
    assert_eq!(decode_records(&vec![0, 0]), Vec::<Vec<u8>>::new());
}

#[test]
fn take_record_incrementally() {
    let mut buf = encode_record(&b"ab".to_vec());
    buf.extend([0, 0, 0, 3, b'x']);
    assert_eq!(take_record(&mut buf), Some(b"ab".to_vec()));
    assert_eq!(buf, vec![0, 0, 0, 3, b'x']);
    assert_eq!(take_record(&mut buf), None);
    assert_eq!(buf, vec![0, 0, 0, 3, b'x']);
    buf.extend([b'y', b'z']);
    assert_eq!(take_record(&mut buf), Some(b"xyz".to_vec()));
    assert!(buf.is_empty());
}

#[test]
fn stamped_record_keeps_order_and_id() {
    let id = vec![1u8, 2, 3];
    let mut buf = Vec::new();
    for r in [b"a".to_vec(), b"b".to_vec(), b"c".to_vec()] {
        buf.extend(encode_record(&r));
    }
    let mut out = Vec::new();
    while let Some(rec) = take_record(&mut buf) {
        out.push(LogItem::stamped(&id, rec));
    }
    assert_eq!(out.len(), 3);
    assert!(out.iter().all(|i| i.id == id));
    let recs: Vec<Vec<u8>> = out.into_iter().map(|i| i.record).collect();
    assert_eq!(recs, vec![b"a".to_vec(), b"b".to_vec(), b"c".to_vec()]);
}

#[test]
fn log_queue_capacity() {
    assert_eq!(shuttle_runtime::logs::LOG_QUEUE_CAPACITY, 32768);
}
