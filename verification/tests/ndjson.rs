use amari_discovery::error::DiscoveryError;
use amari_discovery::ndjson::{record_line, NdjsonWriter, DEFAULT_MAX_NDJSON_RECORD_BYTES};

#[test]
fn record_at_the_ceiling_is_written_as_one_line() {
    let mut w = NdjsonWriter::new(Vec::new()).unwrap();
    let record = vec![b'a'; DEFAULT_MAX_NDJSON_RECORD_BYTES];
    assert!(w.write_record(&record).is_ok());
    let out = w.into_inner();
    assert_eq!(out.len(), DEFAULT_MAX_NDJSON_RECORD_BYTES + 1);
    assert_eq!(out.last(), Some(&b'\n'));
}

#[test]
fn record_over_the_ceiling_is_refused_before_writing() {
    let mut w = NdjsonWriter::new(Vec::new()).unwrap();
    let record = vec![b'a'; DEFAULT_MAX_NDJSON_RECORD_BYTES + 1];
    match w.write_record(&record) {
        Err(DiscoveryError::LimitExceeded(m)) => {
            assert_eq!(m, "NDJSON record bytes 1048577 exceed limit 1048576")
        }
        _ => panic!("expected a limit error"),
    }
    assert!(w.into_inner().is_empty());
}

#[test]
fn zero_ceiling_is_invalid_and_lines_end_with_newline() {
    assert!(matches!(NdjsonWriter::with_max_record_bytes(Vec::<u8>::new(), 0), Err(DiscoveryError::InvalidInput(_))));
    assert_eq!(record_line(b"{}"), b"{}\n".to_vec());
}

#[test]
fn vec_writer_holds_the_lines_of_accepted_records_in_order() {
    let mut w = NdjsonWriter::with_max_record_bytes(b"x".to_vec(), 4).unwrap();
    assert!(w.write_record(b"{}").is_ok());
    assert!(matches!(w.write_record(b"{\"a\":1}"), Err(DiscoveryError::LimitExceeded(_))));
    assert!(w.write_record(b"[1]").is_ok());
    assert_eq!(w.into_inner(), b"x{}\n[1]\n".to_vec());
}
