use pi_acp::records::{take_record, Taken};

fn all(stream: &mut Vec<u8>, limit: usize) -> (Vec<Vec<u8>>, bool) {
    let mut records = Vec::new();
    loop {
        match take_record(stream, limit) {
            Taken::Record(record) => records.push(record),
            Taken::Partial => return (records, false),
            Taken::TooLong => return (records, true),
        }
    }
}

#[test]
fn records_end_at_line_feeds_with_or_without_a_return() {
    let mut stream = b"one\ntwo\r\n\nrest".to_vec();
    let (records, too_long) = all(&mut stream, 100);
    assert_eq!(records, vec![b"one".to_vec(), b"two".to_vec(), b"".to_vec()]);
    assert!(!too_long);
    assert_eq!(stream, b"rest");
}

#[test]
fn a_record_of_the_limit_is_taken_and_a_longer_one_is_not() {
    let mut stream = b"1234\n12345\n".to_vec();
    let (records, too_long) = all(&mut stream, 4);
    assert_eq!(records, vec![b"1234".to_vec()]);
    assert!(too_long);
}

#[test]
fn a_record_may_still_end_while_it_has_the_limit() {
    let mut stream = b"1234".to_vec();
    assert!(matches!(take_record(&mut stream, 4), Taken::Partial));
    stream.push(b'\n');
    assert!(matches!(take_record(&mut stream, 4), Taken::Record(_)));
}

#[test]
fn chunks_do_not_change_the_records() {
    let whole = b"alpha\r\nbeta\n\ngamma\nrest".to_vec();
    let expected = all(&mut whole.clone(), 10);
    for cut in 0..whole.len() {
        let mut stream = whole[..cut].to_vec();
        let (mut records, _) = all(&mut stream, 10);
        stream.extend_from_slice(&whole[cut..]);
        let (more, too_long) = all(&mut stream, 10);
        records.extend(more);
        assert_eq!((records, too_long), expected);
        assert_eq!(stream, b"rest");
    }
}

#[test]
fn records_that_were_written_are_read_back() {
    let records = vec![b"{}".to_vec(), b"[1,2]".to_vec(), b"\"x\"".to_vec()];
    let mut stream = Vec::new();
    for record in &records {
        stream.extend_from_slice(record);
        stream.push(b'\n');
    }
    assert_eq!(all(&mut stream, 16), (records, false));
    assert!(stream.is_empty());
}
