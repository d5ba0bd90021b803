use task_tracer::event::{decode, DecodeError, RawEvent, RECORD_SIZE};
use task_tracer::store::{process_event, StatsStore};

fn record(task_id: i32, sleep_start: u64, sleep_end: u64, runtime_ns: u64) -> Vec<u8> {
    let mut bytes: Vec<u8> = Vec::new();
    bytes.extend_from_slice(&task_id.to_ne_bytes());
    bytes.extend_from_slice(&[0xAA, 0xBB, 0xCC, 0xDD]);
    bytes.extend_from_slice(&sleep_start.to_ne_bytes());
    bytes.extend_from_slice(&sleep_end.to_ne_bytes());
    bytes.extend_from_slice(&runtime_ns.to_ne_bytes());
    bytes
}

#[test]
fn record_size_is_thirty_two() {
    assert_eq!(RECORD_SIZE, 32);
    assert_eq!(record(1, 2, 3, 4).len(), 32);
}

#[test]
fn decode_reads_every_field() {
    let bytes = record(4242, 0x0102_0304_0506_0708, 0x1112_1314_1516_1718, 77);
    assert_eq!(
        decode(&bytes),
        Ok(RawEvent {
            task_id: 4242,
            sleep_start: 0x0102_0304_0506_0708,
            sleep_end: 0x1112_1314_1516_1718,
            runtime_ns: 77,
        })
    );
}

#[test]
fn decode_reads_extreme_values() {
    let bytes = record(-1, u64::MAX, 0, u64::MAX - 1);
    assert_eq!(
        decode(&bytes),
        Ok(RawEvent { task_id: -1, sleep_start: u64::MAX, sleep_end: 0, runtime_ns: u64::MAX - 1 })
    );
    let bytes = record(i32::MIN, 1, 2, 3);
    assert_eq!(decode(&bytes).unwrap().task_id, i32::MIN);
}

#[test]
fn decode_ignores_the_padding() {
    let mut bytes = record(9, 8, 7, 6);
    let first = decode(&bytes).unwrap();
    for i in 4..8 {
        bytes[i] = 0;
    }
    assert_eq!(decode(&bytes).unwrap(), first);
}

#[test]
fn decode_works_at_any_offset_of_a_buffer() {
    let mut buffer = vec![0u8; 3];
    buffer.extend_from_slice(&record(17, 100, 200, 300));
    let event = decode(&buffer[3..]).unwrap();
    assert_eq!(event, RawEvent { task_id: 17, sleep_start: 100, sleep_end: 200, runtime_ns: 300 });
}

#[test]
fn decode_refuses_other_sizes() {
    assert_eq!(decode(&[]), Err(DecodeError::MalformedRecord { length: 0 }));
    let bytes = record(1, 2, 3, 4);
    assert_eq!(decode(&bytes[..31]), Err(DecodeError::MalformedRecord { length: 31 }));
    let mut longer = bytes.clone();
    longer.push(0);
    assert_eq!(decode(&longer), Err(DecodeError::MalformedRecord { length: 33 }));
    assert_eq!(decode(&bytes[..8]), Err(DecodeError::MalformedRecord { length: 8 }));
}

#[test]
fn observation_of_an_event() {
    let event = RawEvent { task_id: 3, sleep_start: 10, sleep_end: 20, runtime_ns: 30 };
    let o = event.observation();
    assert_eq!(o.runtime_ns, 30);
    assert_eq!(o.sleep_start, 10);
    assert_eq!(o.sleep_end, 20);
}

#[test]
fn process_event_feeds_the_store() {
    let mut store = StatsStore::new();
    let first = process_event(&record(11, 900, 1000, 5), &mut store);
    assert_eq!(
        first,
        Ok(RawEvent { task_id: 11, sleep_start: 900, sleep_end: 1000, runtime_ns: 5 })
    );
    assert!(process_event(&record(11, 1200, 1500, 7), &mut store).is_ok());
    assert!(process_event(&record(12, 0, 0, 9), &mut store).is_ok());
    assert_eq!(store.len(), 2);
    let a = store.get(11).unwrap();
    assert_eq!(a.event_count, 2);
    assert_eq!(a.runtime.sum, 12);
    assert_eq!(a.sleep.count, 2);
    assert_eq!(a.sleep.sum, 400);
    assert_eq!(a.sleep_interval.count, 1);
    assert_eq!(a.sleep_interval.sum, 500);
    let b = store.get(12).unwrap();
    assert_eq!(b.event_count, 1);
    assert_eq!(b.sleep.count, 0);
}

#[test]
fn process_event_drops_a_malformed_buffer() {
    let mut store = StatsStore::new();
    assert!(process_event(&record(1, 0, 10, 5), &mut store).is_ok());
    let before = store.snapshot();
    let r = process_event(&[1, 2, 3], &mut store);
    assert_eq!(r, Err(DecodeError::MalformedRecord { length: 3 }));
    assert_eq!(store.snapshot(), before);
    assert_eq!(store.len(), 1);
    assert!(process_event(&record(1, 20, 30, 5), &mut store).is_ok());
    assert_eq!(store.get(1).unwrap().event_count, 2);
}
