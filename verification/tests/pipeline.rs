use hn_watcher::builder::SnapshotBuilder;
use hn_watcher::date::{UtcDate, UtcInstant};
use hn_watcher::decode::{decode_story_detail, decode_top_ids, detail_from_parts, FieldVal};
use hn_watcher::encode::encode_snapshot;
use hn_watcher::fetch::{item_path_bytes, top_stories_path_bytes};
use hn_watcher::model::HNTopStorySnap;
use hn_watcher::sched::{Decision, EventType, Scheduler};
use hn_watcher::writer::OutputWriter;
use hn_watcher::WatchError;

fn instant(year: u16, month: u8, day: u8, hour: u8, minute: u8, second: u8) -> UtcInstant {
    UtcInstant { date: UtcDate { year, month, day }, hour, minute, second }
}

fn detail(id: u32, score: u32, comments: u32) -> HNTopStorySnap {
    HNTopStorySnap { id, score, comments }
}

#[test]
fn truncation_long_list() {
    let ids: Vec<u32> = (0..35).collect();
    let mut b = SnapshotBuilder::new(instant(2024, 1, 1, 0, 0, 0), ids);
    let mut fetched: Vec<u32> = Vec::new();
    while let Some(id) = b.next_id() {
        fetched.push(id);
        b.push_detail(detail(id, 0, 0));
    }
    let expected: Vec<u32> = (0..30).collect();
    assert_eq!(fetched, expected);
    let snap = b.finish().unwrap();
    assert_eq!(snap.items.len(), 30);
    for (i, it) in snap.items.iter().enumerate() {
        assert_eq!(it.id, i as u32);
    }
}

#[test]
fn truncation_short_list() {
    let mut b = SnapshotBuilder::new(instant(2024, 1, 1, 0, 0, 0), vec![9, 4, 7]);
    let mut fetched: Vec<u32> = Vec::new();
    while let Some(id) = b.next_id() {
        fetched.push(id);
        b.push_detail(detail(id, 1, 1));
    }
    assert_eq!(fetched, vec![9, 4, 7]);
    let snap = b.finish().unwrap();
    assert_eq!(snap.items.len(), 3);
}

#[test]
fn truncation_empty_list() {
    let mut b = SnapshotBuilder::new(instant(2024, 1, 1, 0, 0, 0), Vec::new());
    assert_eq!(b.next_id(), None);
    let snap = b.finish().unwrap();
    assert_eq!(snap.items.len(), 0);
}

#[test]
fn default_filling_missing_fields() {
    let d = decode_story_detail("{\"id\":5}").unwrap();
    assert_eq!(d, detail(5, 0, 0));

    let d = decode_story_detail("{\"id\":5,\"score\":12}").unwrap();
    assert_eq!(d, detail(5, 12, 0));

    let d = decode_story_detail("{\"id\":5,\"descendants\":3}").unwrap();
    assert_eq!(d, detail(5, 0, 3));
}

#[test]
fn default_filling_null_fields() {
    let d = decode_story_detail("{\"id\":5,\"score\":null,\"descendants\":null}").unwrap();
    assert_eq!(d, detail(5, 0, 0));
}

#[test]
fn detail_decode_errors() {
    assert_eq!(decode_story_detail("not json"), Err(WatchError::Decode));
    assert_eq!(decode_story_detail("{}"), Err(WatchError::Decode));
    assert_eq!(decode_story_detail("{\"id\":null}"), Err(WatchError::Decode));
    assert_eq!(decode_story_detail("{\"id\":\"5\"}"), Err(WatchError::Decode));
    assert_eq!(decode_story_detail("{\"id\":4294967296}"), Err(WatchError::Decode));
    assert_eq!(decode_story_detail("{\"id\":5,\"score\":\"high\"}"), Err(WatchError::Decode));
    assert_eq!(decode_story_detail("{\"id\":5,\"descendants\":-1}"), Err(WatchError::Decode));
}

#[test]
fn detail_from_parts_rules() {
    assert_eq!(
        detail_from_parts(FieldVal::Int(7), FieldVal::Absent, FieldVal::Null),
        Ok(detail(7, 0, 0))
    );
    assert_eq!(
        detail_from_parts(FieldVal::Absent, FieldVal::Int(1), FieldVal::Int(2)),
        Err(WatchError::Decode)
    );
    assert_eq!(
        detail_from_parts(FieldVal::Int(7), FieldVal::Other, FieldVal::Absent),
        Err(WatchError::Decode)
    );
    assert_eq!(
        detail_from_parts(FieldVal::Int(1 << 40), FieldVal::Absent, FieldVal::Absent),
        Err(WatchError::Decode)
    );
}

#[test]
fn top_ids_decode() {
    assert_eq!(decode_top_ids("[5,6,7]").unwrap(), vec![5, 6, 7]);
    assert_eq!(decode_top_ids("[]").unwrap(), Vec::<u32>::new());
    assert_eq!(decode_top_ids("not json"), Err(WatchError::Decode));
    assert_eq!(decode_top_ids("{\"a\":1}"), Err(WatchError::Decode));
    assert_eq!(decode_top_ids("[-1]"), Err(WatchError::Decode));
    assert_eq!(decode_top_ids("[1.5]"), Err(WatchError::Decode));
}

#[test]
fn rotation_same_day_opens_once() {
    let mut w = OutputWriter::new(b"data".to_vec());
    let d = UtcDate { year: 2024, month: 1, day: 1 };
    let first = w.ensure_open_for(&d);
    assert_eq!(first, Some(b"data-2024-01-01.jl".to_vec()));
    for _ in 0..5 {
        assert_eq!(w.ensure_open_for(&d), None);
    }
}

#[test]
fn rotation_at_day_boundary() {
    let mut w = OutputWriter::new(b"data".to_vec());
    let d1 = UtcDate { year: 2024, month: 1, day: 1 };
    let d2 = UtcDate { year: 2024, month: 1, day: 2 };
    // alarm at 2024-01-01T23:59:59Z
    assert_eq!(w.ensure_open_for(&d1), Some(b"data-2024-01-01.jl".to_vec()));
    // alarm at 2024-01-02T00:00:01Z: exactly one rotation, to the new day's file
    let rotated = w.ensure_open_for(&d2);
    assert_eq!(rotated, Some(b"data-2024-01-02.jl".to_vec()));
    assert_ne!(rotated, Some(b"data-2024-01-01.jl".to_vec()));
    // and no second rotation on the same date
    assert_eq!(w.ensure_open_for(&d2), None);
}

#[test]
fn interrupt_before_first_alarm_halts() {
    let mut s = Scheduler::new();
    assert_eq!(s.on_event(EventType::Interrupted), Decision::Halt);
    // stopped is terminal: a late alarm yields no cycle
    assert_eq!(s.on_event(EventType::AlarmFired), Decision::Halt);
    assert_eq!(s.on_event(EventType::Interrupted), Decision::Halt);
}

#[test]
fn alarms_run_cycles_until_interrupt() {
    let mut s = Scheduler::new();
    assert_eq!(s.on_event(EventType::AlarmFired), Decision::RunCycle);
    assert_eq!(s.on_event(EventType::AlarmFired), Decision::RunCycle);
    assert_eq!(s.on_event(EventType::Interrupted), Decision::Halt);
    assert_eq!(s.on_event(EventType::AlarmFired), Decision::Halt);
}

#[test]
fn sequencing_example() {
    // mocked listTopIds -> [5,6,7]; mocked getDetail -> {id, id*10, id}
    let t = instant(2024, 1, 1, 12, 0, 0);
    let mut b = SnapshotBuilder::new(t, vec![5, 6, 7]);
    while let Some(id) = b.next_id() {
        b.push_detail(detail(id, id * 10, id));
    }
    let snap = b.finish().unwrap();
    assert_eq!(snap.t, t);
    assert_eq!(snap.items, vec![detail(5, 50, 5), detail(6, 60, 6), detail(7, 70, 7)]);

    let line = encode_snapshot(&snap);
    let text = String::from_utf8(line).unwrap();
    assert_eq!(
        text,
        "{\"t\":\"2024-01-01T12:00:00Z\",\"items\":[{\"id\":5,\"s\":50,\"c\":5},{\"id\":6,\"s\":60,\"c\":6},{\"id\":7,\"s\":70,\"c\":7}]}"
    );

    // the serialized line decodes back to an equivalent structure
    let v: serde_json::Value = serde_json::from_str(&text).unwrap();
    assert_eq!(v.get("t").unwrap().as_str().unwrap(), "2024-01-01T12:00:00Z");
    let items = v.get("items").unwrap().as_array().unwrap();
    assert_eq!(items.len(), 3);
    for (i, id) in [5u64, 6, 7].iter().enumerate() {
        assert_eq!(items[i].get("id").unwrap().as_u64().unwrap(), *id);
        assert_eq!(items[i].get("s").unwrap().as_u64().unwrap(), id * 10);
        assert_eq!(items[i].get("c").unwrap().as_u64().unwrap(), *id);
    }
}

#[test]
fn abort_on_failure_yields_no_snapshot() {
    // getDetail fails for the 2nd of 3 ids: the build aborts incomplete
    let mut b = SnapshotBuilder::new(instant(2024, 1, 1, 0, 0, 0), vec![1, 2, 3]);
    let first = b.next_id().unwrap();
    b.push_detail(detail(first, 10, 1));
    let second = b.next_id().unwrap();
    assert_eq!(second, 2);
    // the fetch for `second` fails; nothing more is pushed
    assert_eq!(b.finish(), None); // no line is ever appended for this cycle
}

#[test]
fn empty_snapshot_encodes() {
    let snap = SnapshotBuilder::new(instant(2024, 12, 31, 23, 59, 59), Vec::new())
        .finish()
        .unwrap();
    let line = encode_snapshot(&snap);
    assert_eq!(
        String::from_utf8(line).unwrap(),
        "{\"t\":\"2024-12-31T23:59:59Z\",\"items\":[]}"
    );
}

#[test]
fn record_snapshot_rotates_then_renders() {
    let mut w = OutputWriter::new(b"data".to_vec());
    let mut b = SnapshotBuilder::new(instant(2024, 3, 5, 8, 30, 0), vec![1]);
    b.push_detail(detail(1, 2, 3));
    let snap = b.finish().unwrap();
    let (to_open, line) = w.record_snapshot(&snap);
    assert_eq!(to_open, Some(b"data-2024-03-05.jl".to_vec()));
    assert_eq!(
        String::from_utf8(line).unwrap(),
        "{\"t\":\"2024-03-05T08:30:00Z\",\"items\":[{\"id\":1,\"s\":2,\"c\":3}]}"
    );
    // same date again: idempotent, no second open
    let mut b2 = SnapshotBuilder::new(instant(2024, 3, 5, 9, 0, 0), vec![4]);
    b2.push_detail(detail(4, 0, 0));
    let (to_open2, _) = w.record_snapshot(&b2.finish().unwrap());
    assert_eq!(to_open2, None);
}

#[test]
fn request_paths() {
    assert_eq!(top_stories_path_bytes(), b"topstories.json".to_vec());
    assert_eq!(item_path_bytes(123), b"item/123.json".to_vec());
    assert_eq!(item_path_bytes(0), b"item/0.json".to_vec());
    assert_eq!(item_path_bytes(4294967295), b"item/4294967295.json".to_vec());
}

#[test]
fn instant_from_parts_accepts_exactly_the_renderable_range() {
    let t = hn_watcher::date::instant_from_parts(2024, 1, 2, 3, 4, 5).unwrap();
    assert_eq!(t, instant(2024, 1, 2, 3, 4, 5));
    assert_eq!(hn_watcher::date::instant_from_parts(0, 1, 1, 0, 0, 0), None);
    assert_eq!(hn_watcher::date::instant_from_parts(10000, 1, 1, 0, 0, 0), None);
    assert_eq!(hn_watcher::date::instant_from_parts(-1, 1, 1, 0, 0, 0), None);
    assert_eq!(hn_watcher::date::instant_from_parts(2024, 13, 1, 0, 0, 0), None);
    assert_eq!(hn_watcher::date::instant_from_parts(2024, 1, 32, 0, 0, 0), None);
    assert_eq!(hn_watcher::date::instant_from_parts(2024, 1, 1, 24, 0, 0), None);
    assert_eq!(hn_watcher::date::instant_from_parts(2024, 1, 1, 0, 60, 0), None);
    assert_eq!(hn_watcher::date::instant_from_parts(2024, 1, 1, 0, 0, 60), None);
}

#[test]
fn clock_yields_well_formed_instant() {
    let t = hn_watcher::date::now_instant().unwrap();
    assert!((1..=9999).contains(&t.date.year));
    assert!((1..=12).contains(&t.date.month));
    assert!((1..=31).contains(&t.date.day));
    assert!(t.hour <= 23 && t.minute <= 59 && t.second <= 59);
}
