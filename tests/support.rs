use logmancer::api::{OpenServerFileRequest, Port, ReadPageRequest, TailRequest};
use logmancer::file_id::FileId;
use logmancer::indexer::{IndexerAction, IndexerEvent, IndexerState};
use logmancer::text::{decode_line, trunc_str};

#[test]
fn indexer_runs_a_full_cycle() {
    let s = IndexerState::start();
    assert_eq!(s, IndexerState::Idle);
    assert_eq!(s.step(IndexerEvent::Timeout), (IndexerState::Idle, IndexerAction::WaitForPulse));
    let (s, a) = s.step(IndexerEvent::Pulse);
    assert_eq!((s, a), (IndexerState::Reloading, IndexerAction::Reload));
    let (s, a) = s.step(IndexerEvent::Reloaded { ok: true });
    assert_eq!((s, a), (IndexerState::Indexing, IndexerAction::IndexBlock));
    let (s, a) = s.step(IndexerEvent::Indexed { end_reached: false });
    assert_eq!((s, a), (IndexerState::Indexing, IndexerAction::PauseThenIndex));
    let (s, a) = s.step(IndexerEvent::Pulse);
    assert_eq!((s, a), (IndexerState::Indexing, IndexerAction::IndexBlock));
    let (s, a) = s.step(IndexerEvent::Indexed { end_reached: true });
    assert_eq!((s, a), (IndexerState::Idle, IndexerAction::WaitForPulse));
}

#[test]
fn indexer_failure_is_final() {
    let (s, a) = IndexerState::Reloading.step(IndexerEvent::Reloaded { ok: false });
    assert_eq!((s, a), (IndexerState::Failed, IndexerAction::Stop));
    assert_eq!(s.step(IndexerEvent::Pulse), (IndexerState::Failed, IndexerAction::Stop));
    assert_eq!(
        IndexerState::Indexing.step(IndexerEvent::IndexFailed),
        (IndexerState::Failed, IndexerAction::Stop)
    );
}

#[test]
fn file_ids_round_trip_through_text() {
    let id = FileId::generate();
    let text = id.to_text();
    assert_eq!(text.len(), 36);
    assert_eq!(FileId::parse(&text), Some(id));
    assert_eq!((id.value >> 76) & 0xF, 4);
}

#[test]
fn file_id_text_is_hyphenated_lower_case() {
    let id = FileId { value: 0xa1a2a3a4b1b2c1c2d1d2d3d4d5d6d7d8 };
    assert_eq!(id.to_text(), "a1a2a3a4-b1b2-c1c2-d1d2-d3d4d5d6d7d8");
    assert_eq!(FileId::parse("A1A2A3A4-B1B2-C1C2-D1D2-D3D4D5D6D7D8"), Some(id));
}

#[test]
fn malformed_file_id_is_not_found() {
    assert_eq!(FileId::parse("not-a-uuid"), None);
    assert_eq!(FileId::parse(""), None);
}

#[test]
fn trunc_str_keeps_at_most_max_chars() {
    assert_eq!(trunc_str("hello", 3), "hel");
    assert_eq!(trunc_str("hello", 5), "hello");
    assert_eq!(trunc_str("hello", 9), "hello");
    assert_eq!(trunc_str("h\u{e9}llo", 2), "h\u{e9}");
    assert_eq!(trunc_str("abc", 0), "");
}

#[test]
fn decode_line_trims_trailing_whitespace() {
    assert_eq!(decode_line(b"  text \n"), "  text");
    assert_eq!(decode_line(b""), "");
}

#[test]
fn request_shapes_hold_their_fields() {
    let open = OpenServerFileRequest { path: "/var/log/x".to_string() };
    let page = ReadPageRequest { file_id: "id".to_string(), start_line: 3, max_lines: 20 };
    let tail = TailRequest { file_id: "id".to_string(), max_lines: 20, follow: true };
    assert_eq!(open.clone(), open);
    assert_eq!(page.start_line + page.max_lines, 23);
    assert!(tail.follow);
    assert_eq!(Port(3000), Port(3000));
}
