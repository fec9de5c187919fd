use companion_hivemind::ids::uuid_to_string;
use companion_hivemind::knowledge::{
    KnowledgeService, MeetingLookup, MeetingRow, SearchHit, TranscriptSegment,
};

const MEETING: u128 = 0x550e8400_e29b_41d4_a716_446655440000;

fn seg(text: &str, speaker: &str, start: f64, end: f64) -> TranscriptSegment {
    TranscriptSegment {
        text: text.to_string(),
        speaker: speaker.to_string(),
        start_time_bits: start.to_bits(),
        end_time_bits: end.to_bits(),
        start_offset_ms: (start * 1000.0) as i64,
    }
}

fn segments() -> Vec<TranscriptSegment> {
    vec![
        seg("hello there  everyone", "Ann", 1.5, 1.9),
        seg("   ", "Ben", 2.0, 3.0),
        seg("bye", "", 3.25, 4.125),
    ]
}

#[test]
fn chunk_transcript_documents() {
    let docs = KnowledgeService::chunk_transcript(&segments(), MEETING, 1_700_000_000_000);
    assert_eq!(docs.len(), 2);
    assert_eq!(docs[0].content, "hello there everyone");
    assert_eq!(docs[0].metadata.meeting_id, "550e8400-e29b-41d4-a716-446655440000");
    assert_eq!(f64::from_bits(docs[0].metadata.start_bits), 1.5);
    assert_eq!(f64::from_bits(docs[0].metadata.end_bits), 1.9);
    assert_eq!(docs[0].metadata.chunk_type, "transcript");
    assert_eq!(docs[0].metadata.speaker.as_deref(), Some("Ann"));
    assert_eq!(docs[0].metadata.timestamp, 1_700_000_001_500);
    assert_eq!(docs[1].content, "bye");
    assert_eq!(f64::from_bits(docs[1].metadata.start_bits), 3.25);
    assert_eq!(f64::from_bits(docs[1].metadata.end_bits), 4.125);
    assert_eq!(docs[1].metadata.speaker, None);
    assert_eq!(docs[1].metadata.timestamp, 1_700_000_003_250);
}

#[test]
fn chunk_transcript_long_segment() {
    let text: Vec<String> = (0..500).map(|i| format!("w{}", i)).collect();
    let segs = vec![seg(&text.join(" "), "S", 0.0, 60.0)];
    let docs = KnowledgeService::chunk_transcript(&segs, 1, 0);
    assert_eq!(docs.len(), 2);
    assert!(docs[0].content.starts_with("w0 "));
    assert!(docs[0].content.ends_with(" w399"));
    assert!(docs[1].content.starts_with("w320 "));
    assert!(docs[1].content.ends_with(" w499"));
}

#[test]
fn ingest_rows_follow_documents() {
    let docs = KnowledgeService::chunk_transcript(&segments(), MEETING, 10);
    let rows = KnowledgeService::ingest_documents(&docs, &vec![100, 200], MEETING, 99);
    assert_eq!(rows.len(), 2);
    assert_eq!(rows[0].id, 100);
    assert_eq!(rows[1].id, 200);
    assert_eq!(rows[0].meeting_id, MEETING);
    assert_eq!(rows[0].segment_id, None);
    assert_eq!(rows[0].text, "hello there everyone");
    assert_eq!(rows[0].speaker.as_deref(), Some("Ann"));
    assert_eq!(rows[0].timestamp, Some(1_510));
    assert_eq!(rows[0].chunk_type, "transcript");
    assert_eq!(rows[0].metadata, docs[0].metadata);
    assert_eq!(rows[1].speaker, None);
    assert_eq!(rows[1].created_at, 99);
}

fn hit(meeting_id: Option<&str>) -> SearchHit {
    SearchHit {
        text: "t".to_string(),
        meeting_id: meeting_id.map(|s| s.to_string()),
        speaker: None,
        timestamp: None,
        chunk_type: None,
    }
}

#[test]
fn lookups_skip_hits_without_meeting() {
    let id = uuid_to_string(MEETING);
    let hits = vec![hit(Some(&id)), hit(None), hit(Some("bogus")), hit(Some("00000000-0000-0000-0000-000000000007"))];
    let lookups = KnowledgeService::meeting_lookups(&hits);
    assert_eq!(lookups, vec![MeetingLookup { hit: 0, meeting_id: MEETING }, MeetingLookup { hit: 3, meeting_id: 7 }]);
}

#[test]
fn transcript_chunks_found_by_search() {
    let docs = KnowledgeService::chunk_transcript(&segments(), MEETING, 0);
    let hits: Vec<SearchHit> = docs.iter().map(|d| hit(Some(&d.metadata.meeting_id))).collect();
    let lookups = KnowledgeService::meeting_lookups(&hits);
    assert_eq!(lookups.len(), docs.len());
    for (k, l) in lookups.iter().enumerate() {
        assert_eq!(l.hit, k);
        assert_eq!(l.meeting_id, MEETING);
    }
}

#[test]
fn search_result_with_and_without_meeting() {
    let h = SearchHit {
        text: "some text".to_string(),
        meeting_id: Some(uuid_to_string(MEETING)),
        speaker: Some("Ann".to_string()),
        timestamp: Some(5),
        chunk_type: Some("note".to_string()),
    };
    let l = MeetingLookup { hit: 4, meeting_id: MEETING };
    let r = KnowledgeService::search_result(&h, &l, Some(MeetingRow { id: MEETING, title: "Standup".to_string(), date: 42 }));
    assert_eq!(r.hit, 4);
    assert_eq!(r.text, "some text");
    assert_eq!(r.speaker.as_deref(), Some("Ann"));
    assert_eq!(r.timestamp, Some(5));
    assert_eq!(r.chunk_type, "note");
    assert_eq!(r.meeting_id, "550e8400-e29b-41d4-a716-446655440000");
    assert_eq!(r.meeting.id, "550e8400-e29b-41d4-a716-446655440000");
    assert_eq!(r.meeting.title, "Standup");
    assert_eq!(r.meeting.date, 42);

    let plain = hit(Some("x"));
    let r = KnowledgeService::search_result(&plain, &l, None);
    assert_eq!(r.chunk_type, "transcript");
    assert_eq!(r.meeting.title, "Unknown");
    assert_eq!(r.meeting.date, 0);
    assert_eq!(r.meeting.id, "550e8400-e29b-41d4-a716-446655440000");
}

#[test]
fn chunk_transcript_wordless_segment_with_huge_offset() {
    let segs = vec![
        TranscriptSegment { start_offset_ms: i64::MAX, ..seg("  ", "A", 0.0, 1.0) },
        seg("hi", "B", 0.25, 0.5),
    ];
    let docs = KnowledgeService::chunk_transcript(&segs, 1, 100);
    assert_eq!(docs.len(), 1);
    assert_eq!(f64::from_bits(docs[0].metadata.start_bits), 0.25);
    assert_eq!(docs[0].metadata.timestamp, 350);
}

#[test]
fn chunk_transcript_segments_independent() {
    let a = segments();
    let b = vec![seg("x y", "Z", 0.007, 0.5)];
    let whole: Vec<TranscriptSegment> = a.iter().chain(b.iter()).cloned().collect();
    let da = KnowledgeService::chunk_transcript(&a, MEETING, 0);
    let db = KnowledgeService::chunk_transcript(&b, MEETING, 0);
    let dw = KnowledgeService::chunk_transcript(&whole, MEETING, 0);
    assert_eq!(dw.len(), da.len() + db.len());
    assert_eq!(&dw[..da.len()], &da[..]);
    assert_eq!(&dw[da.len()..], &db[..]);
}
