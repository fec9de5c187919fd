//! Meeting knowledge: transcripts cut into overlapping word windows for
//! vector ingestion, the rows stored for them, and the results assembled
//! from a vector search.

use vstd::prelude::*;
use crate::ids::{parse_uuid, uuid_parse, uuid_text, uuid_to_string};
use crate::models::KnowledgeChunk;
use crate::text::{
    chars_of, is_word, join, join_range, window, lemma_chunks_from_windows, law_words_of_join, trim, lemma_join_trimmed, lemma_word_count,
    lemma_words_are_words, split_chunks, chunks_from, word_ranges, words,
};

verus! {

/// Words per transcript chunk.
pub const CHUNK_SIZE: usize = 400;

/// Words shared by consecutive chunks of a segment.
pub const CHUNK_OVERLAP: usize = 80;


/// A transcript segment as the chunker reads it: its text, its speaker
/// (empty when unknown), its start and end times in seconds, held as the
/// bits of `f64` values (`f64::to_bits`) and copied through unchanged, and
/// its start within the meeting in whole milliseconds (the start time
/// times 1000, truncated).
#[derive(Debug, Clone, PartialEq, Eq)]
pub struct TranscriptSegment {
    pub text: String,
    pub speaker: String,
    pub start_time_bits: u64,
    pub end_time_bits: u64,
    pub start_offset_ms: i64,
}

/// What a knowledge document records about where its text comes from.
#[derive(Debug, Clone, PartialEq, Eq)]
pub struct ChunkMetadata {
    /// The meeting's identifier in hyphenated text form.
    pub meeting_id: String,
    /// The start time in seconds of the segment the text was cut from, as
    /// the bits of an `f64`.
    pub start_bits: u64,
    /// The end time in seconds of that segment, as the bits of an `f64`.
    pub end_bits: u64,
    pub chunk_type: String,
    /// The speaker, when the segment names one.
    pub speaker: Option<String>,
    /// Milliseconds since the Unix epoch at which the segment starts.
    pub timestamp: i64,
}

/// A knowledge document ready for vector ingestion.
#[derive(Debug, Clone, PartialEq, Eq)]
pub struct KnowledgeDocument {
    pub content: String,
    pub metadata: ChunkMetadata,
}

/// The service that chunks, stores and searches meeting knowledge.
#[derive(Debug, Clone, Copy)]
pub struct KnowledgeService;

/// The chunk type of transcript text.
pub open spec fn transcript_type() -> Seq<char> {
    "transcript"@
}

/// The chunks of the segments' texts, in order, each with the index of its
/// segment.
pub open spec fn segment_chunks(texts: Seq<Seq<char>>) -> Seq<(int, Seq<char>)>
    decreases texts.len(),
{
    if texts.len() == 0 {
        seq![]
    } else {
        let last = texts.len() - 1;
        segment_chunks(texts.drop_last()) + split_chunks(
            texts.last(),
            CHUNK_SIZE as nat,
            CHUNK_OVERLAP as nat,
        ).map(|_k: int, c: Seq<char>| (last, c))
    }
}

/// The segment texts of a transcript.
pub open spec fn segment_texts(segments: Seq<TranscriptSegment>) -> Seq<Seq<char>> {
    segments.map(|_k: int, s: TranscriptSegment| s.text@)
}

/// Whether `d` is the document for chunk `content` of segment `seg` of
/// meeting `meeting_id` held at `meeting_date`.
pub open spec fn is_chunk_document(
    d: KnowledgeDocument,
    content: Seq<char>,
    seg: TranscriptSegment,
    meeting_id: u128,
    meeting_date: i64,
) -> bool {
    &&& d.content@ == content
    &&& d.metadata.meeting_id@ == uuid_text(meeting_id)
    &&& uuid_parse(d.metadata.meeting_id@) == Some(meeting_id)
    &&& d.metadata.start_bits == seg.start_time_bits
    &&& d.metadata.end_bits == seg.end_time_bits
    &&& d.metadata.chunk_type@ == transcript_type()
    &&& (if seg.speaker@.len() == 0 {
        d.metadata.speaker is None
    } else {
        d.metadata.speaker matches Some(s) && s@ == seg.speaker@
    })
    &&& d.metadata.timestamp == meeting_date + seg.start_offset_ms
}

/// Whether chunking segment `seg` of a meeting held at `meeting_date`
/// returns normally: its text splits (`split_admits` with `CHUNK_SIZE` and
/// `CHUNK_OVERLAP`), and, when it has words, its start time in
/// milliseconds since the epoch fits in `i64`.
pub open spec fn segment_admitted(seg: TranscriptSegment, meeting_date: i64) -> bool {
    &&& split_admits(seg.text@, CHUNK_SIZE as nat, CHUNK_OVERLAP as nat)
    &&& words(seg.text@).len() > 0 ==> i64::MIN <= meeting_date + seg.start_offset_ms <= i64::MAX
}

/// Document `k` of `docs` is the document of chunk `k` of `segments`.
pub open spec fn document_at(
    docs: Seq<KnowledgeDocument>,
    k: int,
    segments: Seq<TranscriptSegment>,
    meeting_id: u128,
    meeting_date: i64,
) -> bool {
    let p = segment_chunks(segment_texts(segments))[k];
    &&& 0 <= p.0 < segments.len()
    &&& is_chunk_document(docs[k], p.1, segments[p.0], meeting_id, meeting_date)
}

/// `docs` are the documents of the chunks of `segments`, in order.
pub open spec fn documents_of_transcript(
    docs: Seq<KnowledgeDocument>,
    segments: Seq<TranscriptSegment>,
    meeting_id: u128,
    meeting_date: i64,
) -> bool {
    &&& docs.len() == segment_chunks(segment_texts(segments)).len()
    &&& forall|k: int|
        0 <= k < docs.len() ==> #[trigger] document_at(docs, k, segments, meeting_id, meeting_date)
}

/// The segment index of every chunk lies among the segments.
pub proof fn lemma_segment_chunks_index(texts: Seq<Seq<char>>)
    ensures
        forall|k: int|
            0 <= k < segment_chunks(texts).len() ==> 0 <= (#[trigger] segment_chunks(texts)[k]).0
                < texts.len(),
    decreases texts.len(),
{
    if texts.len() > 0 {
        let p = texts.drop_last();
        lemma_segment_chunks_index(p);
        let last = texts.len() - 1;
        let added = split_chunks(texts.last(), CHUNK_SIZE as nat, CHUNK_OVERLAP as nat).map(
            |_k: int, c: Seq<char>| (last, c),
        );
        assert(segment_chunks(texts) == segment_chunks(p) + added);
        assert forall|k: int| 0 <= k < segment_chunks(texts).len() implies 0 <= (
        #[trigger] segment_chunks(texts)[k]).0 < texts.len() by {
            if k < segment_chunks(p).len() {
                assert(segment_chunks(texts)[k] == segment_chunks(p)[k]);
            } else {
                assert(segment_chunks(texts)[k] == added[k - segment_chunks(p).len()]);
            }
        }
    }
}

impl KnowledgeService {
    /// Cuts each segment's text into chunks (`split_text` with
    /// `CHUNK_SIZE` and `CHUNK_OVERLAP`) and makes a document of each, in
    /// order: its metadata names the meeting, the segment's start and end
    /// times, the chunk type `transcript`, the speaker when there is one,
    /// and the time the segment starts in milliseconds since the epoch.
    pub fn chunk_transcript(
        segments: &Vec<TranscriptSegment>,
        meeting_id: u128,
        meeting_date: i64,
    ) -> (r: Vec<KnowledgeDocument>)
        requires
            forall|i: int|
                0 <= i < segments@.len() ==> #[trigger] segment_admitted(segments@[i], meeting_date),
        ensures
            documents_of_transcript(r@, segments@, meeting_id, meeting_date),
    {
        let id_text = uuid_to_string(meeting_id);
        let mut docs: Vec<KnowledgeDocument> = Vec::new();
        let n = segments.len();
        let ghost texts = segment_texts(segments@);
        let mut s: usize = 0;
        while s < n
            invariant
                n == segments@.len() == texts.len(),
                s <= n,
                texts == segment_texts(segments@),
                id_text@ == uuid_text(meeting_id),
                uuid_parse(id_text@) == Some(meeting_id),
                forall|i: int|
                    0 <= i < segments@.len() ==> #[trigger] segment_admitted(
                        segments@[i],
                        meeting_date,
                    ),
                docs@.len() == segment_chunks(texts.take(s as int)).len(),
                forall|k: int|
                    0 <= k < docs@.len() ==> {
                        let (i, c) = segment_chunks(texts.take(s as int))[k];
                        &&& 0 <= i < s
                        &&& is_chunk_document(
                            #[trigger] docs@[k],
                            c,
                            segments@[i],
                            meeting_id,
                            meeting_date,
                        )
                    },
            decreases n - s,
        {
            let seg = &segments[s];
            proof {
                assert(segment_admitted(segments@[s as int], meeting_date));
            }
            let pieces = split_text(seg.text.as_str(), CHUNK_SIZE, CHUNK_OVERLAP);
            let ghost before = docs@;
            let ghost prefix = segment_chunks(texts.take(s as int));
            let ghost added = split_chunks(texts[s as int], CHUNK_SIZE as nat, CHUNK_OVERLAP as nat);
            proof {
                assert(texts[s as int] == seg.text@);
                assert(texts.take(s + 1).drop_last() =~= texts.take(s as int));
                assert(texts.take(s + 1).last() == texts[s as int]);
                lemma_segment_chunks_index(texts.take(s as int));
            }
            let m = pieces.len();
            let mut j: usize = 0;
            while j < m
                invariant
                    n == segments@.len() == texts.len(),
                    s < n,
                    seg == segments@[s as int],
                    segment_admitted(*seg, meeting_date),
                    added == split_chunks(seg.text@, CHUNK_SIZE as nat, CHUNK_OVERLAP as nat),
                    id_text@ == uuid_text(meeting_id),
                    uuid_parse(id_text@) == Some(meeting_id),
                    m == pieces@.len() == added.len(),
                    forall|k: int| 0 <= k < m ==> (#[trigger] pieces@[k])@ == added[k],
                    j <= m,
                    before.len() == prefix.len(),
                    docs@.len() == before.len() + j,
                    forall|k: int| 0 <= k < before.len() ==> docs@[k] == before[k],
                    forall|k: int|
                        0 <= k < j ==> is_chunk_document(
                            #[trigger] docs@[before.len() + k],
                            added[k],
                            segments@[s as int],
                            meeting_id,
                            meeting_date,
                        ),
                decreases m - j,
            {
                let speaker = if seg.speaker.as_str().is_empty() {
                    None
                } else {
                    Some(seg.speaker.clone())
                };
                let chunk_type = String::from_str("transcript");
                proof {
                    if words(seg.text@).len() == 0 {
                        assert(added.len() == 0);
                    }
                }
                let timestamp = meeting_date + seg.start_offset_ms;
                let ghost old_docs = docs@;
                let doc = KnowledgeDocument {
                    content: pieces[j].clone(),
                    metadata: ChunkMetadata {
                        meeting_id: id_text.clone(),
                        start_bits: seg.start_time_bits,
                        end_bits: seg.end_time_bits,
                        chunk_type,
                        speaker,
                        timestamp,
                    },
                };
                docs.push(doc);
                proof {
                    assert(docs@[before.len() + j] == doc);
                    assert(doc.content@ == added[j as int]);
                    assert(doc.metadata.chunk_type@ == transcript_type());
                    assert(doc.metadata.timestamp == meeting_date + segments@[s as int].start_offset_ms);
                    assert(is_chunk_document(
                        docs@[before.len() + j],
                        added[j as int],
                        segments@[s as int],
                        meeting_id,
                        meeting_date,
                    ));
                    assert forall|k: int|
                        0 <= k < j + 1 implies is_chunk_document(
                        #[trigger] docs@[before.len() + k],
                        added[k],
                        segments@[s as int],
                        meeting_id,
                        meeting_date,
                    ) by {
                        if k < j {
                            assert(docs@[before.len() + k] == old_docs[before.len() + k]);
                        }
                    }
                }
                j = j + 1;
            }
            proof {
                let next = segment_chunks(texts.take(s + 1));
                assert(next =~= prefix + added.map(|_k: int, c: Seq<char>| (s as int, c)));
                assert forall|k: int| 0 <= k < docs@.len() implies {
                    let (i, c) = next[k];
                    &&& 0 <= i < s + 1
                    &&& is_chunk_document(
                        #[trigger] docs@[k],
                        c,
                        segments@[i],
                        meeting_id,
                        meeting_date,
                    )
                } by {
                    if k >= before.len() {
                        let kk = k - before.len();
                        assert(next[k] == (s as int, added[kk]));
                        assert(docs@[before.len() + kk] == docs@[k]);
                    } else {
                        assert(next[k] == prefix[k]);
                        assert(docs@[k] == before[k]);
                    }
                }
            }
            s = s + 1;
        }
        proof {
            assert(texts.take(n as int) =~= texts);
            assert(segment_chunks(texts.take(s as int)) == segment_chunks(texts));
            assert forall|k: int| 0 <= k < docs@.len() implies #[trigger] document_at(
                docs@,
                k,
                segments@,
                meeting_id,
                meeting_date,
            ) by {
                let _d = docs@[k];
            }
        }
        docs
    }

}

/// Where a vector-search hit says its text comes from, as far as the
/// result reads it: the text, and the `meeting_id`, `speaker`, `timestamp`
/// and `chunk_type` entries of its metadata where they are present with
/// the right kind of value.
#[derive(Debug, Clone, PartialEq, Eq)]
pub struct SearchHit {
    pub text: String,
    pub meeting_id: Option<String>,
    pub speaker: Option<String>,
    pub timestamp: Option<i64>,
    pub chunk_type: Option<String>,
}

/// A hit whose meeting is to be looked up: its index among the hits and
/// the meeting's identifier.
#[derive(Debug, Clone, Copy, PartialEq, Eq)]
pub struct MeetingLookup {
    pub hit: usize,
    pub meeting_id: u128,
}

/// A meeting of the searching company, as the search reads it.
#[derive(Debug, Clone, PartialEq, Eq)]
pub struct MeetingRow {
    pub id: u128,
    pub title: String,
    pub date: i64,
}

/// The meeting part of a search result.
#[derive(Debug, Clone, PartialEq, Eq)]
pub struct MeetingSummary {
    pub id: String,
    pub title: String,
    pub date: i64,
}

/// One search result: the chunk (text, speaker, timestamp, chunk type and
/// meeting identifier) with its meeting. `hit` is the index of the hit it
/// comes from, whose score and metadata it carries along.
#[derive(Debug, Clone, PartialEq, Eq)]
pub struct KnowledgeSearchResult {
    pub hit: usize,
    pub text: String,
    pub speaker: Option<String>,
    pub timestamp: Option<i64>,
    pub chunk_type: String,
    pub meeting_id: String,
    pub meeting: MeetingSummary,
}

/// The meeting identifier a hit names, when its `meeting_id` parses as a
/// UUID.
pub open spec fn hit_meeting(h: SearchHit) -> Option<u128> {
    match h.meeting_id {
        Some(s) => uuid_parse(s@),
        None => None,
    }
}

/// The hits that name a meeting, in order, with that meeting.
pub open spec fn lookups_of(hits: Seq<SearchHit>) -> Seq<(int, u128)>
    decreases hits.len(),
{
    if hits.len() == 0 {
        seq![]
    } else {
        let last = hits.len() - 1;
        match hit_meeting(hits.last()) {
            Some(m) => lookups_of(hits.drop_last()).push((last, m)),
            None => lookups_of(hits.drop_last()),
        }
    }
}

/// The title of a meeting that could not be found.
pub open spec fn unknown_title() -> Seq<char> {
    "Unknown"@
}

/// The result for hit `hit` of meeting `meeting_id`, given the meeting's
/// row when it was found.
pub open spec fn is_search_result(
    r: KnowledgeSearchResult,
    index: int,
    hit: SearchHit,
    meeting_id: u128,
    row: Option<MeetingRow>,
) -> bool {
    &&& r.hit == index
    &&& r.text@ == hit.text@
    &&& r.speaker == hit.speaker
    &&& r.timestamp == hit.timestamp
    &&& r.chunk_type@ == (match hit.chunk_type {
        Some(t) => t@,
        None => transcript_type(),
    })
    &&& r.meeting_id@ == uuid_text(meeting_id)
    &&& match row {
        Some(m) => {
            &&& r.meeting.id@ == uuid_text(m.id)
            &&& r.meeting.title == m.title
            &&& r.meeting.date == m.date
        },
        None => {
            &&& r.meeting.id@ == uuid_text(meeting_id)
            &&& r.meeting.title@ == unknown_title()
            &&& r.meeting.date == 0
        },
    }
}

/// The stored chunk for document `doc` of meeting `meeting_id`, stored at
/// `now` under `id`.
pub open spec fn is_chunk_row(
    row: KnowledgeChunk,
    doc: KnowledgeDocument,
    id: u128,
    meeting_id: u128,
    now: i64,
) -> bool {
    &&& row.id == id
    &&& row.meeting_id == meeting_id
    &&& row.segment_id is None
    &&& row.text == doc.content
    &&& row.speaker == doc.metadata.speaker
    &&& row.timestamp == Some(doc.metadata.timestamp)
    &&& row.chunk_type@ == transcript_type()
    &&& row.embedding is None
    &&& row.metadata == doc.metadata
    &&& row.created_at == now
}

fn copy_text(s: &Option<String>) -> (r: Option<String>)
    ensures
        r == *s,
{
    match s {
        Some(t) => Some(t.clone()),
        None => None,
    }
}

fn chunk_type_or_transcript(t: &Option<String>) -> (r: String)
    ensures
        r@ == (match *t {
            Some(u) => u@,
            None => transcript_type(),
        }),
{
    match t {
        Some(u) => u.clone(),
        None => {
            String::from_str("transcript")
        },
    }
}

fn copy_metadata(m: &ChunkMetadata) -> (r: ChunkMetadata)
    ensures
        r == *m,
{
    ChunkMetadata {
        meeting_id: m.meeting_id.clone(),
        start_bits: m.start_bits,
        end_bits: m.end_bits,
        chunk_type: m.chunk_type.clone(),
        speaker: copy_text(&m.speaker),
        timestamp: m.timestamp,
    }
}

fn chunk_row(doc: &KnowledgeDocument, id: u128, meeting_id: u128, now: i64) -> (r: KnowledgeChunk)
    ensures
        is_chunk_row(r, *doc, id, meeting_id, now),
{
    let chunk_type = String::from_str("transcript");
    KnowledgeChunk {
        id,
        meeting_id,
        segment_id: None,
        text: doc.content.clone(),
        speaker: copy_text(&doc.metadata.speaker),
        timestamp: Some(doc.metadata.timestamp),
        chunk_type,
        embedding: None,
        metadata: copy_metadata(&doc.metadata),
        created_at: now,
    }
}

fn meeting_summary(row: Option<MeetingRow>, meeting_id: u128) -> (r: MeetingSummary)
    ensures
        match row {
            Some(m) => {
                &&& r.id@ == uuid_text(m.id)
                &&& r.title == m.title
                &&& r.date == m.date
            },
            None => {
                &&& r.id@ == uuid_text(meeting_id)
                &&& r.title@ == unknown_title()
                &&& r.date == 0
            },
        },
{
    match row {
        Some(m) => MeetingSummary { id: uuid_to_string(m.id), title: m.title, date: m.date },
        None => {
            MeetingSummary { id: uuid_to_string(meeting_id), title: String::from_str("Unknown"), date: 0 }
        },
    }
}

impl KnowledgeService {
    /// The rows that ingesting `docs` for meeting `meeting_id` at `now`
    /// stores, one per document, in order, the row of `docs[k]` under
    /// `ids[k]`. The documents themselves go to the vector store after the
    /// rows.
    pub fn ingest_documents(
        docs: &Vec<KnowledgeDocument>,
        ids: &Vec<u128>,
        meeting_id: u128,
        now: i64,
    ) -> (r: Vec<KnowledgeChunk>)
        requires
            ids@.len() == docs@.len(),
        ensures
            r@.len() == docs@.len(),
            forall|k: int|
                0 <= k < r@.len() ==> is_chunk_row(
                    #[trigger] r@[k],
                    docs@[k],
                    ids@[k],
                    meeting_id,
                    now,
                ),
    {
        let mut rows: Vec<KnowledgeChunk> = Vec::new();
        let n = docs.len();
        let mut k: usize = 0;
        while k < n
            invariant
                n == docs@.len() == ids@.len(),
                k <= n,
                rows@.len() == k,
                forall|m: int|
                    0 <= m < k ==> is_chunk_row(
                        #[trigger] rows@[m],
                        docs@[m],
                        ids@[m],
                        meeting_id,
                        now,
                    ),
            decreases n - k,
        {
            rows.push(chunk_row(&docs[k], ids[k], meeting_id, now));
            k = k + 1;
        }
        rows
    }

    /// The hits whose metadata names a meeting by a parseable identifier,
    /// in order, with that identifier: the meetings to look up.
    pub fn meeting_lookups(hits: &Vec<SearchHit>) -> (r: Vec<MeetingLookup>)
        ensures
            r@.len() == lookups_of(hits@).len(),
            forall|k: int|
                0 <= k < r@.len() ==> (#[trigger] r@[k]).hit == lookups_of(hits@)[k].0
                    && r@[k].meeting_id == lookups_of(hits@)[k].1,
            forall|k: int|
                0 <= k < r@.len() ==> {
                    let l = #[trigger] r@[k];
                    &&& l.hit < hits@.len()
                    &&& hits@[l.hit as int].meeting_id matches Some(s) && uuid_parse(s@) == Some(
                        l.meeting_id,
                    )
                },
    {
        let mut out: Vec<MeetingLookup> = Vec::new();
        let n = hits.len();
        let mut k: usize = 0;
        while k < n
            invariant
                n == hits@.len(),
                k <= n,
                out@.len() == lookups_of(hits@.take(k as int)).len(),
                forall|m: int|
                    0 <= m < out@.len() ==> (#[trigger] out@[m]).hit == lookups_of(
                        hits@.take(k as int),
                    )[m].0 && out@[m].meeting_id == lookups_of(hits@.take(k as int))[m].1,
            decreases n - k,
        {
            let parsed = match &hits[k].meeting_id {
                Some(s) => parse_uuid(s.as_str()),
                None => None,
            };
            proof {
                assert(hits@.take(k + 1).drop_last() =~= hits@.take(k as int));
                assert(hits@.take(k + 1).last() == hits@[k as int]);
            }
            match parsed {
                Some(m) => {
                    out.push(MeetingLookup { hit: k, meeting_id: m });
                },
                None => {},
            }
            k = k + 1;
        }
        proof {
            assert(hits@.take(n as int) =~= hits@);
            law_lookups_name_own_meeting(hits@);
            assert forall|k: int| 0 <= k < out@.len() implies {
                let l = #[trigger] out@[k];
                &&& l.hit < hits@.len()
                &&& hits@[l.hit as int].meeting_id matches Some(s) && uuid_parse(s@) == Some(
                    l.meeting_id,
                )
            } by {
                let _p = lookups_of(hits@)[k];
            }
        }
        out
    }

    /// The search result for hit number `lookup.hit`, whose meeting is
    /// `lookup.meeting_id`, given that meeting's row when the company has
    /// it: the chunk type defaults to `transcript`, and a meeting that was
    /// not found is reported as `Unknown`, dated 0.
    pub fn search_result(hit: &SearchHit, lookup: &MeetingLookup, row: Option<MeetingRow>) -> (r:
        KnowledgeSearchResult)
        ensures
            is_search_result(r, lookup.hit as int, *hit, lookup.meeting_id, row),
    {
        KnowledgeSearchResult {
            hit: lookup.hit,
            text: hit.text.clone(),
            speaker: copy_text(&hit.speaker),
            timestamp: hit.timestamp,
            chunk_type: chunk_type_or_transcript(&hit.chunk_type),
            meeting_id: uuid_to_string(lookup.meeting_id),
            meeting: meeting_summary(row, lookup.meeting_id),
        }
    }
}

/// When every hit names meeting `m`, every hit is looked up, in order, for
/// meeting `m`.
pub proof fn lemma_lookups_all(hits: Seq<SearchHit>, m: u128)
    requires
        forall|k: int| 0 <= k < hits.len() ==> hit_meeting(#[trigger] hits[k]) == Some(m),
    ensures
        lookups_of(hits) == Seq::new(hits.len(), |k: int| (k, m)),
    decreases hits.len(),
{
    if hits.len() > 0 {
        let p = hits.drop_last();
        assert forall|k: int| 0 <= k < p.len() implies hit_meeting(#[trigger] p[k]) == Some(m) by {
            assert(p[k] == hits[k]);
        }
        lemma_lookups_all(p, m);
        assert(hit_meeting(hits[hits.len() - 1]) == Some(m));
        assert(lookups_of(hits) =~= Seq::new(hits.len(), |k: int| (k, m)));
    } else {
        assert(lookups_of(hits) =~= Seq::new(hits.len(), |k: int| (k, m)));
    }
}

/// Each hit is looked up under the meeting its own metadata names, and no
/// other: every lookup is for a hit whose `meeting_id` parses as a UUID,
/// and carries exactly that UUID; the lookups follow the order of the
/// hits; and every hit whose `meeting_id` parses is looked up.
pub proof fn law_lookups_name_own_meeting(hits: Seq<SearchHit>)
    ensures
        forall|j: int|
            0 <= j < lookups_of(hits).len() ==> {
                let (k, m) = #[trigger] lookups_of(hits)[j];
                &&& 0 <= k < hits.len()
                &&& hits[k].meeting_id matches Some(s) && uuid_parse(s@) == Some(m)
            },
        forall|i: int, j: int|
            0 <= i < j < lookups_of(hits).len() ==> (#[trigger] lookups_of(hits)[i]).0
                < (#[trigger] lookups_of(hits)[j]).0,
        forall|k: int|
            0 <= k < hits.len() ==> ((exists|j: int|
                0 <= j < lookups_of(hits).len() && (#[trigger] lookups_of(hits)[j]).0 == k) <==> (match (
            #[trigger] hits[k]).meeting_id {
                Some(s) => uuid_parse(s@) is Some,
                None => false,
            })),
    decreases hits.len(),
{
    if hits.len() > 0 {
        let p = hits.drop_last();
        let last = hits.len() - 1;
        law_lookups_name_own_meeting(p);
        let lp = lookups_of(p);
        let l = lookups_of(hits);
        assert(forall|k: int| 0 <= k < p.len() ==> p[k] == hits[k]);
        match hit_meeting(hits.last()) {
            Some(m) => {
                assert(l == lp.push((last, m)));
            },
            None => {
                assert(l == lp);
            },
        }
        assert forall|j: int| 0 <= j < l.len() implies {
            let (k, m) = #[trigger] l[j];
            &&& 0 <= k < hits.len()
            &&& hits[k].meeting_id matches Some(s) && uuid_parse(s@) == Some(m)
        } by {
            if j < lp.len() {
                assert(l[j] == lp[j]);
                assert(p[lp[j].0] == hits[lp[j].0]);
            }
        }
        assert forall|i: int, j: int| 0 <= i < j < l.len() implies (#[trigger] l[i]).0 < (
        #[trigger] l[j]).0 by {
            assert(l[i] == lp[i]);
            if j < lp.len() {
                assert(l[j] == lp[j]);
            } else {
                assert(lp[i].0 < p.len());
            }
        }
        assert forall|k: int| 0 <= k < hits.len() implies ((exists|j: int|
            0 <= j < l.len() && (#[trigger] l[j]).0 == k) <==> (match (#[trigger] hits[k]).meeting_id {
            Some(s) => uuid_parse(s@) is Some,
            None => false,
        })) by {
            if k < last {
                assert(p[k] == hits[k]);
                if exists|j: int| 0 <= j < l.len() && (#[trigger] l[j]).0 == k {
                    let j = choose|j: int| 0 <= j < l.len() && (#[trigger] l[j]).0 == k;
                    if j >= lp.len() {
                        assert(l[j].0 == last);
                    } else {
                        assert(l[j] == lp[j]);
                    }
                }
                if exists|j: int| 0 <= j < lp.len() && (#[trigger] lp[j]).0 == k {
                    let j = choose|j: int| 0 <= j < lp.len() && (#[trigger] lp[j]).0 == k;
                    assert(l[j] == lp[j]);
                }
            } else {
                if hit_meeting(hits.last()) is Some {
                    assert(l[lp.len() as int].0 == k);
                } else {
                    if exists|j: int| 0 <= j < l.len() && (#[trigger] l[j]).0 == k {
                        let j = choose|j: int| 0 <= j < l.len() && (#[trigger] l[j]).0 == k;
                        assert(l[j] == lp[j]);
                        assert(lp[j].0 < p.len());
                    }
                }
            }
        }
    }
}

/// Chunks of a meeting's transcript are found again by a search: when the
/// hits carry, in order, the meeting identifiers written into the
/// documents of `chunk_transcript`, every hit is looked up, for that
/// meeting.
pub proof fn law_transcript_chunks_found_by_search(
    docs: Seq<KnowledgeDocument>,
    segments: Seq<TranscriptSegment>,
    meeting_id: u128,
    meeting_date: i64,
    hits: Seq<SearchHit>,
)
    requires
        documents_of_transcript(docs, segments, meeting_id, meeting_date),
        hits.len() == docs.len(),
        forall|k: int|
            0 <= k < hits.len() ==> (#[trigger] hits[k]).meeting_id == Some(
                docs[k].metadata.meeting_id,
            ),
    ensures
        lookups_of(hits) == Seq::new(hits.len(), |k: int| (k, meeting_id)),
{
    assert forall|k: int| 0 <= k < hits.len() implies hit_meeting(#[trigger] hits[k]) == Some(
        meeting_id,
    ) by {
        assert(document_at(docs, k, segments, meeting_id, meeting_date));
    }
    lemma_lookups_all(hits, meeting_id);
}

/// Chunk `k` of `split_text(text, size, overlap)` is words `k * step` up
/// to (not including) `k * step + size`, or to the end, of the text,
/// joined with single spaces, where `step = size - overlap`; splitting it
/// again gives exactly those words; it is not empty and has no surrounding
/// whitespace.
pub open spec fn chunk_is_window(text: Seq<char>, size: nat, overlap: nat, k: int) -> bool {
    let ws = words(text);
    let n = ws.len() as int;
    let step = size - overlap;
    let cs = split_chunks(text, size, overlap);
    let end = if k * step + size < n {
        k * step + size
    } else {
        n
    };
    &&& k * step < n
    &&& cs[k] == join(ws.subrange(k * step, end))
    &&& words(cs[k]) == ws.subrange(k * step, end)
    &&& cs[k].len() > 0
    &&& trim(cs[k]) == cs[k]
}

/// Word `j` of the text lies in chunk `j / step` of
/// `split_text(text, size, overlap)`, where `step = size - overlap`.
pub open spec fn word_in_chunk(text: Seq<char>, size: nat, overlap: nat, j: int) -> bool {
    let step = size - overlap;
    &&& j / step < split_chunks(text, size, overlap).len()
    &&& (j / step) * step <= j < (j / step) * step + size
}

/// What `split_text` makes of a text, in terms of its `n` words (windows
/// start apart whenever there is a word): there are
/// `ceil(n / (size - overlap))` chunks, each a window of the words
/// (`chunk_is_window`), and every word lies in a chunk (`word_in_chunk`).
pub proof fn law_split_text_windows(text: Seq<char>, size: nat, overlap: nat)
    requires
        words(text).len() > 0 ==> overlap < size,
    ensures
        split_chunks(text, size, overlap).len() == (if words(text).len() == 0 {
            0
        } else {
            (words(text).len() + (size - overlap) - 1) / ((size - overlap) as int)
        }),
        forall|k: int|
            0 <= k < split_chunks(text, size, overlap).len() ==> #[trigger] chunk_is_window(
                text,
                size,
                overlap,
                k,
            ),
        forall|j: int|
            0 <= j < words(text).len() ==> #[trigger] word_in_chunk(text, size, overlap, j),
{
    let ws = words(text);
    let n = ws.len() as int;
    let step = (size - overlap) as nat;
    let d = step as int;
    let cs = split_chunks(text, size, overlap);
    if n == 0 {
        assert(cs.len() == 0);
    } else {
        crate::text::lemma_words_are_words(text);
        lemma_chunks_from_windows(ws, size, step, 0);
        assert(cs.len() == (n + d - 1) / d);
        assert forall|k: int| 0 <= k < cs.len() implies #[trigger] chunk_is_window(
            text,
            size,
            overlap,
            k,
        ) by {
            let q = (n + d - 1) / d;
            assert(k < q);
            assert(k * d < n) by {
                vstd::arithmetic::div_mod::lemma_fundamental_div_mod(n + d - 1, d);
                vstd::arithmetic::mul::lemma_mul_inequality(k + 1, q, d);
                assert((k + 1) * d == k * d + d) by (nonlinear_arith);
                assert(q * d == d * q) by (nonlinear_arith);
                assert((n + d - 1) % d >= 0);
            }
            let end = if k * step + size < n {
                k * step + size
            } else {
                n
            };
            assert(cs[k] == window(ws, size, 0 + k * step));
            assert(0 + k * step == k * step);
            let part = ws.subrange(k * step, end);
            assert forall|m: int| 0 <= m < part.len() implies is_word(#[trigger] part[m]) by {
                assert(part[m] == ws[k * step + m]);
            }
            law_words_of_join(part);
            crate::text::lemma_join_trimmed(part);
        }
        assert forall|j: int| 0 <= j < n implies #[trigger] word_in_chunk(text, size, overlap, j) by {
            let k = j / d;
            vstd::arithmetic::div_mod::lemma_fundamental_div_mod(j, d);
            vstd::arithmetic::div_mod::lemma_div_pos_is_pos(j, d);
            assert(d * k == k * d) by (nonlinear_arith);
            vstd::arithmetic::div_mod::lemma_div_is_ordered(j, n - 1, d);
            vstd::arithmetic::div_mod::lemma_div_plus_one(n - 1, d);
            assert(d + (n - 1) == n + d - 1);
            assert(k < cs.len());
        }
    }
}

/// What a document says, by value: its text, meeting identifier text,
/// segment start and end times, chunk type, speaker and timestamp.
pub open spec fn document_view(d: KnowledgeDocument) -> (
    Seq<char>,
    Seq<char>,
    u64,
    u64,
    Seq<char>,
    Option<Seq<char>>,
    i64,
) {
    (
        d.content@,
        d.metadata.meeting_id@,
        d.metadata.start_bits,
        d.metadata.end_bits,
        d.metadata.chunk_type@,
        match d.metadata.speaker {
            Some(s) => Some(s@),
            None => None,
        },
        d.metadata.timestamp,
    )
}

/// Segments are chunked independently, also as documents: the documents of
/// two transcripts one after the other (`whole`) are those of the first
/// (`first`), then those of the second (`second`).
pub proof fn law_transcript_chunked_per_segment(
    a: Seq<TranscriptSegment>,
    b: Seq<TranscriptSegment>,
    meeting_id: u128,
    meeting_date: i64,
    first: Seq<KnowledgeDocument>,
    second: Seq<KnowledgeDocument>,
    whole: Seq<KnowledgeDocument>,
)
    requires
        documents_of_transcript(first, a, meeting_id, meeting_date),
        documents_of_transcript(second, b, meeting_id, meeting_date),
        documents_of_transcript(whole, a + b, meeting_id, meeting_date),
    ensures
        whole.map_values(|d: KnowledgeDocument| document_view(d)) == first.map_values(
            |d: KnowledgeDocument| document_view(d),
        ) + second.map_values(|d: KnowledgeDocument| document_view(d)),
{
    let ta = segment_texts(a);
    let tb = segment_texts(b);
    assert(segment_texts(a + b) =~= ta + tb);
    law_segments_chunked_independently(ta, tb);
    let ca = segment_chunks(ta);
    let cb = segment_chunks(tb);
    let cw = segment_chunks(ta + tb);
    let shift = |_k: int, p: (int, Seq<char>)| (p.0 + a.len(), p.1);
    assert(cw == ca + cb.map(shift));
    let vw = whole.map_values(|d: KnowledgeDocument| document_view(d));
    let vf = first.map_values(|d: KnowledgeDocument| document_view(d));
    let vs = second.map_values(|d: KnowledgeDocument| document_view(d));
    assert forall|k: int| 0 <= k < first.len() implies vw[k] == vf[k] by {
        assert(document_at(whole, k, a + b, meeting_id, meeting_date));
        assert(document_at(first, k, a, meeting_id, meeting_date));
        assert(cw[k] == ca[k]);
        assert((a + b)[ca[k].0] == a[ca[k].0]);
    }
    assert forall|k: int| 0 <= k < second.len() implies vw[first.len() + k] == vs[k] by {
        assert(document_at(whole, first.len() + k, a + b, meeting_id, meeting_date));
        assert(document_at(second, k, b, meeting_id, meeting_date));
        assert(cw[first.len() + k] == (cb[k].0 + a.len(), cb[k].1));
        assert((a + b)[cb[k].0 + a.len()] == b[cb[k].0]);
    }
    assert(vw =~= vf + vs);
}

/// `s` without its first `m` elements; nothing when it has no more than `m`.
pub open spec fn drop_words(s: Seq<Seq<char>>, m: nat) -> Seq<Seq<char>> {
    if m < s.len() {
        s.skip(m as int)
    } else {
        seq![]
    }
}

/// The words of chunks put back together: all the words of the first
/// chunk, then those of each later chunk without its first `overlap` words.
pub open spec fn rejoined_words(cs: Seq<Seq<char>>, overlap: nat) -> Seq<Seq<char>>
    decreases cs.len(),
{
    if cs.len() == 0 {
        seq![]
    } else if cs.len() == 1 {
        words(cs[0])
    } else {
        rejoined_words(cs.drop_last(), overlap) + drop_words(words(cs.last()), overlap)
    }
}

/// Where the window that starts at word `start` ends, among `n` words.
pub open spec fn window_end(n: int, size: nat, start: int) -> int {
    if start + size < n {
        start + size
    } else {
        n
    }
}

proof fn lemma_rejoin_prefix(text: Seq<char>, size: nat, overlap: nat, m: int)
    requires
        overlap < size,
        1 <= m <= split_chunks(text, size, overlap).len(),
        forall|k: int|
            0 <= k < split_chunks(text, size, overlap).len() ==> #[trigger] chunk_is_window(
                text,
                size,
                overlap,
                k,
            ),
    ensures
        rejoined_words(split_chunks(text, size, overlap).take(m), overlap) == words(text).subrange(
            0,
            window_end(words(text).len() as int, size, (m - 1) * (size - overlap)),
        ),
    decreases m,
{
    let cs = split_chunks(text, size, overlap);
    let ws = words(text);
    let n = ws.len() as int;
    let step = size - overlap;
    let k = m - 1;
    assert(chunk_is_window(text, size, overlap, k));
    if m == 1 {
        assert(k * step == 0) by (nonlinear_arith)
            requires
                k == 0,
        ;
        assert(cs.take(1).len() == 1);
        assert(cs.take(1)[0] == cs[0]);
    } else {
        lemma_rejoin_prefix(text, size, overlap, m - 1);
        let t = cs.take(m);
        assert(t.drop_last() =~= cs.take(m - 1));
        assert(t.last() == cs[k]);
        let start = k * step;
        assert(start == (k - 1) * step + step) by (nonlinear_arith)
            requires
                start == k * step,
        ;
        let e = window_end(n, size, (k - 1) * step);
        let w = words(cs[k]);
        assert(w == ws.subrange(start, window_end(n, size, start)));
        if (k - 1) * step + size < n {
            assert(e == start + overlap);
            assert(overlap < w.len());
            assert(drop_words(w, overlap) =~= ws.subrange(e, window_end(n, size, start)));
            assert(rejoined_words(t, overlap) =~= ws.subrange(0, window_end(n, size, start)));
        } else {
            assert(e == n);
            assert(drop_words(w, overlap) =~= Seq::<Seq<char>>::empty());
            assert(window_end(n, size, start) == n);
            assert(rejoined_words(t, overlap) =~= ws.subrange(0, n));
        }
    }
}

/// The chunks give back the text's words exactly once each, in order:
/// all the words of the first chunk, then those of each later chunk
/// without its first `overlap` words (which the chunk before already holds).
pub proof fn law_split_text_rejoins(text: Seq<char>, size: nat, overlap: nat)
    requires
        overlap < size,
    ensures
        rejoined_words(split_chunks(text, size, overlap), overlap) == words(text),
{
    let cs = split_chunks(text, size, overlap);
    let ws = words(text);
    let n = ws.len() as int;
    let d = (size - overlap) as int;
    law_split_text_windows(text, size, overlap);
    if n == 0 {
        assert(cs.len() == 0);
        assert(rejoined_words(cs, overlap) =~= ws);
    } else {
        let c = cs.len() as int;
        assert(c == (n + d - 1) / d);
        vstd::arithmetic::div_mod::lemma_fundamental_div_mod(n + d - 1, d);
        assert(c * d >= n) by (nonlinear_arith)
            requires
                n + d - 1 == d * ((n + d - 1) / d) + (n + d - 1) % d,
                (n + d - 1) % d < d,
                c == (n + d - 1) / d,
        ;
        assert(c >= 1);
        assert((c - 1) * d + size >= n) by (nonlinear_arith)
            requires
                c * d >= n,
                size >= d,
        ;
        lemma_rejoin_prefix(text, size, overlap, c);
        assert(cs.take(c) =~= cs);
        assert(ws.subrange(0, n) =~= ws);
    }
}

/// The chunks of a text depend only on its words, not on the amount or
/// kind of whitespace between them: the text and its words joined with
/// single spaces split alike, and one splits normally exactly when the
/// other does.
pub proof fn law_split_text_depends_on_words(text: Seq<char>, size: nat, overlap: nat)
    ensures
        words(join(words(text))) == words(text),
        split_chunks(join(words(text)), size, overlap) == split_chunks(text, size, overlap),
        split_admits(join(words(text)), size, overlap) == split_admits(text, size, overlap),
{
    crate::text::lemma_words_are_words(text);
    law_words_of_join(words(text));
}

/// Segments are chunked independently: the chunks of two transcripts one
/// after the other are the chunks of the first, then those of the second
/// with their segment indices moved past the first's segments.
pub proof fn law_segments_chunked_independently(a: Seq<Seq<char>>, b: Seq<Seq<char>>)
    ensures
        segment_chunks(a + b) == segment_chunks(a) + segment_chunks(b).map(
            |_k: int, p: (int, Seq<char>)| (p.0 + a.len(), p.1),
        ),
    decreases b.len(),
{
    let shift = |_k: int, p: (int, Seq<char>)| (p.0 + a.len(), p.1);
    if b.len() == 0 {
        assert(a + b =~= a);
        assert(segment_chunks(b).map(shift) =~= Seq::<(int, Seq<char>)>::empty());
        assert(segment_chunks(a) + segment_chunks(b).map(shift) =~= segment_chunks(a));
    } else {
        let b0 = b.drop_last();
        law_segments_chunked_independently(a, b0);
        assert((a + b).drop_last() =~= a + b0);
        assert((a + b).last() == b.last());
        let last_ab = (a + b).len() - 1;
        let last_b = b.len() - 1;
        let pieces = split_chunks(b.last(), CHUNK_SIZE as nat, CHUNK_OVERLAP as nat);
        let tail_ab = pieces.map(|_k: int, c: Seq<char>| (last_ab, c));
        let tail_b = pieces.map(|_k: int, c: Seq<char>| (last_b, c));
        assert(segment_chunks(a + b) == segment_chunks(a + b0) + tail_ab);
        assert(segment_chunks(b) == segment_chunks(b0) + tail_b);
        assert((segment_chunks(b0) + tail_b).map(shift) =~= segment_chunks(b0).map(shift)
            + tail_ab);
        assert(segment_chunks(a + b) =~= segment_chunks(a) + segment_chunks(b).map(shift));
    }
}

/// The start of the last window over `n` words when windows start `step`
/// words apart.
pub open spec fn last_window_start(n: nat, step: nat) -> int {
    ((n - 1) / (step as int)) * step
}

/// Whether `split_text(text, size, overlap)` returns normally: a text
/// without words gives no chunks whatever the sizes; otherwise windows must
/// start apart (`overlap < size`) and the end of the last window, its start
/// plus `size`, must fit in `usize`.
pub open spec fn split_admits(text: Seq<char>, size: nat, overlap: nat) -> bool {
    words(text).len() > 0 ==> {
        &&& overlap < size
        &&& last_window_start(words(text).len(), (size - overlap) as nat) + size <= usize::MAX
    }
}

proof fn lemma_window_start_bound(k: int, step: int, n: int)
    requires
        step > 0,
        k >= 0,
        k * step < n,
    ensures
        k * step <= ((n - 1) / step) * step,
{
    vstd::arithmetic::div_mod::lemma_div_is_ordered(k * step, n - 1, step);
    vstd::arithmetic::div_mod::lemma_div_by_multiple(k, step);
    vstd::arithmetic::mul::lemma_mul_inequality(k, (n - 1) / step, step);
}

/// Splits `text` into overlapping chunks of at most `size` words: the words
/// of the text (runs of non-whitespace) are taken `size` at a time, each
/// window starting `step = size - overlap` words after the previous one,
/// and each window is joined with single spaces. With `n` words there are
/// `ceil(n / step)` chunks; chunk `k` is words `k * step` up to
/// `k * step + size` (`chunk_is_window`), and word `j` lies in chunk
/// `j / step` (`word_in_chunk`).
pub fn split_text(text: &str, size: usize, overlap: usize) -> (r: Vec<String>)
    requires
        split_admits(text@, size as nat, overlap as nat),
    ensures
        r@.len() == split_chunks(text@, size as nat, overlap as nat).len(),
        forall|k: int|
            0 <= k < r@.len() ==> (#[trigger] r@[k])@ == split_chunks(
                text@,
                size as nat,
                overlap as nat,
            )[k],
        r@.len() == (if words(text@).len() == 0 {
            0
        } else {
            (words(text@).len() + (size - overlap) - 1) / ((size - overlap) as int)
        }),
        forall|k: int|
            0 <= k < r@.len() ==> #[trigger] chunk_is_window(
                text@,
                size as nat,
                overlap as nat,
                k,
            ),
        forall|j: int|
            0 <= j < words(text@).len() ==> #[trigger] word_in_chunk(
                text@,
                size as nat,
                overlap as nat,
                j,
            ),
{
    let cs = chars_of(text);
    let ranges = word_ranges(&cs);
    let ghost ws = words(text@);
    let ghost step: nat = (size - overlap) as nat;
    proof {
        lemma_words_are_words(text@);
    }
    let n = ranges.len();
    let mut chunks: Vec<String> = Vec::new();
    let mut i: usize = 0;
    let ghost mut k: int = 0;
    while i < n
        invariant
            n == ranges@.len() == ws.len(),
            split_admits(text@, size as nat, overlap as nat),
            step == (size - overlap) as nat,
            n > 0 ==> step == size - overlap,
            k >= 0,
            i == k * step,
            i <= n + size,
            ws == words(text@),
            forall|m: int| 0 <= m < ws.len() ==> is_word(#[trigger] ws[m]),
            forall|m: int|
                0 <= m < ranges@.len() ==> {
                    &&& (#[trigger] ranges@[m]).0 <= ranges@[m].1 <= text@.len()
                    &&& text@.subrange(ranges@[m].0 as int, ranges@[m].1 as int) == ws[m]
                },
            chunks_from(ws, size as nat, step, 0) == chunks@.map_values(|c: String| c@)
                + chunks_from(ws, size as nat, step, i as nat),
        decreases n + size - i,
    {
        proof {
            lemma_window_start_bound(k, step as int, n as int);
        }
        let end = if i + size < n {
            i + size
        } else {
            n
        };
        let c = join_range(text, &ranges, i, end, Ghost(ws));
        let ghost before = chunks@.map_values(|c: String| c@);
        proof {
            let part = ws.subrange(i as int, end as int);
            assert forall|m: int| 0 <= m < part.len() implies is_word(#[trigger] part[m]) by {
                assert(part[m] == ws[i + m]);
            }
            lemma_join_trimmed(part);
        }
        chunks.push(c);
        proof {
            assert(chunks@.map_values(|c: String| c@) =~= before.push(c@));
            assert(before + chunks_from(ws, size as nat, step, i as nat) =~= chunks@.map_values(
                |c: String| c@,
            ) + chunks_from(ws, size as nat, step, (i + step) as nat));
        }
        i = i + (size - overlap);
        proof {
            assert((k + 1) * step == k * step + step) by (nonlinear_arith);
            k = k + 1;
        }
    }
    proof {
        assert(chunks_from(ws, size as nat, step, i as nat) == Seq::<Seq<char>>::empty());
        assert(chunks@.map_values(|c: String| c@) =~= chunks_from(ws, size as nat, step, 0));
        law_split_text_windows(text@, size as nat, overlap as nat);
    }
    chunks
}

} // verus!
