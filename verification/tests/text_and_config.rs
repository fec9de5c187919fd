use companion_hivemind::config::Settings;
use companion_hivemind::knowledge::{split_text, CHUNK_OVERLAP, CHUNK_SIZE};
use companion_hivemind::text::{contains_char, trim_str};

#[test]
fn split_text_windows_overlap() {
    let chunks = split_text("a b c", 2, 1);
    assert_eq!(chunks, vec!["a b".to_string(), "b c".to_string(), "c".to_string()]);
}

#[test]
fn split_text_empty_and_blank() {
    assert!(split_text("", 400, 80).is_empty());
    assert!(split_text(" \t\n\u{3000} ", 400, 80).is_empty());
}

#[test]
fn split_text_normalises_whitespace() {
    let chunks = split_text("  hello \n\t  world\u{a0}again  ", 400, 80);
    assert_eq!(chunks, vec!["hello world again".to_string()]);
}

#[test]
fn split_text_count_is_ceiling() {
    // 10 words, windows of 4 starting 3 apart: ceil(10 / 3) = 4 chunks.
    let text = "w0 w1 w2 w3 w4 w5 w6 w7 w8 w9";
    let chunks = split_text(text, 4, 1);
    assert_eq!(chunks.len(), 4);
    assert_eq!(chunks[0], "w0 w1 w2 w3");
    assert_eq!(chunks[1], "w3 w4 w5 w6");
    assert_eq!(chunks[2], "w6 w7 w8 w9");
    assert_eq!(chunks[3], "w9");
}

#[test]
fn split_text_every_word_in_some_chunk() {
    let text: Vec<String> = (0..1000).map(|i| format!("t{}", i)).collect();
    let joined = text.join("  ");
    let chunks = split_text(&joined, CHUNK_SIZE, CHUNK_OVERLAP);
    assert_eq!(chunks.len(), 4); // ceil(1000 / 320)
    for (k, c) in chunks.iter().enumerate() {
        let ws: Vec<&str> = c.split_whitespace().collect();
        let start = k * (CHUNK_SIZE - CHUNK_OVERLAP);
        let end = (start + CHUNK_SIZE).min(1000);
        assert_eq!(ws.len(), end - start);
        assert_eq!(ws[0], format!("t{}", start));
        assert_eq!(c.trim(), c.as_str());
    }
}

#[test]
fn split_text_no_overlap() {
    assert_eq!(split_text("a b c d", 2, 0), vec!["a b".to_string(), "c d".to_string()]);
}

#[test]
fn trim_str_removes_unicode_whitespace() {
    assert_eq!(trim_str("  x y \n"), "x y");
    assert_eq!(trim_str("\u{a0}\u{2003}x\u{3000}"), "x");
    assert_eq!(trim_str(" \t "), "");
    assert_eq!(trim_str(""), "");
    assert_eq!(trim_str("x"), "x");
}

#[test]
fn trim_twice_is_trim_once() {
    for s in ["  a  ", "\u{2028}b c\u{85}", "   ", "d"] {
        assert_eq!(trim_str(trim_str(s)), trim_str(s));
    }
}

#[test]
fn contains_char_finds_at() {
    assert!(contains_char("a@b", '@'));
    assert!(!contains_char("ab", '@'));
    assert!(!contains_char("", '@'));
}

#[test]
fn normalized_schema_trims() {
    let mut s = Settings::default();
    s.db_schema = "  public \n".to_string();
    assert_eq!(s.normalized_db_schema(), "public");
}

#[test]
fn normalized_schema_defaults_when_blank() {
    let mut s = Settings::default();
    s.db_schema = "   ".to_string();
    assert_eq!(s.normalized_db_schema(), "hivemind");
    s.db_schema = String::new();
    assert_eq!(s.normalized_db_schema(), "hivemind");
}

#[test]
fn normalized_schema_is_stable() {
    let mut s = Settings::default();
    s.db_schema = " tenant_a ".to_string();
    let once = s.normalized_db_schema();
    s.db_schema = once.clone();
    assert_eq!(s.normalized_db_schema(), once);
}

#[test]
fn settings_defaults() {
    let s = Settings::default();
    assert_eq!(s.db_host, "supabase-db");
    assert_eq!(s.db_port, 5432);
    assert_eq!(s.db_name, "postgres");
    assert_eq!(s.db_user, "postgres");
    assert_eq!(s.db_password, "postgres");
    assert_eq!(s.db_max_connections, 10);
    assert_eq!(s.db_schema, "hivemind");
    assert_eq!(s.jwt_secret, "hivemind-secret-change-me");
    assert_eq!(s.jwt_ttl_seconds, 2_592_000);
    assert_eq!(s.encryption_secret, "hivemind-encryption-secret-change-me");
    assert_eq!(s.vexa_api_url, "http://vexa-api-gateway:8000");
    assert_eq!(s.vexa_admin_api_url, "http://vexa-admin-api:8001");
    assert_eq!(s.vexa_admin_token, "");
    assert_eq!(s.host, "0.0.0.0");
    assert_eq!(s.port, 9100);
    assert_eq!(s.embedding_api_url, "https://openrouter.ai/api/v1/embeddings");
    assert_eq!(s.embedding_api_key, "");
    assert_eq!(s.embedding_model, "openai/text-embedding-3-small");
    assert_eq!(s.qdrant_url, "http://localhost:6334");
    assert_eq!(s.qdrant_api_key, "");
    assert_eq!(s.normalized_db_schema(), "hivemind");
}

#[test]
fn split_text_huge_window_one_word() {
    assert_eq!(split_text("a", usize::MAX, 0), vec!["a".to_string()]);
    assert_eq!(split_text("  a  b ", usize::MAX - 1, 0), vec!["a b".to_string()]);
}

#[test]
fn split_text_wordless_any_sizes() {
    assert!(split_text("", 1, 5).is_empty());
    assert!(split_text(" \n ", 0, 0).is_empty());
}

#[test]
fn split_text_depends_only_on_words() {
    let messy = "one\t two\u{2003}\u{2003}three \n four   five";
    let clean = "one two three four five";
    assert_eq!(split_text(messy, 3, 1), split_text(clean, 3, 1));
}

#[test]
fn split_text_rejoins_to_the_words() {
    // Dropping the first `overlap` words of every chunk after the first
    // gives back every word once, in order.
    for (size, overlap) in [(4usize, 1usize), (3, 2), (5, 0), (400, 80)] {
        let words: Vec<String> = (0..23).map(|i| format!("w{}", i)).collect();
        let text = words.join(" \n ");
        let chunks = split_text(&text, size, overlap);
        let mut rejoined: Vec<String> = Vec::new();
        for (k, c) in chunks.iter().enumerate() {
            let skip = if k == 0 { 0 } else { overlap };
            rejoined.extend(c.split_whitespace().skip(skip).map(String::from));
        }
        assert_eq!(rejoined, words);
    }
}
