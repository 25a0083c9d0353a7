use layoutfix::detect::{default_config, punctuation_chars, DetectorConfig, Score};
use layoutfix::feed::{check_response_ok, Cursor, FeedError, InboundEvent};
use layoutfix::feed::log_records;
use layoutfix::layout::{fix_layout, LayoutMap};
use layoutfix::vocab::Vocabulary;

fn cs(s: &str) -> Vec<char> {
    s.chars().collect()
}

fn vocab_of(words: &[&str]) -> Vocabulary {
    let mut v = Vocabulary::new();
    for w in words {
        v.insert(cs(w));
    }
    v
}

fn test_config(from: &str, to: &str, native: &str, words: &[&str]) -> DetectorConfig {
    DetectorConfig {
        layout: LayoutMap::new(cs(from), cs(to)).unwrap(),
        native: cs(native),
        punctuation: punctuation_chars(),
        vocabulary: vocab_of(words),
        threshold_num: 2,
        threshold_den: 5,
    }
}

fn event(seq_id: i64, conv: Option<i64>, msg: Option<i64>, text: Option<&str>) -> InboundEvent {
    InboundEvent {
        seq_id,
        conversation_id: conv,
        message_id: msg,
        text: text.map(cs),
        timestamp: 0,
    }
}

#[test]
fn fix_layout_maps_wrong_layout_text() {
    assert_eq!(fix_layout(&cs("ghbdtn")), cs("привет"));
    assert_eq!(fix_layout(&cs("ghbdtn vbh")), cs("привет мир"));
}

#[test]
fn fix_layout_passes_unmapped_through() {
    assert_eq!(fix_layout(&cs("123 -+= XYZ")), cs("123 -+= XYZ"));
    assert_eq!(fix_layout(&cs("привет")), cs("привет"));
}

#[test]
fn remap_preserves_length() {
    let texts = ["", "ghbdtn", "a b c!", "уже кириллица", "mixed ghbdtn текст 42"];
    for t in texts {
        assert_eq!(fix_layout(&cs(t)).len(), cs(t).len());
    }
}

#[test]
fn remap_idempotent_on_disjoint_alphabets() {
    let m = LayoutMap::new(cs("abc"), cs("xyz")).unwrap();
    let s = cs("a cabbage, please");
    let once = m.remap(&s);
    let twice = m.remap(&once);
    assert_eq!(twice, once);
    assert_eq!(once, cs("x zxyyxge, plexse"));
}

#[test]
fn remap_second_pass_changes_only_shared_characters() {
    let m = LayoutMap::new(cs("ab"), cs("bc")).unwrap();
    let once = m.remap(&cs("ad"));
    assert_eq!(once, cs("bd"));
    // The second pass changes position 0 alone: its character 'b' lies in
    // both alphabets; 'd' lies in neither and stays put.
    assert_eq!(m.remap(&once), cs("cd"));
}

#[test]
fn score_exempt_on_native_char() {
    let cfg = default_config(vocab_of(&["привет"]));
    assert_eq!(layoutfix::detect::score(&cfg, &cs("ghbdtn п")), Score::Exempt);
    assert_eq!(layoutfix::detect::score(&cfg, &cs("уже кириллица")), Score::Exempt);
    assert_eq!(
        layoutfix::detect::score(&cfg, &cs("latin only but one ю char")),
        Score::Exempt
    );
}

#[test]
fn score_empty_and_blank_is_zero_not_error() {
    let cfg = default_config(vocab_of(&["привет"]));
    let empty = layoutfix::detect::score(&cfg, &cs(""));
    assert_eq!(empty, Score::Ratio { matched: 0, total: 0 });
    assert!(!empty.exceeds(2, 5));
    let blank = layoutfix::detect::score(&cfg, &cs(" \t\r\n  "));
    assert_eq!(blank, Score::Ratio { matched: 0, total: 0 });
    assert!(!blank.exceeds(2, 5));
}

#[test]
fn score_full_match_after_remap_and_strip() {
    // Identity layout except one substitution, so the garbled forms of the
    // vocabulary words are recognized after remapping.
    let cfg = test_config("q", "e", "я", &["hello", "world"]);
    assert_eq!(
        layoutfix::detect::score(&cfg, &cs("hqllo world")),
        Score::Ratio { matched: 2, total: 2 }
    );
    assert_eq!(
        layoutfix::detect::score(&cfg, &cs("hqllo, world!")),
        Score::Ratio { matched: 2, total: 2 }
    );
}

#[test]
fn score_counts_unmatched_tokens() {
    let cfg = test_config("q", "e", "я", &["hello", "world"]);
    let sc = layoutfix::detect::score(&cfg, &cs("hqllo zzz"));
    assert_eq!(sc, Score::Ratio { matched: 1, total: 2 });
    // 1/2 > 2/5 strictly.
    assert!(sc.exceeds(2, 5));
}

#[test]
fn threshold_comparison_is_strict() {
    assert!(!Score::Ratio { matched: 2, total: 5 }.exceeds(2, 5));
    assert!(Score::Ratio { matched: 3, total: 5 }.exceeds(2, 5));
    assert!(!Score::Exempt.exceeds(2, 5));
    assert!(!Score::Ratio { matched: 0, total: 0 }.exceeds(2, 5));
}

#[test]
fn vocabulary_membership_from_newline_list() {
    let v = Vocabulary::from_newline_list(&cs("привет\nмир\n"));
    assert!(v.is_known(&cs("привет")));
    assert!(v.is_known(&cs("мир")));
    // The trailing newline leaves one empty segment, kept as a word.
    assert!(v.is_known(&cs("")));
    assert!(!v.is_known(&cs("mir")));
    assert!(!v.is_known(&cs("Привет")));
}

#[test]
fn vocabulary_insert_and_query() {
    let mut v = Vocabulary::new();
    assert!(!v.is_known(&cs("слово")));
    v.insert(cs("слово"));
    assert!(v.is_known(&cs("слово")));
    assert!(!v.is_known(&cs("слов")));
}

#[test]
fn response_ok_flag_is_checked() {
    assert_eq!(check_response_ok(Some(true)), Ok(()));
    assert_eq!(check_response_ok(Some(false)), Err(FeedError::NotOk));
    assert_eq!(check_response_ok(None), Err(FeedError::MissingOkField));
}

#[test]
fn cursor_advances_to_max_of_batch() {
    let cfg = default_config(vocab_of(&["привет"]));
    let mut cur = Cursor::new(0);
    let batch = vec![
        event(1, None, None, None),
        event(2, Some(5), Some(6), None),
        event(3, None, None, Some("no dispatch here")),
    ];
    let r = cur.tick(&cfg, Ok(batch));
    assert!(r.unwrap().is_empty());
    assert_eq!(cur.last_confirmed, 3);
    // An empty batch leaves the cursor unchanged.
    let r = cur.tick(&cfg, Ok(Vec::new()));
    assert!(r.unwrap().is_empty());
    assert_eq!(cur.last_confirmed, 3);
}

#[test]
fn cursor_unchanged_across_failed_tick() {
    let cfg = default_config(vocab_of(&["привет"]));
    let mut cur = Cursor::new(41);
    let r = cur.tick(&cfg, Err(FeedError::Transport));
    assert!(matches!(r, Err(FeedError::Transport)));
    assert_eq!(cur.last_confirmed, 41);
    let r = cur.tick(&cfg, Err(FeedError::NotOk));
    assert!(r.is_err());
    assert_eq!(cur.last_confirmed, 41);
    let r = cur.tick(&cfg, Err(FeedError::MalformedPayload));
    assert!(matches!(r, Err(FeedError::MalformedPayload)));
    assert_eq!(cur.last_confirmed, 41);
    // The next successful tick starts from the same cursor value.
    let r = cur.tick(&cfg, Ok(vec![event(42, None, None, None)]));
    assert!(r.is_ok());
    assert_eq!(cur.last_confirmed, 42);
}

#[test]
fn tick_dispatches_corrected_reply_once() {
    let cfg = default_config(vocab_of(&["привет"]));
    let mut cur = Cursor::new(0);
    let batch = vec![
        // Garbled and uppercase: lowercased, remapped, matched 1/1.
        event(10, Some(5), Some(7), Some("GHBDTN")),
        // Contains a native character, so never dispatched.
        event(11, Some(5), Some(8), Some("ghbdtn п")),
    ];
    let replies = cur.tick(&cfg, Ok(batch)).unwrap();
    assert_eq!(replies.len(), 1);
    assert_eq!(replies[0].conversation_id, 5);
    assert_eq!(replies[0].message_id, 7);
    assert_eq!(replies[0].text, cs("привет"));
    assert_eq!(cur.last_confirmed, 11);
}

#[test]
fn tick_skips_events_missing_ids() {
    let cfg = default_config(vocab_of(&["привет"]));
    let mut cur = Cursor::new(0);
    let batch = vec![
        event(20, None, Some(7), Some("ghbdtn")),
        event(21, Some(5), None, Some("ghbdtn")),
        event(22, Some(5), Some(7), None),
    ];
    let replies = cur.tick(&cfg, Ok(batch)).unwrap();
    assert!(replies.is_empty());
    // Skipped events still count for cursor advancement.
    assert_eq!(cur.last_confirmed, 22);
}

#[test]
fn log_records_cover_every_event() {
    let batch = vec![
        event(1, Some(5), Some(6), Some("ghbdtn")),
        event(2, None, None, None),
    ];
    let recs = log_records(&batch);
    assert_eq!(recs.len(), 2);
    assert_eq!(recs[0].seq_id, 1);
    assert_eq!(recs[0].chat_id, 5);
    assert_eq!(recs[0].text, Some(cs("ghbdtn")));
    assert_eq!(recs[1].seq_id, 2);
    assert_eq!(recs[1].chat_id, -1);
    assert_eq!(recs[1].text, None);
}
