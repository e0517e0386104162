use prompt_copilot::prompt::{prompt_before, sort_prompts, Prompt};
use prompt_copilot::sql::StoredRow;
use prompt_copilot::store::{arrange, decode_row, like_pattern, needs_rank_column, StoreError};
use prompt_copilot::text::{is_space_char, split_tags};
use prompt_copilot::time::{is_earlier, Timestamp};

fn ts(secs: i64) -> Timestamp {
    Timestamp { secs, nanos: 0 }
}

fn prompt(id: i64, rank: Option<i64>, used: Option<i64>, created: i64) -> Prompt {
    Prompt {
        id,
        title: format!("p{}", id),
        content: String::new(),
        tags: Vec::new(),
        created_at: ts(created),
        updated_at: ts(created),
        last_used: used.map(ts),
        sort_order: rank,
    }
}

fn row(id: i64, created: &str, last_used: Option<&str>) -> StoredRow {
    StoredRow {
        id,
        title: "title".to_string(),
        content: "content".to_string(),
        tags: " one  two\u{3000}three ".to_string(),
        created_at: created.to_string(),
        updated_at: created.to_string(),
        last_used: last_used.map(|s| s.to_string()),
        sort_order: Some(0),
    }
}

#[test]
fn split_tags_on_any_white_space() {
    assert_eq!(split_tags("a  b\tc\nd"), vec!["a", "b", "c", "d"]);
    assert_eq!(split_tags("x\u{a0}y\u{2003}z"), vec!["x", "y", "z"]);
    assert!(split_tags("").is_empty());
    assert!(split_tags(" \t\n ").is_empty());
    assert_eq!(split_tags("single"), vec!["single"]);
}

#[test]
fn white_space_characters() {
    assert!(is_space_char(' '));
    assert!(is_space_char('\u{3000}'));
    assert!(is_space_char('\u{85}'));
    assert!(!is_space_char('a'));
    assert!(!is_space_char('\u{200b}'));
    for c in ['\t', '\n', '\u{b}', '\u{c}', '\r', '\u{1680}', '\u{2028}', '\u{205f}', 'z', '_'] {
        assert_eq!(is_space_char(c), c.is_whitespace());
    }
}

#[test]
fn like_pattern_wraps_query() {
    assert_eq!(like_pattern("ab"), "%ab%");
    assert_eq!(like_pattern(""), "%%");
}

#[test]
fn rank_column_detection() {
    let cols: Vec<String> = ["id", "title", "sort_order"].iter().map(|s| s.to_string()).collect();
    assert!(!needs_rank_column(&cols));
    let old: Vec<String> = ["id", "title", "last_used"].iter().map(|s| s.to_string()).collect();
    assert!(needs_rank_column(&old));
    assert!(needs_rank_column(&Vec::new()));
}

#[test]
fn earlier_compares_seconds_then_nanos() {
    assert!(is_earlier(ts(1), ts(2)));
    assert!(!is_earlier(ts(2), ts(2)));
    assert!(is_earlier(Timestamp { secs: 5, nanos: 1 }, Timestamp { secs: 5, nanos: 2 }));
    assert!(!is_earlier(Timestamp { secs: 6, nanos: 0 }, Timestamp { secs: 5, nanos: 9 }));
}

#[test]
fn order_by_rank_then_use_then_creation() {
    assert!(prompt_before(&prompt(1, Some(0), None, 0), &prompt(2, Some(1), Some(9), 9)));
    assert!(prompt_before(&prompt(1, None, None, 0), &prompt(2, Some(0), None, 0)));
    assert!(prompt_before(&prompt(1, Some(0), Some(5), 0), &prompt(2, Some(0), None, 9)));
    assert!(prompt_before(&prompt(1, Some(0), Some(6), 0), &prompt(2, Some(0), Some(5), 9)));
    assert!(prompt_before(&prompt(1, Some(0), None, 9), &prompt(2, Some(0), None, 8)));
    assert!(!prompt_before(&prompt(1, Some(0), None, 8), &prompt(2, Some(0), None, 8)));
}

#[test]
fn three_prompts_by_last_use() {
    let v = vec![prompt(1, Some(0), None, 0), prompt(2, Some(0), Some(10), 0), prompt(3, Some(0), Some(20), 0)];
    let ids: Vec<i64> = sort_prompts(v).iter().map(|p| p.id).collect();
    assert_eq!(ids, vec![3, 2, 1]);
}

#[test]
fn sort_is_stable_for_ties() {
    let v = vec![prompt(4, Some(1), None, 3), prompt(5, Some(0), None, 3), prompt(6, Some(1), None, 3), prompt(7, Some(0), None, 3)];
    let ids: Vec<i64> = sort_prompts(v).iter().map(|p| p.id).collect();
    assert_eq!(ids, vec![5, 7, 4, 6]);
    assert!(sort_prompts(Vec::new()).is_empty());
}

#[test]
fn decode_reads_tags_and_timestamps() {
    let p = decode_row(&row(3, "2024-01-02T03:04:05Z", Some("2024-01-02T03:04:06.5+00:00"))).unwrap();
    assert_eq!(p.id, 3);
    assert_eq!(p.tags, vec!["one", "two", "three"]);
    assert_eq!(p.created_at, Timestamp { secs: 1704164645, nanos: 0 });
    assert_eq!(p.last_used, Some(Timestamp { secs: 1704164646, nanos: 500_000_000 }));
    assert_eq!(p.sort_order, Some(0));
    let offset = decode_row(&row(4, "2024-01-02T05:04:05+02:00", None)).unwrap();
    assert_eq!(offset.created_at.secs, 1704164645);
    assert_eq!(offset.last_used, None);
}

#[test]
fn decode_rejects_malformed_timestamps() {
    assert!(matches!(decode_row(&row(1, "not a time", None)), Err(StoreError::Query(_))));
    assert!(matches!(
        decode_row(&row(1, "2024-01-02T03:04:05Z", Some("later"))),
        Err(StoreError::Query(_))
    ));
}

#[test]
fn arrange_sorts_and_fails_on_bad_row() {
    let rows = vec![
        row(1, "2024-01-01T00:00:00Z", None),
        row(2, "2024-01-01T00:00:00Z", Some("2024-02-01T00:00:00Z")),
        row(3, "2024-03-01T00:00:00Z", None),
    ];
    let ids: Vec<i64> = arrange(&rows).unwrap().iter().map(|p| p.id).collect();
    assert_eq!(ids, vec![2, 3, 1]);
    let mut bad = rows.clone();
    bad.push(row(4, "??", None));
    assert!(matches!(arrange(&bad), Err(StoreError::Query(_))));
    assert!(arrange(&Vec::new()).unwrap().is_empty());
}
