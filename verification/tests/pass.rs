use jsonl_tail::codec::Fault;
use jsonl_tail::pass::{process, transform_line, Fate};

const MOD_NYC: &str =
    "{\"timestamp\":\"2024-01-01T00:00:00Z\",\"type\":\"mod\",\"branch\":\"NYC\",\"account\":42}";
const MOD_LA: &str =
    "{\"timestamp\":\"2024-01-02T00:00:00Z\",\"type\":\"mod\",\"branch\":\"LA\",\"account\":7}";
const VIEW_NYC: &str =
    "{\"timestamp\":\"2024-01-03T00:00:00Z\",\"type\":\"view\",\"branch\":\"NYC\",\"account\":42}";
const OUT_NYC: &str = "{\"timestamp\":\"2024-01-01T00:00:00Z\",\"branch_account\":\"NYC-42\"}";
const OUT_LA: &str = "{\"timestamp\":\"2024-01-02T00:00:00Z\",\"branch_account\":\"LA-7\"}";

#[test]
fn mod_line_becomes_an_output_line() {
    assert_eq!(transform_line(MOD_NYC), Fate::Emit(OUT_NYC.to_string()));
}

#[test]
fn view_line_is_skipped_without_an_error() {
    assert_eq!(transform_line(VIEW_NYC), Fate::Skip);
    let batch = process(&format!("{}\n", VIEW_NYC));
    assert!(batch.lines.is_empty());
    assert!(batch.rejected.is_empty());
}

#[test]
fn blank_line_is_skipped() {
    assert_eq!(transform_line(""), Fate::Skip);
    assert_eq!(transform_line("   \t"), Fate::Skip);
}

#[test]
fn garbage_line_is_rejected() {
    match transform_line("garbage text") {
        Fate::Reject(error) => {
            assert_eq!(error.line, "garbage text");
            assert_eq!(error.fault, Fault::Syntax);
        }
        other => panic!("{:?}", other),
    }
}

#[test]
fn line_of_the_wrong_shape_is_rejected() {
    match transform_line("{\"type\":\"mod\"}") {
        Fate::Reject(error) => assert_eq!(error.fault, Fault::Timestamp),
        other => panic!("{:?}", other),
    }
}

#[test]
fn garbage_between_two_mod_lines() {
    let batch = process(&format!("{}\ngarbage text\n{}\n", MOD_NYC, MOD_LA));
    assert_eq!(batch.lines, vec![OUT_NYC, OUT_LA]);
    assert_eq!(batch.rejected.len(), 1);
    assert_eq!(batch.rejected[0].line, "garbage text");
    assert_eq!(batch.rejected[0].fault, Fault::Syntax);
}

#[test]
fn blank_lines_between_records_are_ignored() {
    let batch = process(&format!("\n{}\n\n   \n\t\r\n{}\n\n", MOD_NYC, MOD_LA));
    assert_eq!(batch.lines, vec![OUT_NYC, OUT_LA]);
    assert!(batch.rejected.is_empty());
}

#[test]
fn empty_text_yields_nothing() {
    let batch = process("");
    assert!(batch.lines.is_empty());
    assert!(batch.rejected.is_empty());
}

#[test]
fn output_lines_keep_the_order_of_the_input() {
    let batch = process(&format!("{}\n{}\n{}\n{}\n", MOD_LA, VIEW_NYC, MOD_NYC, MOD_LA));
    assert_eq!(batch.lines, vec![OUT_LA, OUT_NYC, OUT_LA]);
    assert!(batch.rejected.is_empty());
}

#[test]
fn rejected_lines_keep_the_order_of_the_input() {
    let batch = process("first\n{}\n[1]\n{\"timestamp\":\"t\"}\n");
    let found: Vec<(String, Fault)> =
        batch.rejected.iter().map(|error| (error.line.clone(), error.fault)).collect();
    assert_eq!(
        found,
        vec![
            ("first".to_string(), Fault::Syntax),
            ("{}".to_string(), Fault::Timestamp),
            ("[1]".to_string(), Fault::Timestamp),
            ("{\"timestamp\":\"t\"}".to_string(), Fault::Kind),
        ]
    );
    assert!(batch.lines.is_empty());
}

#[test]
fn last_line_without_line_feed_is_processed() {
    let batch = process(&format!("{}\n{}", MOD_NYC, MOD_LA));
    assert_eq!(batch.lines, vec![OUT_NYC, OUT_LA]);
}

#[test]
fn truncated_last_line_is_rejected() {
    let batch = process(&format!("{}\n{}", MOD_NYC, &MOD_LA[..30]));
    assert_eq!(batch.lines, vec![OUT_NYC]);
    assert_eq!(batch.rejected.len(), 1);
    assert_eq!(batch.rejected[0].line, &MOD_LA[..30]);
}

#[test]
fn lines_with_carriage_returns_are_processed() {
    let batch = process(&format!("{}\r\n{}\r\n", MOD_NYC, MOD_LA));
    assert_eq!(batch.lines, vec![OUT_NYC, OUT_LA]);
    assert!(batch.rejected.is_empty());
}

#[test]
fn bursts_yield_what_the_whole_yields() {
    let first = format!("{}\n{}\n", MOD_NYC, VIEW_NYC);
    let second = format!("oops\n{}\n", MOD_LA);
    let third = format!("{}\n", MOD_NYC);
    let whole = process(&format!("{}{}{}", first, second, third));
    let mut lines = Vec::new();
    let mut rejected = Vec::new();
    for burst in [&first, &second, &third] {
        let batch = process(burst);
        lines.extend(batch.lines);
        rejected.extend(batch.rejected);
    }
    assert_eq!(lines, whole.lines);
    assert_eq!(rejected, whole.rejected);
    assert_eq!(lines, vec![OUT_NYC, OUT_LA, OUT_NYC]);
}

#[test]
fn one_output_line_for_each_mod_line() {
    let mut text = String::new();
    let mut expected = Vec::new();
    for account in 0..50u64 {
        let kind = if account % 3 == 0 { "mod" } else { "view" };
        text.push_str(&format!(
            "{{\"timestamp\":\"t{}\",\"type\":\"{}\",\"branch\":\"B\",\"account\":{}}}\n",
            account, kind, account
        ));
        if account % 3 == 0 {
            expected.push(format!(
                "{{\"timestamp\":\"t{}\",\"branch_account\":\"B-{}\"}}",
                account, account
            ));
        }
    }
    let batch = process(&text);
    assert_eq!(batch.lines, expected);
    assert!(batch.rejected.is_empty());
}
