use jsonl_tail::record::{push_decimal, InputRecord, OutputRecord};

fn record(kind: &str, branch: &str, account: u64) -> InputRecord {
    InputRecord {
        timestamp: "2024-01-01T00:00:00Z".to_string(),
        kind: kind.to_string(),
        branch: branch.to_string(),
        account,
    }
}

#[test]
fn mod_qualifies() {
    assert!(record("mod", "NYC", 42).qualifies());
}

#[test]
fn other_kinds_do_not_qualify() {
    for kind in ["view", "", "m", "mo", "mods", "Mod", "MOD", " mod", "mod ", "dom", "mox", "xod"] {
        assert!(!record(kind, "NYC", 42).qualifies(), "{:?}", kind);
    }
}

#[test]
fn projection_joins_branch_and_account() {
    let out = record("mod", "NYC", 42).project();
    assert_eq!(
        out,
        OutputRecord {
            timestamp: "2024-01-01T00:00:00Z".to_string(),
            branch_account: "NYC-42".to_string(),
        }
    );
}

#[test]
fn projection_of_account_zero() {
    assert_eq!(record("mod", "LA", 0).project().branch_account, "LA-0");
}

#[test]
fn projection_of_the_largest_account() {
    assert_eq!(
        record("mod", "B", u64::MAX).project().branch_account,
        "B-18446744073709551615"
    );
}

#[test]
fn projection_of_an_empty_branch() {
    assert_eq!(record("mod", "", 7).project().branch_account, "-7");
}

#[test]
fn projection_keeps_the_branch_as_it_is() {
    assert_eq!(record("mod", "Zürich-West", 10).project().branch_account, "Zürich-West-10");
}

#[test]
fn projection_does_not_look_at_the_kind() {
    assert_eq!(record("view", "NYC", 5).project().branch_account, "NYC-5");
}

#[test]
fn decimal_is_appended() {
    let mut out = "n=".to_string();
    push_decimal(&mut out, 1234567890);
    assert_eq!(out, "n=1234567890");
}

#[test]
fn decimal_agrees_with_std() {
    for n in [0u64, 1, 9, 10, 11, 99, 100, 101, 1000, 65535, 4294967296, u64::MAX - 1, u64::MAX] {
        let mut out = String::new();
        push_decimal(&mut out, n);
        assert_eq!(out, format!("{}", n));
    }
}
