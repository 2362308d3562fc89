use xui_core::stats::parse_stats;

#[test]
fn record_with_value_committed_and_valueless_dropped() {
    let reply = "stat: {\n  name: \"inbound>>>t>>>traffic>>>uplink\"\n  value: 100\n}\nstat: {\n  name: \"outbound>>>blocked>>>traffic>>>downlink\"\n}\n";
    let snap = parse_stats(reply);
    assert_eq!(snap.count(), 1);
    assert_eq!(snap.get_or_zero("inbound>>>t>>>traffic>>>uplink"), 100);
    assert_eq!(snap.get_or_zero("outbound>>>blocked>>>traffic>>>downlink"), 0);
}

#[test]
fn single_line_record_commits_at_once() {
    let reply = "{ name: \"inbound>>>a>>>traffic>>>uplink\", value: 42 }";
    let snap = parse_stats(reply);
    assert_eq!(snap.count(), 1);
    assert_eq!(snap.get_or_zero("inbound>>>a>>>traffic>>>uplink"), 42);
}

#[test]
fn boundary_with_comma_commits() {
    let reply = "{\n  name: \"a>>>b>>>c>>>d\"\n  value: 7\n},\n{\n  name: \"e>>>f>>>g>>>h\"\n  value: 8\n}\n";
    let snap = parse_stats(reply);
    assert_eq!(snap.count(), 2);
    assert_eq!(snap.get_or_zero("a>>>b>>>c>>>d"), 7);
    assert_eq!(snap.get_or_zero("e>>>f>>>g>>>h"), 8);
}

#[test]
fn value_without_name_is_dropped() {
    let reply = "{\n  value: 55\n}\n";
    let snap = parse_stats(reply);
    assert_eq!(snap.count(), 0);
}

#[test]
fn later_record_overwrites_earlier_same_name() {
    let reply = "{\n  name: \"k>>>k>>>k>>>k\"\n  value: 1\n}\n{\n  name: \"k>>>k>>>k>>>k\"\n  value: 9\n}\n";
    let snap = parse_stats(reply);
    assert_eq!(snap.count(), 1);
    assert_eq!(snap.get_or_zero("k>>>k>>>k>>>k"), 9);
}

#[test]
fn oversized_value_leaves_record_uncommitted() {
    let reply = "{\n  name: \"big>>>b>>>c>>>d\"\n  value: 99999999999999999999999\n}\n";
    let snap = parse_stats(reply);
    assert_eq!(snap.count(), 0);
}

#[test]
fn only_the_first_digit_run_counts() {
    // the value is the first contiguous run of digits after the token
    let reply = "{\n  name: \"x>>>y>>>z>>>w\"\n  value: 1, extra: 2\n}\n";
    let snap = parse_stats(reply);
    assert_eq!(snap.get_or_zero("x>>>y>>>z>>>w"), 1);
}

#[test]
fn empty_or_failed_reply_gives_empty_snapshot() {
    let snap = parse_stats("");
    assert_eq!(snap.count(), 0);
}
