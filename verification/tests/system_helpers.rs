use xui_core::db::{add_column_statement, migration_columns, split_sql_statements};
use xui_core::errors::ApiError;
use xui_core::firewall::{add_port_arg, port_string, tcp_rule, udp_rule};
use xui_core::keys::parse_reality_keys;
use xui_core::logs::{fallback_log_lines, merge_log_lines};
use xui_core::monitor::{
    aggregate_disks, aggregate_networks, parse_connection_counts, parse_free_output,
    parse_uptime_seconds, DiskSpace, NetSample,
};
use xui_core::stats::StatsSnapshot;

#[test]
fn free_output_is_read_into_memory_and_swap() {
    let text = "               total        used        free\nMem:     16384000000  8192000000  4096000000\nSwap:     2048000000   512000000  1536000000\n";
    let (mem, swap) = parse_free_output(text).expect("report parses");
    assert_eq!(mem.total, 16384000000);
    assert_eq!(mem.current, 8192000000);
    assert_eq!(swap.total, 2048000000);
    assert_eq!(swap.current, 512000000);
}

#[test]
fn free_output_without_mem_line_is_rejected() {
    assert!(parse_free_output("Swap: 1 2 3\n").is_none());
    assert!(parse_free_output("").is_none());
}

#[test]
fn free_output_with_bad_number_is_rejected() {
    assert!(parse_free_output("Mem: sixteen 8\n").is_none());
}

#[test]
fn connection_counts_need_two_lines() {
    assert_eq!(parse_connection_counts("5\n10\n"), (5, 10));
    assert_eq!(parse_connection_counts("  7 \n 0\nrest"), (7, 0));
    assert_eq!(parse_connection_counts("5"), (0, 0));
    assert_eq!(parse_connection_counts("a\nb\n"), (0, 0));
}

#[test]
fn uptime_takes_the_whole_seconds() {
    assert_eq!(parse_uptime_seconds("12345.67 8910.11"), Some(12345));
    assert_eq!(parse_uptime_seconds("42 1"), Some(42));
    assert_eq!(parse_uptime_seconds(""), None);
    assert_eq!(parse_uptime_seconds("abc 1"), None);
}

#[test]
fn disk_and_network_sums() {
    let disks = vec![
        DiskSpace { total: 100, available: 40 },
        DiskSpace { total: 50, available: 50 },
    ];
    let agg = aggregate_disks(&disks);
    assert_eq!(agg.total, 150);
    assert_eq!(agg.current, 60);

    let nets = vec![
        NetSample { total_sent: 10, total_recv: 20, sent: 1, recv: 2 },
        NetSample { total_sent: 30, total_recv: 40, sent: 3, recv: 4 },
    ];
    let (traffic, io) = aggregate_networks(&nets);
    assert_eq!(traffic.sent, 40);
    assert_eq!(traffic.recv, 60);
    assert_eq!(io.up, 4);
    assert_eq!(io.down, 6);
}

#[test]
fn reality_keys_are_read_from_labelled_lines() {
    let out = "Private key: aaaBBB\nPublic key: cccDDD\n";
    let keys = parse_reality_keys(out).expect("both keys present");
    assert_eq!(keys.private_key, "aaaBBB");
    assert_eq!(keys.public_key, "cccDDD");

    let out2 = "PrivateKey: x1\nPassword: y2\n";
    let keys2 = parse_reality_keys(out2).expect("alternate labels work");
    assert_eq!(keys2.private_key, "x1");
    assert_eq!(keys2.public_key, "y2");

    assert!(parse_reality_keys("Private key: only\n").is_none());
    assert!(parse_reality_keys("").is_none());
}

#[test]
fn logs_are_labelled_and_access_is_capped_at_fifty() {
    let errors = vec!["boom".to_string()];
    let access: Vec<String> = (0..52).map(|i| format!("line{}", i)).collect();
    let merged = merge_log_lines(&errors, &access);
    assert_eq!(merged.len(), 51);
    assert_eq!(merged[0], "[ErrorLog] boom");
    assert_eq!(merged[1], "[AccessLog] line2");
    assert_eq!(merged[50], "[AccessLog] line51");

    let fallback = fallback_log_lines("2024-01-01 00:00:00");
    assert_eq!(fallback.len(), 5);
    assert_eq!(fallback[0], "[2024-01-01 00:00:00] System self-check passed...");
}

#[test]
fn sql_scripts_split_into_trimmed_statements() {
    let script = "CREATE TABLE a (x INT);\n\nCREATE TABLE b (y INT) ; ;";
    let stmts = split_sql_statements(script);
    assert_eq!(stmts, vec!["CREATE TABLE a (x INT)", "CREATE TABLE b (y INT)"]);

    assert_eq!(migration_columns(), vec!["tag", "listen", "allocate"]);
    assert_eq!(add_column_statement("tag"), "ALTER TABLE inbounds ADD COLUMN tag TEXT");
}

#[test]
fn firewall_rule_texts() {
    assert_eq!(port_string(8080), "8080");
    assert_eq!(tcp_rule(8080), "8080/tcp");
    assert_eq!(udp_rule(65535), "65535/udp");
    assert_eq!(add_port_arg("8080/tcp"), "--add-port=8080/tcp");
}

#[test]
fn error_variants_map_to_status_and_message() {
    let cases: Vec<(ApiError, u16, &str)> = vec![
        (ApiError::Database("no such table".to_string()), 500, "Database error"),
        (ApiError::Unauthorized("bad login".to_string()), 401, "bad login"),
        (ApiError::BadRequest("bad input".to_string()), 400, "bad input"),
        (ApiError::InternalError("oops".to_string()), 500, "oops"),
        (ApiError::JwtError("expired".to_string()), 401, "Invalid token"),
        (ApiError::PasswordHashError, 500, "Authentication error"),
        (ApiError::SystemError("spawn failed".to_string()), 500, "spawn failed"),
    ];
    for (err, status, msg) in cases {
        assert_eq!(err.status_code(), status);
        assert_eq!(err.response_message(), msg);
        let body = err.response();
        assert!(!body.success);
        assert_eq!(body.msg, msg);
    }
}

#[test]
fn snapshot_put_overwrites_and_counts() {
    let mut snap = StatsSnapshot::new();
    assert_eq!(snap.count(), 0);
    snap.put("a".to_string(), 1);
    snap.put("b".to_string(), 2);
    assert_eq!(snap.count(), 2);
    snap.put("a".to_string(), 5);
    assert_eq!(snap.count(), 2);
    assert_eq!(snap.get_or_zero("a"), 5);
    assert_eq!(snap.get_or_zero("b"), 2);
    assert_eq!(snap.get_or_zero("c"), 0);
}
