use vpn_mobile::analytics::{
    group_amounts, is_after_cut, rank_labels, summary_of, Analytics, ConnectionLog,
};

const NOW: i64 = 1_700_000_000;
const DAY: i64 = 86_400;

fn entry(ts: i64, server: &str, country: &str, duration: u64, up: u64, down: u64) -> ConnectionLog {
    ConnectionLog {
        timestamp: ts,
        server_id: format!("{}-id", server),
        server_name: server.to_string(),
        country: country.to_string(),
        duration,
        bytes_sent: up,
        bytes_received: down,
        disconnection_reason: None,
    }
}

fn pairs(v: &[(&str, u32)]) -> Vec<(String, u32)> {
    v.iter().map(|(n, c)| (n.to_string(), *c)).collect()
}

fn pairs64(v: &[(&str, u64)]) -> Vec<(String, u64)> {
    v.iter().map(|(n, c)| (n.to_string(), *c)).collect()
}

#[test]
fn test_analytics_logging() {
    let mut analytics = Analytics::new();

    let log = ConnectionLog {
        timestamp: NOW,
        server_id: "us-1".to_string(),
        server_name: "New York #1".to_string(),
        country: "United States".to_string(),
        duration: 30 * 60,
        bytes_sent: 1024 * 1024 * 100,
        bytes_received: 1024 * 1024 * 500,
        disconnection_reason: None,
    };

    analytics.log_connection(log);

    assert_eq!(analytics.get_statistics(NOW).total_connections, 1);
    assert_eq!(analytics.get_statistics(NOW).total_data_sent, 1024 * 1024 * 100);
}

#[test]
fn totals_are_sums_over_entries() {
    let mut a = Analytics::new();
    let entries = [
        entry(NOW - 10, "s1", "A", 100, 1, 10),
        entry(NOW - 20, "s2", "B", 250, 2, 20),
        entry(NOW - 30, "s1", "A", 51, 3, 30),
    ];
    let mut up = 0;
    let mut down = 0;
    let mut dur = 0;
    for (i, e) in entries.iter().enumerate() {
        assert!(a.log_connection(e.clone()));
        up += e.bytes_sent;
        down += e.bytes_received;
        dur += e.duration;
        let s = a.get_statistics(NOW);
        assert_eq!(s.total_connections, i as u64 + 1);
        assert_eq!(s.total_data_sent, up);
        assert_eq!(s.total_data_received, down);
        assert_eq!(s.total_duration, dur);
        assert_eq!(s.average_session_duration, dur / (i as u64 + 1));
    }
    let s = a.get_statistics(NOW);
    assert_eq!(s.total_data_sent, 6);
    assert_eq!(s.total_data_received, 60);
    assert_eq!(s.total_duration, 401);
    assert_eq!(s.average_session_duration, 133);
    assert_eq!(s.last_30_days_data, 66);
}

#[test]
fn empty_log_has_zero_rollups() {
    let a = Analytics::default();
    let s = a.get_statistics(NOW);
    assert_eq!(s.total_connections, 0);
    assert_eq!(s.total_data_sent, 0);
    assert_eq!(s.total_data_received, 0);
    assert_eq!(s.total_duration, 0);
    assert_eq!(s.average_session_duration, 0);
    assert!(s.most_used_countries.is_empty());
    assert!(s.most_used_servers.is_empty());
    assert_eq!(s.last_30_days_data, 0);
    assert!(a.get_connection_history(5).is_empty());
    assert!(a.get_data_usage_by_day(30, NOW).is_empty());
    assert!(a.get_connection_count_by_country().is_empty());
}

#[test]
fn clear_zeroes_every_rollup() {
    let mut a = Analytics::new();
    a.log_connection(entry(NOW, "s1", "A", 100, 1, 10));
    a.log_connection(entry(NOW, "s2", "B", 100, 1, 10));
    a.clear_logs();
    let s = a.get_statistics(NOW);
    assert_eq!(s.total_connections, 0);
    assert_eq!(s.total_data_sent, 0);
    assert_eq!(s.total_data_received, 0);
    assert_eq!(s.total_duration, 0);
    assert_eq!(s.average_session_duration, 0);
    assert!(s.most_used_countries.is_empty());
    assert!(s.most_used_servers.is_empty());
    assert_eq!(s.last_30_days_data, 0);
    assert!(a.get_connection_history(10).is_empty());
    assert!(a.get_data_usage_by_day(3650, NOW).is_empty());
    assert!(a.get_connection_count_by_country().is_empty());
}

#[test]
fn rankings_order_by_count_then_name() {
    let mut a = Analytics::new();
    for (server, country) in [
        ("Berlin #2", "Germany"),
        ("Paris #1", "France"),
        ("Berlin #2", "Germany"),
        ("Oslo #1", "Norway"),
        ("Lyon #3", "France"),
        ("Tokyo #1", "Japan"),
        ("Berlin #2", "Germany"),
    ] {
        a.log_connection(entry(NOW, server, country, 1, 1, 1));
    }
    let s = a.get_statistics(NOW);
    assert_eq!(
        s.most_used_countries,
        pairs(&[("Germany", 3), ("France", 2), ("Japan", 1), ("Norway", 1)])
    );
    assert_eq!(
        s.most_used_servers,
        pairs(&[("Berlin #2", 3), ("Lyon #3", 1), ("Oslo #1", 1), ("Paris #1", 1), ("Tokyo #1", 1)])
    );
    assert_eq!(
        a.get_connection_count_by_country(),
        pairs(&[("Germany", 3), ("France", 2), ("Norway", 1), ("Japan", 1)])
    );
}

#[test]
fn rankings_keep_ten() {
    let mut a = Analytics::new();
    for i in 0..12u32 {
        let name = format!("c{:02}", i);
        a.log_connection(entry(NOW, &name, &name, 1, 1, 1));
    }
    a.log_connection(entry(NOW, "c11", "c11", 1, 1, 1));
    let s = a.get_statistics(NOW);
    assert_eq!(s.most_used_countries.len(), 10);
    assert_eq!(s.most_used_countries[0], ("c11".to_string(), 2));
    for i in 1..10usize {
        assert_eq!(s.most_used_countries[i], (format!("c{:02}", i - 1), 1));
    }
    assert_eq!(s.most_used_servers, s.most_used_countries);
    assert_eq!(a.get_connection_count_by_country().len(), 12);
}

#[test]
fn last_thirty_days_counts_later_entries_only() {
    let mut a = Analytics::new();
    a.log_connection(entry(NOW - 30 * DAY, "s", "A", 1, 1000, 2000));
    a.log_connection(entry(NOW - 30 * DAY + 1, "s", "A", 1, 10, 20));
    a.log_connection(entry(NOW, "s", "A", 1, 1, 2));
    a.log_connection(entry(NOW + 5, "s", "A", 1, 100, 200));
    assert_eq!(a.get_statistics(NOW).last_30_days_data, 333);
    assert_eq!(a.data_since(NOW, 30), 333);
    assert_eq!(a.data_since(NOW, 31), 3333);
    assert_eq!(a.data_since(NOW, 0), 300);
    assert_eq!(a.data_since(NOW, -1), 0);
    assert_eq!(a.get_statistics(NOW + 31 * DAY).last_30_days_data, 0);
    assert_eq!(a.data_since(i64::MAX, i64::MIN), 0);
    assert_eq!(a.data_since(i64::MIN, i64::MAX), 3333);
}

#[test]
fn cut_is_computed_without_overflow() {
    assert!(is_after_cut(1, 0, 0));
    assert!(!is_after_cut(0, 0, 0));
    assert!(is_after_cut(0, DAY, 2));
    assert!(!is_after_cut(0, DAY, 1));
    assert!(is_after_cut(i64::MIN, i64::MIN, 1));
    assert!(!is_after_cut(i64::MAX, i64::MAX, i64::MIN));
}

#[test]
fn history_is_newest_first() {
    let mut a = Analytics::new();
    for i in 0..5u64 {
        a.log_connection(entry(NOW + i as i64, "s", "A", i, i, i));
    }
    let h = a.get_connection_history(3);
    assert_eq!(h.iter().map(|e| e.duration).collect::<Vec<_>>(), vec![4, 3, 2]);
    let h = a.get_connection_history(50);
    assert_eq!(h.iter().map(|e| e.duration).collect::<Vec<_>>(), vec![4, 3, 2, 1, 0]);
    assert!(a.get_connection_history(0).is_empty());
}

#[test]
fn usage_by_day_groups_by_utc_date() {
    let mut a = Analytics::new();
    // 2023-11-14T22:13:20Z
    a.log_connection(entry(NOW, "s", "A", 1, 1, 2));
    // 2023-11-14T00:00:00Z
    a.log_connection(entry(1_699_920_000, "s", "A", 1, 10, 20));
    // 2023-11-13T23:59:59Z
    a.log_connection(entry(1_699_919_999, "s", "A", 1, 100, 200));
    // 2023-11-01T00:00:00Z, outside a window of seven days
    a.log_connection(entry(1_698_796_800, "s", "A", 1, 1000, 2000));
    assert_eq!(
        a.get_data_usage_by_day(7, NOW),
        pairs64(&[("2023-11-14", 33), ("2023-11-13", 300)])
    );
    assert_eq!(
        a.get_data_usage_by_day(30, NOW),
        pairs64(&[("2023-11-14", 33), ("2023-11-13", 300), ("2023-11-01", 3000)])
    );
    assert!(a.get_data_usage_by_day(0, NOW).is_empty());
}

#[test]
fn usage_by_day_writes_early_and_late_days() {
    let mut a = Analytics::new();
    a.log_connection(entry(0, "s", "A", 1, 1, 1));
    a.log_connection(entry(-1, "s", "A", 1, 2, 2));
    a.log_connection(entry(951_782_400, "s", "A", 1, 3, 3));
    a.log_connection(entry(i64::MAX, "s", "A", 1, 4, 4));
    assert_eq!(
        a.get_data_usage_by_day(i64::MAX / DAY, NOW),
        pairs64(&[("1970-01-01", 2), ("1969-12-31", 4), ("2000-02-29", 6)])
    );
}

#[test]
fn entry_without_room_is_dropped() {
    let mut a = Analytics::new();
    assert!(a.log_connection(entry(NOW, "s", "A", 1, u64::MAX - 10, 5)));
    assert!(!a.log_connection(entry(NOW, "s", "A", 1, 3, 3)));
    assert_eq!(a.get_statistics(NOW).total_connections, 1);
    assert!(a.log_connection(entry(NOW, "s", "A", 1, 3, 2)));
    assert_eq!(a.get_statistics(NOW).total_connections, 2);
    assert_eq!(a.get_statistics(NOW).total_data_sent, u64::MAX - 7);
    assert_eq!(a.get_statistics(NOW).total_data_received, 7);
    assert_eq!(a.get_statistics(NOW).last_30_days_data, u64::MAX);
    assert!(!a.log_connection(entry(NOW, "s", "A", 1, 0, 1)));
    assert!(a.log_connection(entry(NOW, "s", "A", u64::MAX - 2, 0, 0)));
    assert!(!a.log_connection(entry(NOW, "s", "A", 1, 0, 0)));
    assert!(a.log_connection(entry(NOW, "s", "A", 0, 0, 0)));
    assert_eq!(a.get_statistics(NOW).total_connections, 4);
    assert_eq!(a.get_statistics(NOW).total_duration, u64::MAX);
}

#[test]
fn grouping_sums_by_label_in_order_of_appearance() {
    let labels: Vec<String> = ["b", "a", "b", "c", "a", "b"].iter().map(|s| s.to_string()).collect();
    let amounts: Vec<u64> = vec![1, 10, 100, 1000, 10000, 100000];
    assert_eq!(
        group_amounts(&labels, &amounts),
        pairs64(&[("b", 100101), ("a", 10010), ("c", 1000)])
    );
    assert!(group_amounts(&Vec::new(), &Vec::new()).is_empty());
}

#[test]
fn ranking_breaks_ties_by_name() {
    let names: Vec<String> = ["d", "b", "a", "c", "e"].iter().map(|s| s.to_string()).collect();
    let counts: Vec<u64> = vec![1, 2, 1, 2, 3];
    assert_eq!(
        rank_labels(&names, &counts, 10),
        pairs64(&[("e", 3), ("b", 2), ("c", 2), ("a", 1), ("d", 1)])
    );
    assert_eq!(rank_labels(&names, &counts, 2), pairs64(&[("e", 3), ("b", 2)]));
    assert!(rank_labels(&names, &counts, 0).is_empty());
    assert!(rank_labels(&Vec::new(), &Vec::new(), 3).is_empty());
    let labels: Vec<String> = ["x", "y", "x"].iter().map(|s| s.to_string()).collect();
    assert_eq!(rank_labels(&labels, &vec![1, 5, 1], 1), pairs64(&[("y", 5)]));
}

#[test]
fn durations_in_words() {
    assert_eq!(Analytics::format_duration(0), "0s");
    assert_eq!(Analytics::format_duration(59), "59s");
    assert_eq!(Analytics::format_duration(60), "1m 0s");
    assert_eq!(Analytics::format_duration(3599), "59m 59s");
    assert_eq!(Analytics::format_duration(3600), "1h 0m 0s");
    assert_eq!(Analytics::format_duration(3661), "1h 1m 1s");
    assert_eq!(Analytics::format_duration(30 * 60), "30m 0s");
    assert_eq!(Analytics::format_duration(u64::MAX), "5124095576030431h 0m 15s");
}

#[test]
fn test_format_bytes() {
    assert_eq!(Analytics::format_bytes(500), "500 B");
    assert_eq!(Analytics::format_bytes(1024), "1.00 KB");
    assert_eq!(Analytics::format_bytes(1024 * 1024), "1.00 MB");
    assert_eq!(Analytics::format_bytes(1024 * 1024 * 1024), "1.00 GB");
}

#[test]
fn bytes_in_words() {
    assert_eq!(Analytics::format_bytes(0), "0 B");
    assert_eq!(Analytics::format_bytes(1), "1 B");
    assert_eq!(Analytics::format_bytes(1023), "1023 B");
    assert_eq!(Analytics::format_bytes(1024), "1.00 KB");
    assert_eq!(Analytics::format_bytes(1025), "1.00 KB");
    assert_eq!(Analytics::format_bytes(1029), "1.00 KB");
    assert_eq!(Analytics::format_bytes(1030), "1.01 KB");
    assert_eq!(Analytics::format_bytes(1152), "1.12 KB");
    assert_eq!(Analytics::format_bytes(1536), "1.50 KB");
    assert_eq!(Analytics::format_bytes(1234567), "1.18 MB");
    assert_eq!(Analytics::format_bytes(1048575), "1024.00 KB");
    assert_eq!(Analytics::format_bytes(1048576), "1.00 MB");
    assert_eq!(Analytics::format_bytes(1053819), "1.01 MB");
    assert_eq!(Analytics::format_bytes(1073741823), "1024.00 MB");
    assert_eq!(Analytics::format_bytes(1073741824), "1.00 GB");
    assert_eq!(Analytics::format_bytes(5905580032), "5.50 GB");
    assert_eq!(Analytics::format_bytes(1099511627775), "1024.00 GB");
    assert_eq!(Analytics::format_bytes(1099511627776), "1.00 TB");
    assert_eq!(Analytics::format_bytes(1125899906842624), "1024.00 TB");
    assert_eq!(Analytics::format_bytes(9007199254740992), "8192.00 TB");
    assert_eq!(Analytics::format_bytes(9007199254740993), "8192.00 TB");
    assert_eq!(Analytics::format_bytes(9007199254740995), "8192.00 TB");
    assert_eq!(Analytics::format_bytes(18014398509481986), "16384.00 TB");
    assert_eq!(Analytics::format_bytes(18014398509481990), "16384.00 TB");
    assert_eq!(Analytics::format_bytes(9223372036854775808), "8388608.00 TB");
    assert_eq!(Analytics::format_bytes(18446744073709551615), "16777216.00 TB");
    assert_eq!(Analytics::format_bytes(18446744073709550592), "16777216.00 TB");
    assert_eq!(Analytics::format_bytes(1408), "1.38 KB");
    assert_eq!(Analytics::format_bytes(1418), "1.38 KB");
    assert_eq!(Analytics::format_bytes(1152921504606847104), "1048576.00 TB");
    assert_eq!(Analytics::format_bytes(1152921504606847105), "1048576.00 TB");
    assert_eq!(Analytics::format_bytes(1152921504606847360), "1048576.00 TB");
}

#[test]
fn bytes_in_words_agree_with_floating_point() {
    let units: [(u64, &str); 4] =
        [(1 << 40, "TB"), (1 << 30, "GB"), (1 << 20, "MB"), (1 << 10, "KB")];
    let mut x: u64 = 0x9E37_79B9_7F4A_7C15;
    let mut samples: Vec<u64> = Vec::new();
    for _ in 0..20_000 {
        x ^= x << 13;
        x ^= x >> 7;
        x ^= x << 17;
        samples.push(x >> (x % 64));
    }
    for unit in [1u64 << 10, 1 << 20, 1 << 30, 1 << 40] {
        for m in 100..2_000u64 {
            samples.push((2 * m + 1) * (unit / 8) / 25);
            samples.push((2 * m + 1) * (unit / 8) / 25 + 1);
        }
    }
    for bytes in samples {
        let expected = match units.iter().find(|(unit, _)| bytes >= *unit) {
            Some((unit, name)) => format!("{:.2} {}", bytes as f64 / *unit as f64, name),
            None => format!("{} B", bytes),
        };
        assert_eq!(Analytics::format_bytes(bytes), expected, "{}", bytes);
    }
}

#[test]
fn summary_report() {
    let mut a = Analytics::new();
    assert_eq!(
        a.generate_summary_report(NOW),
        "=== VPN Usage Summary ===\n\nTotal Connections: 0\nTotal Data Sent: 0 B\n\
         Total Data Received: 0 B\nTotal Duration: 0s\nAverage Session: 0s\n\
         Last 30 Days Data: 0 B\n\n"
    );
    a.log_connection(entry(NOW, "Berlin #2", "Germany", 3600, 1024 * 1024 * 100, 1024 * 1024 * 500));
    a.log_connection(entry(NOW, "Paris #1", "France", 61, 1536, 10));
    a.log_connection(entry(NOW - 31 * DAY, "Berlin #2", "Germany", 1, 0, 1));
    assert_eq!(
        a.generate_summary_report(NOW),
        "=== VPN Usage Summary ===\n\nTotal Connections: 3\nTotal Data Sent: 100.00 MB\n\
         Total Data Received: 500.00 MB\nTotal Duration: 1h 1m 2s\nAverage Session: 20m 20s\n\
         Last 30 Days Data: 600.00 MB\n\nMost Used Countries:\n  Germany - 2 connections\n  \
         France - 1 connections\n\nMost Used Servers:\n  Berlin #2 - 2 connections\n  \
         Paris #1 - 1 connections\n"
    );
    assert_eq!(summary_of(&a.get_statistics(NOW)), a.generate_summary_report(NOW));
}
