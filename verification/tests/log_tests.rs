use devbox_core::level::parse_log_entry;
use devbox_core::ring::LogRing;
use devbox_core::subs::{history_events, Subscription, SubscriptionSet};
use devbox_core::fileio::{is_probably_text, is_valid_utf8_prefix, should_ignore_dir};
use devbox_core::ports::{collect_open_ports, filter_ports};
use devbox_core::text::str_contains;
use devbox_core::fileio::{filename_from_content_disposition, filename_matches, replace_all};

#[test]
fn test_parse_log_entry_levels() {
    assert_eq!(
        parse_log_entry("[stdout] hi there"),
        ("stdout".to_string(), "hi there".to_string())
    );
    assert_eq!(parse_log_entry("[stderr] oops"), ("stderr".to_string(), "oops".to_string()));
    assert_eq!(parse_log_entry("[system] note"), ("system".to_string(), "note".to_string()));
    assert_eq!(
        parse_log_entry("[exec] pwd"),
        ("system".to_string(), "Executing: pwd".to_string())
    );
    assert_eq!(
        parse_log_entry("[cd] /tmp"),
        ("system".to_string(), "Changed directory to: /tmp".to_string())
    );
    assert_eq!(parse_log_entry("plain line"), ("unknown".to_string(), "plain line".to_string()));
}

#[test]
fn test_ring_eviction_keeps_last_lines() {
    let mut ring = LogRing::new(3);
    for i in 0..5u32 {
        ring.push(format!("line{}", i));
    }
    assert_eq!(ring.len(), 3);
    assert_eq!(ring.snapshot(), vec!["line2", "line3", "line4"]);

    // At full scale: after appending N > 10 000 lines only the last
    // 10 000 remain, the first N - 10 000 being the evicted prefix.
    let mut big = LogRing::new(10000);
    for i in 0..10005u32 {
        big.push(format!("{}", i));
    }
    assert_eq!(big.len(), 10000);
    let snap = big.snapshot();
    assert_eq!(snap[0], "5");
    assert_eq!(snap[9999], "10004");
}

#[test]
fn test_ring_tail() {
    let mut ring = LogRing::new(10);
    ring.push("a".to_string());
    ring.push("b".to_string());
    ring.push("c".to_string());
    assert_eq!(ring.tail(2), vec!["b", "c"]);
    assert_eq!(ring.tail(9), vec!["a", "b", "c"]);
    assert_eq!(ring.tail(0), Vec::<String>::new());
}

#[test]
fn test_subscription_history_filter_and_sequence() {
    // A process that produced five stdout lines and two stderr lines;
    // a subscription with tail 3 and a stderr-only filter sees exactly
    // the stderr lines among the last three, numbered from 0.
    let mut ring = LogRing::new(10000);
    for i in 0..5u32 {
        ring.push(format!("[stdout] out{}\n", i));
    }
    ring.push("[stderr] err0\n".to_string());
    ring.push("[stderr] err1\n".to_string());

    let tail = ring.tail(3);
    let levels = vec!["stderr".to_string()];
    let events = history_events(&tail, &levels, "process", "p1", 1700000000);
    assert_eq!(events.len(), 2);
    assert_eq!(events[0].sequence, 0);
    assert_eq!(events[0].level, "stderr");
    assert_eq!(events[0].content, "err0\n");
    assert!(events[0].is_history);
    assert_eq!(events[1].sequence, 1);
    assert_eq!(events[1].content, "err1\n");

    // The live follow continues the same counter.
    let mut sub = Subscription::new(
        "process".to_string(),
        "p1".to_string(),
        levels,
        events.len() as i64,
        1700000000,
    );
    let none = sub.next_live_event("[stdout] more\n", 1700000001);
    assert!(none.is_none());
    let live = sub.next_live_event("[stderr] err2\n", 1700000002).unwrap();
    assert_eq!(live.sequence, 2);
    assert!(!live.is_history);
    assert_eq!(live.level, "stderr");
    assert_eq!(live.content, "err2\n");
}

#[test]
fn test_subscription_set_keys() {
    let mut set = SubscriptionSet::new();
    assert!(!set.contains("process", "a"));
    set.add(devbox_core::subs::SubscriptionInfo {
        id: devbox_core::subs::sub_key("process", "a"),
        target_type: "process".to_string(),
        target_id: "a".to_string(),
        log_levels: vec![],
        created_at: 1,
        active: true,
    });
    assert!(set.contains("process", "a"));
    assert!(!set.contains("session", "a"));
    let listed = set.list();
    assert_eq!(listed.len(), 1);
    assert_eq!(listed[0].id, "process:a");
    assert!(set.remove("process", "a"));
    assert!(!set.remove("process", "a"));
    assert_eq!(set.list().len(), 0);
}

#[test]
fn test_is_probably_text_heuristics() {
    assert!(is_probably_text(b""));
    assert!(is_probably_text(b"plain ascii text\nwith lines\n"));
    assert!(!is_probably_text(b"has a \x00 null"));
    // More than 10% control characters reads as binary.
    assert!(!is_probably_text(b"\x01\x02\x03\x04 abc"));
    // Valid multi-byte UTF-8 passes.
    assert!(is_probably_text("héllo wörld".as_bytes()));
    // An invalid continuation byte fails.
    assert!(!is_probably_text(b"abc\xC3\x28def"));
}

#[test]
fn test_is_valid_utf8_prefix_cases() {
    assert!(is_valid_utf8_prefix(b"ascii"));
    assert!(is_valid_utf8_prefix("héllo".as_bytes()));
    // Truncated trailing sequence is tolerated.
    assert!(is_valid_utf8_prefix(b"abc\xC3"));
    assert!(is_valid_utf8_prefix(b"abc\xE2\x82"));
    // Bad leading byte.
    assert!(!is_valid_utf8_prefix(b"\xFF"));
    // Overlong encoding.
    assert!(!is_valid_utf8_prefix(b"\xC0\xAF"));
    // Surrogate half.
    assert!(!is_valid_utf8_prefix(b"\xED\xA0\x80"));
}

#[test]
fn test_should_ignore_dir_names() {
    assert!(should_ignore_dir(".git"));
    assert!(should_ignore_dir(".anything-hidden"));
    assert!(should_ignore_dir("node_modules"));
    assert!(should_ignore_dir("target"));
    assert!(!should_ignore_dir("src"));
    assert!(!should_ignore_dir("lib"));
}

#[test]
fn test_parse_proc_net_tcp_and_filter() {
    let content = "  sl  local_address rem_address   st\n\
                   0: 00000000:1F90 00000000:0000 0A\n\
                   1: 0100007F:0016 00000000:0000 0A\n\
                   2: 00000000000000000000000000000000:0050 00000000000000000000000000000000:0000 0A\n";
    let ports = collect_open_ports(Some(content), None, &vec![]);
    // 0x1F90 = 8080 on the wildcard; 0x0016 = 22 is bound to loopback
    // and skipped; 0x0050 = 80 on the v6 wildcard.
    assert_eq!(ports, vec![8080, 80]);

    let filtered = filter_ports(&vec![22, 8080, 8080, 80], &vec![22]);
    assert_eq!(filtered, vec![8080, 80]);
}

#[test]
fn test_str_contains() {
    assert!(str_contains("hello world", "lo wo"));
    assert!(str_contains("hello", ""));
    assert!(str_contains("aaa", "aa"));
    assert!(!str_contains("hello", "world"));
    assert!(!str_contains("ab", "abc"));
}

#[test]
fn test_replace_all() {
    assert_eq!(replace_all("aaaa", "aa", "b"), ("bb".to_string(), 2));
    assert_eq!(replace_all("a-b-c", "-", "--"), ("a--b--c".to_string(), 2));
    assert_eq!(replace_all("nothing here", "xyz", "q"), ("nothing here".to_string(), 0));
    assert_eq!(replace_all("xx", "x", ""), ("".to_string(), 2));
}

#[test]
fn test_filename_from_content_disposition() {
    assert_eq!(
        filename_from_content_disposition("form-data; name=\"file\"; filename=\"a/b.txt\""),
        Some("a/b.txt".to_string())
    );
    assert_eq!(
        filename_from_content_disposition("form-data; filename=plain.txt"),
        Some("plain.txt".to_string())
    );
    assert_eq!(filename_from_content_disposition("form-data; name=\"file\""), None);
    assert_eq!(filename_from_content_disposition("form-data; filename=\"\""), None);
}

#[test]
fn test_filename_matches_case_insensitive() {
    assert!(filename_matches("README.md", "readme"));
    assert!(filename_matches("Main.RS", "main.rs"));
    assert!(!filename_matches("lib.rs", "test"));
}
