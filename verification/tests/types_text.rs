use agent_hub::common_rpc_types::{GraphPeriod, NodeStatus};
use agent_hub::hardware::{get_disk_usage, mb};
use agent_hub::text::{i128_to_string, join_lines, str_eq, u128_to_string};

#[test]
fn decimal_rendering_exact() {
    assert_eq!(u128_to_string(0), "0");
    assert_eq!(u128_to_string(7), "7");
    assert_eq!(u128_to_string(10), "10");
    assert_eq!(u128_to_string(1_000_000), "1000000");
    assert_eq!(u128_to_string(u128::MAX), "340282366920938463463374607431768211455");
    assert_eq!(i128_to_string(0), "0");
    assert_eq!(i128_to_string(-1), "-1");
    assert_eq!(i128_to_string(-12345), "-12345");
    assert_eq!(i128_to_string(i128::MIN), "-170141183460469231731687303715884105728");
}

#[test]
fn megabyte_conversion_rounds_towards_zero() {
    assert_eq!(mb(0), 0);
    assert_eq!(mb(999_999), 0);
    assert_eq!(mb(1_000_000), 1);
    assert_eq!(mb(1_500_000_000), 1500);
    assert_eq!(mb(-999_999), 0);
    assert_eq!(mb(-1_500_000), -1);
    assert_eq!(mb(i64::MIN as i128), -9_223_372_036_854);
}

#[test]
fn string_equality_and_joining() {
    assert!(str_eq("", ""));
    assert!(str_eq("abc", "abc"));
    assert!(!str_eq("abc", "abd"));
    assert!(!str_eq("abc", "abcd"));
    assert_eq!(join_lines(&vec![]), "");
    assert_eq!(join_lines(&vec!["one".to_string()]), "one");
    assert_eq!(
        join_lines(&vec!["a".to_string(), "b".to_string(), "c".to_string()]),
        "a\nb\nc"
    );
}

#[test]
fn node_status_default_and_text() {
    assert_eq!(NodeStatus::default(), NodeStatus::Stop);
    assert_eq!(NodeStatus::Starting.text(), "Starting");
    assert_eq!(NodeStatus::Run.text(), "Run");
    assert_eq!(NodeStatus::Stop.text(), "Stop");
    assert_eq!(NodeStatus::Updating.text(), "Updating");
    assert_eq!(NodeStatus::Error.text(), "Error");
    assert_eq!(NodeStatus::UFO.text(), "UFO");
}

#[test]
fn graph_period_wire_text_round_trip() {
    for p in [GraphPeriod::Minutes5, GraphPeriod::Hour, GraphPeriod::Day] {
        assert_eq!(GraphPeriod::from_text(p.as_text()), Some(p));
    }
    assert_eq!(GraphPeriod::from_text("minutes5"), Some(GraphPeriod::Minutes5));
    assert_eq!(GraphPeriod::from_text("hour"), Some(GraphPeriod::Hour));
    assert_eq!(GraphPeriod::from_text("day"), Some(GraphPeriod::Day));
    // anything else names no period
    assert_eq!(GraphPeriod::from_text("fortnight"), None);
    assert_eq!(GraphPeriod::from_text(""), None);
    assert_eq!(GraphPeriod::from_text("Hour"), None);
}

#[test]
fn disk_usage_accumulates_running_totals() {
    // entry i carries the sums over the first i + 1 disks, as the disk
    // sampler reports them
    let disks = vec![(100u64, 50u64), (200, 70), (5, 5)];
    let r = get_disk_usage(&disks);
    assert_eq!(r.len(), 3);
    assert_eq!((r[0].total, r[0].available), (100, 50));
    assert_eq!((r[1].total, r[1].available), (300, 120));
    assert_eq!((r[2].total, r[2].available), (305, 125));
    assert!(get_disk_usage(&vec![]).is_empty());
}
