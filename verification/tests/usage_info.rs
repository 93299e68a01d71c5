use core::time::Duration;
use paged_verifier::usage_info::{UsageInfo, UsageUnit};

#[test]
fn empty_usage_info_holds_nothing() {
    let info = UsageInfo::empty();
    assert_eq!(info.reads.ops, 0);
    assert_eq!(info.reads.bytes, 0);
    assert_eq!(info.writes.ops, 0);
    assert_eq!(info.writes.bytes, 0);
    assert_eq!(info.cache_reads.ops, 0);
    assert_eq!(info.cache_reads.bytes, 0);
    assert_eq!(info.memory, 0);
    assert_eq!(info.started, Duration::new(0, 0));
    assert_eq!(info.started, Duration::default());
    assert_eq!(info.span, Duration::new(0, 0));
}

#[test]
fn default_usage_unit_is_zero() {
    let unit = UsageUnit::default();
    assert_eq!(unit.ops, 0);
    assert_eq!(unit.bytes, 0);
}
