use ploy_clean::sampling::strategy::{SamplingLevel, Span, StrategyIntervals};

#[test]
fn span_parts_round_trip() {
    let s = Span::from_parts(7, 250);
    assert_eq!(s.as_secs(), 7);
    assert_eq!(s.subsec_nanos(), 250);
    let w = Span::from_secs(3600);
    assert_eq!(w.as_secs(), 3600);
    assert_eq!(w.subsec_nanos(), 0);
}

#[test]
fn span_half_keeps_nanoseconds() {
    let h = Span::from_secs(3601).half();
    assert_eq!(h.as_secs(), 1800);
    assert_eq!(h.subsec_nanos(), 500_000_000);
    let q = Span::from_parts(0, 3).half();
    assert_eq!(q.as_secs(), 0);
    assert_eq!(q.subsec_nanos(), 1);
}

#[test]
fn span_double_carries_into_seconds() {
    let d = Span::from_parts(1, 600_000_000).double();
    assert_eq!(d.as_secs(), 3);
    assert_eq!(d.subsec_nanos(), 200_000_000);
}

#[test]
fn interval_for_each_level() {
    let iv = StrategyIntervals::default();
    assert_eq!(iv.get_interval_for_level(SamplingLevel::High).as_secs(), 60);
    assert_eq!(iv.get_interval_for_level(SamplingLevel::Medium).as_secs(), 1800);
    assert_eq!(iv.get_interval_for_level(SamplingLevel::Low).as_secs(), 7200);
    assert_eq!(iv.max_interval.as_secs(), 86400);
}

#[test]
fn levels_are_ordered_densest_first() {
    assert_eq!(SamplingLevel::High.ordinal(), 0);
    assert_eq!(SamplingLevel::Medium.ordinal(), 1);
    assert_eq!(SamplingLevel::Low.ordinal(), 2);
    assert!(SamplingLevel::High.is_denser_than(&SamplingLevel::Low));
    assert!(!SamplingLevel::Low.is_denser_than(&SamplingLevel::High));
    assert!(SamplingLevel::Low.is_sparser_than(&SamplingLevel::Medium));
}

#[test]
fn a_level_never_raises_and_lowers_at_once() {
    let all = [SamplingLevel::High, SamplingLevel::Medium, SamplingLevel::Low];
    for a in all.iter() {
        for b in all.iter() {
            let denser = a.is_denser_than(b);
            let sparser = a.is_sparser_than(b);
            assert!(!(denser && sparser));
            assert_eq!(!denser && !sparser, a == b);
        }
    }
}
