//! End-to-end checks of the policy layer over simulated chains.

use zoneinfo::kstat::{Facility, KstatError, NamedData, NamedValue, StatisticRecord};
use zoneinfo::kstat::{ncpus, zone_cap_lookup_name, zone_cpu_cap};
use zoneinfo::{zone_cpus, ZoneInfoError};

fn value(name: &str, data: NamedData) -> NamedValue {
    NamedValue {
        name: String::from(name),
        data,
    }
}

fn record(module: &str, name: &str, values: Vec<NamedValue>) -> StatisticRecord {
    StatisticRecord {
        module: String::from(module),
        instance: 0,
        name: String::from(name),
        named: true,
        values,
        readable: true,
    }
}

fn facility(records: Vec<StatisticRecord>) -> Facility {
    Facility {
        open_error: None,
        records,
    }
}

fn unix_record(n: u32) -> StatisticRecord {
    record(
        "unix",
        "system_misc",
        vec![value("ncpus", NamedData::U32(n))],
    )
}

fn cap_record(id: i32, cap: u64) -> StatisticRecord {
    record(
        "caps",
        &format!("cpucaps_zone_{}", id),
        vec![value("value", NamedData::ULong(cap))],
    )
}

#[test]
fn raw_count_from_single_record() {
    let f = facility(vec![unix_record(8)]);
    assert_eq!(ncpus(&f), Ok(8));
}

#[test]
fn cap_preferred_over_raw_count() {
    let f = facility(vec![unix_record(8), cap_record(7, 450)]);
    assert_eq!(zone_cpu_cap(&f, Ok(7)), Ok(Some(450)));
    assert_eq!(zone_cpus(&f, Ok(7)), Ok(4));
}

#[test]
fn missing_cap_record_means_no_cap() {
    let f = facility(vec![unix_record(8)]);
    assert_eq!(zone_cpu_cap(&f, Ok(9)), Ok(None));
    assert_eq!(zone_cpus(&f, Ok(9)), Ok(8));
}

#[test]
fn open_failure_is_fatal_everywhere() {
    let f = Facility {
        open_error: Some(13),
        records: vec![unix_record(8), cap_record(7, 450)],
    };
    assert_eq!(ncpus(&f), Err(KstatError::Open(13)));
    assert_eq!(zone_cpu_cap(&f, Ok(7)), Err(KstatError::Open(13)));
    assert_eq!(zone_cpus(&f, Ok(7)), Err(ZoneInfoError::Kstat(KstatError::Open(13))));
}

#[test]
fn open_failure_wins_over_zone_id_failure() {
    let f = Facility {
        open_error: Some(5),
        records: vec![],
    };
    assert_eq!(zone_cpu_cap(&f, Err(42)), Err(KstatError::Open(5)));
}

#[test]
fn zone_id_failure_propagates() {
    let f = facility(vec![unix_record(8)]);
    assert_eq!(zone_cpu_cap(&f, Err(42)), Err(KstatError::Zoneid(42)));
    assert_eq!(
        zone_cpus(&f, Err(42)),
        Err(ZoneInfoError::Kstat(KstatError::Zoneid(42)))
    );
}

#[test]
fn empty_chain_raw_count_not_found() {
    let f = facility(vec![]);
    match ncpus(&f) {
        Err(KstatError::Error(m)) => assert_eq!(m, "cpu count kstat not found"),
        other => panic!("expected a not-found error, got {:?}", other),
    }
}

#[test]
fn unrelated_records_raw_count_not_found() {
    let f = facility(vec![
        record("caps", "cpucaps_zone_1", vec![value("value", NamedData::ULong(100))]),
        record("unix", "var", vec![value("v_proc", NamedData::U32(4))]),
    ]);
    assert!(matches!(ncpus(&f), Err(KstatError::Error(_))));
    assert!(matches!(
        zone_cpus(&f, Ok(3)),
        Err(ZoneInfoError::Kstat(KstatError::Error(_)))
    ));
}

#[test]
fn cap_division_truncates() {
    for (cap, cpus) in [(350u64, 3usize), (99, 0), (100, 1), (50, 0), (0, 0)] {
        let f = facility(vec![unix_record(8), cap_record(2, cap)]);
        assert_eq!(zone_cpus(&f, Ok(2)), Ok(cpus));
    }
}

#[test]
fn no_cap_matches_raw_count_exactly() {
    for n in [1u32, 2, 64] {
        let f = facility(vec![unix_record(n)]);
        assert_eq!(zone_cpus(&f, Ok(11)).ok(), ncpus(&f).ok());
        assert_eq!(zone_cpus(&f, Ok(11)), Ok(n as usize));
    }
}

#[test]
fn first_matching_record_with_statistic_wins() {
    // The first record equal to the pair lacks the statistic; the scan
    // must step past it and take the value of the next equal record.
    let mut bare = record("unix", "system_misc", vec![]);
    bare.values = vec![value("nproc", NamedData::U32(99))];
    let f = facility(vec![bare, unix_record(16), unix_record(32)]);
    assert_eq!(ncpus(&f), Ok(16));
}

#[test]
fn module_and_name_must_both_match() {
    // Records sharing only the name, or only the module, are skipped.
    let f = facility(vec![
        record("unixish", "system_misc", vec![value("ncpus", NamedData::U32(2))]),
        record("unix", "system_misc2", vec![value("ncpus", NamedData::U32(3))]),
        unix_record(4),
    ]);
    assert_eq!(ncpus(&f), Ok(4));
}

#[test]
fn cap_name_carries_decimal_zone_id() {
    assert_eq!(zone_cap_lookup_name(0), "cpucaps_zone_0");
    assert_eq!(zone_cap_lookup_name(7), "cpucaps_zone_7");
    assert_eq!(zone_cap_lookup_name(120), "cpucaps_zone_120");
    assert_eq!(zone_cap_lookup_name(i32::MAX), "cpucaps_zone_2147483647");
    assert_eq!(zone_cap_lookup_name(-3), "cpucaps_zone_-3");
    assert_eq!(zone_cap_lookup_name(i32::MIN), "cpucaps_zone_-2147483648");
}

#[test]
fn cap_for_large_zone_id() {
    let f = facility(vec![cap_record(1048576, 250)]);
    assert_eq!(zone_cpu_cap(&f, Ok(1048576)), Ok(Some(250)));
    assert_eq!(zone_cpus(&f, Ok(1048576)), Ok(2));
}
