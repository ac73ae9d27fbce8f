use dml::describer::{
    finish_detection, start_detection, Circumstance, Circumstances, Describer, DetectionStep,
    SqlFamily, SERVER_VERSION_NUM_QUERY,
};
use dml::text::{contains_str, str_eq};

fn ready(step: DetectionStep) -> Describer {
    match step {
        DetectionStep::Ready(d) => d,
        DetectionStep::ProbeVersionNum => panic!("a probe was asked for"),
    }
}

#[test]
fn cockroach_needs_no_probe() {
    let d = ready(start_detection(SqlFamily::Postgres, Some("CockroachDB CCL v22.1.0"), None));
    let c = d.circumstances();
    assert!(c.contains(Circumstance::Cockroach));
    assert!(!c.contains(Circumstance::CockroachWithPostgresNativeTypes));
    assert!(!c.contains(Circumstance::CanPartitionTables));
}

#[test]
fn cockroach_with_postgres_provider_gets_native_types() {
    let d = ready(start_detection(
        SqlFamily::Postgres,
        Some("CockroachDB CCL v22.1.0"),
        Some("postgresql"),
    ));
    let c = d.circumstances();
    assert!(c.contains(Circumstance::Cockroach));
    assert!(c.contains(Circumstance::CockroachWithPostgresNativeTypes));
    assert!(!c.contains(Circumstance::CanPartitionTables));
}

#[test]
fn cockroach_with_other_provider_lacks_native_types() {
    let d = ready(start_detection(SqlFamily::Postgres, Some("CockroachDB v21"), Some("cockroachdb")));
    let c = d.circumstances();
    assert!(c.contains(Circumstance::Cockroach));
    assert!(!c.contains(Circumstance::CockroachWithPostgresNativeTypes));
}

#[test]
fn cockroach_marker_is_case_sensitive() {
    let step = start_detection(SqlFamily::Postgres, Some("cockroachdb v21"), Some("postgresql"));
    assert_eq!(step, DetectionStep::ProbeVersionNum);
}

#[test]
fn true_postgres_asks_for_the_version_number() {
    let step = start_detection(SqlFamily::Postgres, Some("PostgreSQL 13.3 on x86_64"), None);
    assert_eq!(step, DetectionStep::ProbeVersionNum);
    let step = start_detection(SqlFamily::Postgres, None, Some("postgresql"));
    assert_eq!(step, DetectionStep::ProbeVersionNum);
    assert!(SERVER_VERSION_NUM_QUERY.contains("server_version_num"));
}

#[test]
fn partitioning_follows_the_version_number() {
    let partitions = |v: Option<i64>| {
        finish_detection(v).circumstances().contains(Circumstance::CanPartitionTables)
    };
    assert!(!partitions(Some(90600)));
    assert!(partitions(Some(100000)));
    assert!(partitions(Some(130003)));
    assert!(!partitions(Some(99999)));
    assert!(!partitions(None));
    let c = finish_detection(Some(130003)).circumstances();
    assert!(!c.contains(Circumstance::Cockroach));
    assert!(!c.contains(Circumstance::CockroachWithPostgresNativeTypes));
}

#[test]
fn other_families_get_no_capabilities() {
    let cases = [
        (SqlFamily::Mysql, Describer::Mysql),
        (SqlFamily::Sqlite, Describer::Sqlite),
        (SqlFamily::Mssql, Describer::Mssql),
    ];
    for (family, expected) in cases {
        let d = ready(start_detection(family, Some("CockroachDB"), Some("postgresql")));
        assert_eq!(d, expected);
        let c = d.circumstances();
        assert!(!c.contains(Circumstance::Cockroach));
        assert!(!c.contains(Circumstance::CockroachWithPostgresNativeTypes));
        assert!(!c.contains(Circumstance::CanPartitionTables));
    }
}

#[test]
fn circumstances_are_independent_bits() {
    let mut c = Circumstances::empty();
    assert!(!c.contains(Circumstance::Cockroach));
    c.insert(Circumstance::CanPartitionTables);
    assert!(c.contains(Circumstance::CanPartitionTables));
    assert!(!c.contains(Circumstance::Cockroach));
    c.insert(Circumstance::Cockroach);
    c.insert(Circumstance::Cockroach);
    assert!(c.contains(Circumstance::Cockroach));
    assert!(c.contains(Circumstance::CanPartitionTables));
    assert!(!c.contains(Circumstance::CockroachWithPostgresNativeTypes));
}

#[test]
fn substring_search() {
    assert!(contains_str("CockroachDB CCL", "CockroachDB"));
    assert!(contains_str("v22 CockroachDB", "CockroachDB"));
    assert!(contains_str("abc", ""));
    assert!(!contains_str("Cockroach", "CockroachDB"));
    assert!(!contains_str("", "a"));
    assert!(contains_str("ééa", "éa"));
}

#[test]
fn string_equality() {
    assert!(str_eq("postgresql", "postgresql"));
    assert!(!str_eq("postgresql", "postgres"));
    assert!(!str_eq("postgresql", "Postgresql"));
    assert!(str_eq("", ""));
}
