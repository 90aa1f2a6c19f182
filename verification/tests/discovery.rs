use trace::inventory::discover;
use trace::inventory::DiscoveryError;
use trace::inventory::TenantDir;
use trace::inventory::TimelineDir;
use trace::ids::parse_trace_id;

const TENANT_A: &str = "0123456789abcdef0123456789abcdef";
const TENANT_B: &str = "00000000000000000000000000000002";
const TIMELINE_A: &str = "aaaaaaaaaaaaaaaaaaaaaaaaaaaaaaaa";
const TIMELINE_B: &str = "bbbbbbbbbbbbbbbbbbbbbbbbbbbbbbbb";
const CONN_1: &str = "00000000000000000000000000000011";
const CONN_2: &str = "00000000000000000000000000000022";
const CONN_3: &str = "00000000000000000000000000000033";

fn timeline(name: &str, files: &[&str]) -> TimelineDir {
    TimelineDir {
        name: name.to_owned(),
        files: files.iter().map(|f| (*f).to_owned()).collect(),
    }
}

fn tenant(name: &str, timelines: Vec<TimelineDir>) -> TenantDir {
    TenantDir { name: name.to_owned(), timelines }
}

#[test]
fn one_descriptor_per_leaf_file() {
    let tree = vec![
        tenant(TENANT_A, vec![
            timeline(TIMELINE_A, &[CONN_1, CONN_2]),
            timeline(TIMELINE_B, &[CONN_3]),
        ]),
        tenant(TENANT_B, vec![timeline(TIMELINE_A, &[CONN_1])]),
    ];
    let descs = discover(&tree).unwrap();
    assert_eq!(descs.len(), 4);

    // Enumeration order: tenants, then timelines, then files.
    let expected = [
        (TENANT_A, TIMELINE_A, CONN_1),
        (TENANT_A, TIMELINE_A, CONN_2),
        (TENANT_A, TIMELINE_B, CONN_3),
        (TENANT_B, TIMELINE_A, CONN_1),
    ];
    for (d, (tn, tl, cn)) in descs.iter().zip(expected.iter()) {
        assert_eq!(d.tenant_name, *tn);
        assert_eq!(d.timeline_name, *tl);
        assert_eq!(d.file_name, *cn);
        // Identity fields match the parsed path segments.
        assert_eq!(d.tenant_id, parse_trace_id(tn).unwrap());
        assert_eq!(d.timeline_id, parse_trace_id(tl).unwrap());
        assert_eq!(d.connection_id, parse_trace_id(cn).unwrap());
    }
}

#[test]
fn empty_tree_discovers_nothing() {
    let tree: Vec<TenantDir> = Vec::new();
    let descs = discover(&tree).unwrap();
    assert!(descs.is_empty());
}

#[test]
fn timeline_without_files_discovers_nothing() {
    let tree = vec![tenant(TENANT_A, vec![timeline(TIMELINE_A, &[])])];
    let descs = discover(&tree).unwrap();
    assert!(descs.is_empty());
}

#[test]
fn bad_tenant_name_fails_discovery() {
    let tree = vec![
        tenant(TENANT_A, vec![timeline(TIMELINE_A, &[CONN_1])]),
        tenant("not-a-tenant", vec![timeline(TIMELINE_A, &[CONN_1])]),
    ];
    match discover(&tree) {
        Err(DiscoveryError::BadTenant { name }) => assert_eq!(name, "not-a-tenant"),
        other => panic!("expected a tenant error, got {:?}", other.is_ok()),
    }
}

#[test]
fn bad_timeline_name_fails_discovery() {
    let tree = vec![tenant(TENANT_A, vec![timeline("0123", &[CONN_1])])];
    match discover(&tree) {
        Err(DiscoveryError::BadTimeline { tenant, name }) => {
            assert_eq!(tenant, TENANT_A);
            assert_eq!(name, "0123");
        },
        other => panic!("expected a timeline error, got {:?}", other.is_ok()),
    }
}

#[test]
fn bad_connection_name_fails_discovery() {
    let tree = vec![tenant(TENANT_A, vec![timeline(TIMELINE_A, &[CONN_1, "zz"])])];
    match discover(&tree) {
        Err(DiscoveryError::BadConnection { tenant, timeline, name }) => {
            assert_eq!(tenant, TENANT_A);
            assert_eq!(timeline, TIMELINE_A);
            assert_eq!(name, "zz");
        },
        other => panic!("expected a connection error, got {:?}", other.is_ok()),
    }
}

#[test]
fn one_bad_entry_fails_the_whole_listing() {
    // Valid leaves before and after the offender make no difference: the
    // listing produces zero descriptors.
    let tree = vec![
        tenant(TENANT_A, vec![timeline(TIMELINE_A, &[CONN_1])]),
        tenant("short", vec![]),
        tenant(TENANT_B, vec![timeline(TIMELINE_B, &[CONN_2])]),
    ];
    assert!(discover(&tree).is_err());
}
