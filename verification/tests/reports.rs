//! What is reported, and the files that a transfer is tried out with.

use wormhole_core::transit::transit_text;
use wormhole_core::{
    create_test_file, default_relay_hints, describe_transit, ConnectionType, ProgressMeter,
    TransitInfo,
};

fn describe(conn_type: ConnectionType) -> String {
    describe_transit(&TransitInfo { conn_type, peer_addr: "192.0.2.7:4001".to_string() })
}

#[test]
fn connections_are_described() {
    assert_eq!(describe(ConnectionType::Direct), "Direct peer=192.0.2.7:4001");
    assert_eq!(
        describe(ConnectionType::Relay { name: None }),
        "Relay { name: None } peer=192.0.2.7:4001"
    );
    assert_eq!(
        describe(ConnectionType::Relay { name: Some("relay-1.example.org".to_string()) }),
        "Relay { name: Some(\"relay-1.example.org\") } peer=192.0.2.7:4001"
    );
    assert_eq!(
        describe(ConnectionType::Relay { name: Some("say \"hi\"\n".to_string()) }),
        "Relay { name: Some(\"say \\\"hi\\\"\\n\") } peer=192.0.2.7:4001"
    );
    assert_eq!(transit_text("Direct", "[::1]:9"), "Direct peer=[::1]:9");
}

#[test]
fn the_public_relay_is_offered() {
    let hints = default_relay_hints();
    assert_eq!(hints.len(), 1);
    assert_eq!(hints[0].name, None);
    assert_eq!(hints[0].tcp.len(), 1);
    assert_eq!(hints[0].tcp[0].hostname, "transit.magic-wormhole.io");
    assert_eq!(hints[0].tcp[0].port, 4001);
    assert!(hints[0].ws.is_empty());
}

#[test]
fn create_test_file_writes_requested_size() {
    let mut file = create_test_file(1_700_000_000, 4);
    assert_eq!(file.name(), "portalgems-test-1700000000.bin");
    let mut bytes = Vec::new();
    while let Some(block) = file.next_block() {
        bytes.extend(block);
    }
    assert_eq!(bytes.len(), 4 * 1024);
    for (i, b) in bytes.iter().enumerate() {
        assert_eq!(*b as usize, (i % 1024) % 251);
    }
    assert!(file.next_block().is_none());
}

#[test]
fn test_files_may_be_empty() {
    let mut file = create_test_file(0, 0);
    assert_eq!(file.name(), "portalgems-test-0.bin");
    assert!(file.next_block().is_none());
    assert_eq!(
        create_test_file(u64::MAX, 0).name(),
        "portalgems-test-18446744073709551615.bin"
    );
    assert_ne!(create_test_file(1, 0).name(), create_test_file(10, 0).name());
}

#[test]
fn progress_is_reported_in_steps() {
    let mut meter = ProgressMeter::new();
    let reports: Vec<u64> = (0..=1000).filter_map(|done| meter.on_progress(done, 1000)).collect();
    assert_eq!(reports, vec![25, 50, 75, 100]);
    // the end is reported each time it is seen
    assert_eq!(meter.on_progress(1000, 1000), Some(100));
    assert_eq!(meter.on_progress(999, 1000), None);

    let mut meter = ProgressMeter::new();
    assert_eq!(meter.on_progress(0, 0), Some(100));
    assert_eq!(meter.on_progress(u64::MAX, 0), Some(100));
    let mut meter = ProgressMeter::new();
    assert_eq!(meter.on_progress(3, 2), Some(150));
}
