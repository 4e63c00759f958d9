use process_monitor::sample::{DecodeError, ProcessSample, RawProcess};
use process_monitor::snapshot::SystemSnapshot;

fn row(pid: u32, name: &str, cpu: f32) -> RawProcess {
    RawProcess { pid, name: name.as_bytes().to_vec(), cpu_bits: cpu.to_bits() }
}

fn sample(pid: u32, name: &str, cpu: f32) -> ProcessSample {
    ProcessSample { pid, name: String::from(name), cpu_bits: cpu.to_bits() }
}

#[test]
fn new_snapshot_is_empty() {
    let snapshot = SystemSnapshot::new();
    assert_eq!(snapshot.len(), 0);
    let listing = snapshot.list();
    assert!(listing.samples.is_empty());
    assert!(listing.undecodable.is_empty());
}

#[test]
fn list_gives_one_sample_per_row_in_order() {
    let mut snapshot = SystemSnapshot::new();
    snapshot.refresh(vec![row(30, "c", 3.0), row(10, "a", 1.0), row(20, "b", 2.0)]);
    assert_eq!(snapshot.len(), 3);
    let listing = snapshot.list();
    assert_eq!(
        listing.samples,
        vec![sample(30, "c", 3.0), sample(10, "a", 1.0), sample(20, "b", 2.0)]
    );
    assert!(listing.undecodable.is_empty());
}

#[test]
fn list_can_be_repeated() {
    let mut snapshot = SystemSnapshot::new();
    snapshot.refresh(vec![row(1, "a", 0.0)]);
    assert_eq!(snapshot.list(), snapshot.list());
}

#[test]
fn refresh_replaces_the_table_wholesale() {
    let mut snapshot = SystemSnapshot::new();
    snapshot.refresh(vec![row(1, "a", 1.0), row(2, "b", 2.0), row(3, "c", 3.0)]);
    snapshot.refresh(vec![row(9, "z", 9.0)]);
    assert_eq!(snapshot.len(), 1);
    assert_eq!(snapshot.list().samples, vec![sample(9, "z", 9.0)]);
    snapshot.refresh(Vec::new());
    assert_eq!(snapshot.len(), 0);
    assert!(snapshot.list().samples.is_empty());
}

#[test]
fn undecodable_name_is_skipped_and_reported() {
    let mut snapshot = SystemSnapshot::new();
    snapshot.refresh(vec![
        row(1, "a", 1.0),
        RawProcess { pid: 2, name: vec![0xff, 0xfe], cpu_bits: 0 },
        row(3, "c", 3.0),
        RawProcess { pid: 4, name: vec![0xc3], cpu_bits: 0 },
    ]);
    assert_eq!(snapshot.len(), 4);
    let listing = snapshot.list();
    assert_eq!(listing.samples, vec![sample(1, "a", 1.0), sample(3, "c", 3.0)]);
    assert_eq!(listing.undecodable, vec![DecodeError { pid: 2 }, DecodeError { pid: 4 }]);
    assert_eq!(listing.samples.len() + listing.undecodable.len(), snapshot.len());
}

#[test]
fn interleaved_refreshes_never_mix_tables() {
    let background = vec![
        vec![row(1, "bg-a", 1.0), row(2, "bg-b", 2.0)],
        vec![row(1, "bg-a", 1.5), row(2, "bg-b", 2.5), row(3, "bg-c", 3.5)],
    ];
    let on_demand = vec![vec![row(7, "fg-x", 7.0)], vec![row(7, "fg-x", 7.5), row(8, "fg-y", 8.5)]];
    // every order in which the two parties can take their two turns each
    let orders: [[bool; 4]; 6] = [
        [true, true, false, false],
        [true, false, true, false],
        [true, false, false, true],
        [false, true, true, false],
        [false, true, false, true],
        [false, false, true, true],
    ];
    for order in orders {
        let mut snapshot = SystemSnapshot::new();
        let mut next_background = 0;
        let mut next_on_demand = 0;
        for turn in order {
            let table = if turn {
                next_background += 1;
                background[next_background - 1].clone()
            } else {
                next_on_demand += 1;
                on_demand[next_on_demand - 1].clone()
            };
            snapshot.refresh(table.clone());
            let expected: Vec<ProcessSample> =
                table.iter().map(|r| ProcessSample::decode(r).unwrap()).collect();
            assert_eq!(snapshot.list().samples, expected);
        }
    }
}
