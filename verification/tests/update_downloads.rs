use cargo_registry::aggregate::{collect, update, update_paged, LIMIT};
use cargo_registry::event::DownloadEvent;
use cargo_registry::ledger::CrateDownload;
use cargo_registry::protocol::{Action, Fault, Reply};
use cargo_registry::store::MemStore;
use cargo_registry::timespec::Timespec;

const NOON: i64 = 1_423_915_200;
const TODAY: i64 = 1_423_872_000;
const DAY: i64 = 86_400;

fn now() -> Timespec {
    Timespec::new(NOON, 0)
}

fn current_date() -> Timespec {
    Timespec::new(TODAY, 0)
}

struct Named {
    names: Vec<(String, i32)>,
}

impl Named {
    fn new() -> Named {
        Named { names: Vec::new() }
    }

    fn id(&mut self, name: &str) -> i32 {
        for (known, id) in self.names.iter() {
            if known == name {
                return *id;
            }
        }
        let id = self.names.len() as i32 + 1;
        self.names.push((name.to_string(), id));
        id
    }
}

fn find_or_insert_crate(store: &mut MemStore, crates: &mut Named, name: &str) -> i32 {
    let id = crates.id(name);
    if store.crate_total(id).is_none() {
        store.put_crate(id, 0);
    }
    id
}

fn insert_version(store: &mut MemStore, versions: &mut Named, krate: i32, num: &str) -> i32 {
    let id = versions.id(num);
    store.put_version(id, krate, 0);
    id
}

fn crate_downloads(store: &MemStore, id: i32, expected: usize) {
    let rows = store.daily();
    let dl = rows.iter().find(|r| r.crate_id == id).unwrap().downloads;
    assert_eq!(dl, expected as i32);
}

#[test]
fn increment() {
    let mut store = MemStore::new();
    let mut crates = Named::new();
    let mut versions = Named::new();
    let krate = find_or_insert_crate(&mut store, &mut crates, "foo");
    let version = insert_version(&mut store, &mut versions, krate, "1.0.0");
    store.put_download(version, current_date(), 1, 0, false).unwrap();
    store.put_download(version, current_date(), 1, 0, true).unwrap();
    update(&mut store, now()).unwrap();
    assert_eq!(store.version(version).unwrap().downloads, 1);
    assert_eq!(store.crate_total(krate).unwrap(), 1);
    crate_downloads(&store, krate, 1);
    update(&mut store, now()).unwrap();
    assert_eq!(store.version(version).unwrap().downloads, 1);
}

#[test]
fn increment_a_little() {
    let mut store = MemStore::new();
    let mut crates = Named::new();
    let mut versions = Named::new();
    let krate = find_or_insert_crate(&mut store, &mut crates, "foo");
    let version = insert_version(&mut store, &mut versions, krate, "1.0.0");
    store.put_download(version, current_date(), 2, 1, false).unwrap();
    store.put_download(version, current_date(), 1, 0, false).unwrap();
    update(&mut store, now()).unwrap();
    assert_eq!(store.version(version).unwrap().downloads, 2);
    assert_eq!(store.crate_total(krate).unwrap(), 2);
    crate_downloads(&store, krate, 2);
    update(&mut store, now()).unwrap();
    assert_eq!(store.version(version).unwrap().downloads, 2);
}

fn seeded() -> MemStore {
    let mut store = MemStore::new();
    store.put_crate(7, 100);
    store.put_crate(8, 0);
    store.put_version(1, 7, 40);
    store.put_version(2, 7, 60);
    store.put_version(3, 8, 0);
    store
}

#[test]
fn one_event_is_folded_into_every_aggregate() {
    let mut store = seeded();
    let id = store.put_download(1, current_date(), 1, 0, false).unwrap();
    assert_eq!(id, 1);
    assert_eq!(update(&mut store, now()), Ok(1));
    assert_eq!(store.version(1).unwrap().downloads, 41);
    assert_eq!(store.crate_total(7), Some(101));
    assert_eq!(
        store.daily(),
        vec![CrateDownload { crate_id: 7, day: TODAY / DAY, downloads: 1 }]
    );
    assert_eq!(store.total_downloads(), 1);
    let row = store.download(1).unwrap();
    assert_eq!(row.counted, 1);
    assert_eq!(row.downloads, 1);
    assert!(!row.processed);
    assert!(!store.in_transaction());
}

#[test]
fn two_events_of_one_version_share_the_daily_row() {
    let mut store = seeded();
    store.put_download(1, current_date(), 2, 1, false).unwrap();
    store.put_download(1, current_date(), 1, 0, false).unwrap();
    assert_eq!(update(&mut store, now()), Ok(1));
    assert_eq!(store.version(1).unwrap().downloads, 42);
    assert_eq!(store.crate_total(7), Some(102));
    assert_eq!(
        store.daily(),
        vec![CrateDownload { crate_id: 7, day: 16_480, downloads: 2 }]
    );
    assert_eq!(store.total_downloads(), 2);
    let first = store.daily();
    assert_eq!(update(&mut store, now()), Ok(1));
    assert_eq!(store.version(1).unwrap().downloads, 42);
    assert_eq!(store.crate_total(7), Some(102));
    assert_eq!(store.daily(), first);
    assert_eq!(store.total_downloads(), 2);
    assert_eq!(store.download(1).unwrap().counted, 2);
    assert_eq!(store.download(2).unwrap().counted, 1);
}

#[test]
fn an_old_event_is_frozen_and_never_read_again() {
    let mut store = seeded();
    let old = Timespec::new(NOON - DAY - 1, 0);
    store.put_download(1, old, 5, 0, false).unwrap();
    assert_eq!(update(&mut store, now()), Ok(1));
    let row = store.download(1).unwrap();
    assert!(row.processed);
    assert_eq!(row.counted, 5);
    match store.perform(Action::FetchPage { max: 0, limit: LIMIT }) {
        Reply::Page(rows) => assert!(rows.is_empty()),
        other => panic!("{:?}", other),
    }
    store.rollback();
    assert_eq!(update(&mut store, now()), Ok(0));
    assert_eq!(store.version(1).unwrap().downloads, 45);
}

#[test]
fn the_cutoff_is_exactly_a_day_before_now() {
    let mut store = seeded();
    store.put_download(1, Timespec::new(NOON - DAY, 0), 1, 0, false).unwrap();
    store.put_download(1, Timespec::new(NOON - DAY - 1, 999_999_999), 1, 0, false).unwrap();
    store.put_download(1, Timespec::new(NOON - DAY, -1), 1, 0, false).unwrap();
    assert_eq!(update(&mut store, Timespec::new(NOON, 0)), Ok(1));
    assert!(!store.download(1).unwrap().processed);
    assert!(store.download(2).unwrap().processed);
    assert!(store.download(3).unwrap().processed);
}

#[test]
fn a_row_without_a_delta_is_skipped_and_not_frozen() {
    let mut store = seeded();
    let old = Timespec::new(0, 0);
    store.put_download(1, old, 3, 3, false).unwrap();
    assert_eq!(update(&mut store, now()), Ok(1));
    assert_eq!(
        store.download(1),
        Some(DownloadEvent::new(1, 1, old, 3, 3, false))
    );
    assert_eq!(store.version(1).unwrap().downloads, 40);
    assert!(store.daily().is_empty());
    assert_eq!(store.total_downloads(), 0);
}

#[test]
fn a_second_run_changes_nothing() {
    let mut store = seeded();
    store.put_download(1, current_date(), 9, 2, false).unwrap();
    store.put_download(2, Timespec::new(0, 0), 4, 0, false).unwrap();
    store.put_download(3, current_date(), 1, 1, false).unwrap();
    assert_eq!(update_paged(&mut store, now(), 2), Ok(2));
    let versions = (store.version(1), store.version(2), store.version(3));
    let crates = (store.crate_total(7), store.crate_total(8));
    let daily = store.daily();
    let total = store.total_downloads();
    let rows = (store.download(1), store.download(2), store.download(3));
    assert_eq!(update_paged(&mut store, Timespec::new(NOON + 10 * DAY, 0), 2), Ok(1));
    assert_eq!((store.version(1), store.version(2), store.version(3)), versions);
    assert_eq!((store.crate_total(7), store.crate_total(8)), crates);
    assert_eq!(store.daily(), daily);
    assert_eq!(store.total_downloads(), total);
    assert_eq!((store.download(1), store.download(2), store.download(3)), rows);
}

#[test]
fn each_version_gains_the_deltas_of_its_rows() {
    let mut store = seeded();
    store.put_download(1, current_date(), 10, 4, false).unwrap();
    store.put_download(2, current_date(), 7, 7, false).unwrap();
    store.put_download(1, Timespec::new(TODAY - DAY, 0), 3, 1, false).unwrap();
    store.put_download(3, current_date(), 5, 0, false).unwrap();
    store.put_download(2, current_date(), 100, 0, true).unwrap();
    assert_eq!(update(&mut store, now()), Ok(1));
    assert_eq!(store.version(1).unwrap().downloads, 40 + 6 + 2);
    assert_eq!(store.version(2).unwrap().downloads, 60);
    assert_eq!(store.version(3).unwrap().downloads, 5);
    assert_eq!(store.crate_total(7), Some(108));
    assert_eq!(store.crate_total(8), Some(5));
    assert_eq!(store.total_downloads(), 13);
    assert_eq!(
        store.daily(),
        vec![
            CrateDownload { crate_id: 7, day: 16_480, downloads: 6 },
            CrateDownload { crate_id: 7, day: 16_479, downloads: 2 },
            CrateDownload { crate_id: 8, day: 16_480, downloads: 5 },
        ]
    );
}

#[test]
fn a_processed_row_is_never_touched() {
    let mut store = seeded();
    store.put_download(1, Timespec::new(0, 0), 8, 3, true).unwrap();
    store.put_download(1, current_date(), 1, 0, false).unwrap();
    let frozen = store.download(1);
    assert_eq!(update(&mut store, now()), Ok(1));
    assert_eq!(store.download(1), frozen);
    assert_eq!(update(&mut store, now()), Ok(1));
    assert_eq!(store.download(1), frozen);
    assert_eq!(store.version(1).unwrap().downloads, 41);
}

fn backlog_of(rows: usize) -> MemStore {
    let mut store = seeded();
    for _ in 0..rows {
        store.put_download(1, current_date(), 1, 0, false).unwrap();
    }
    store
}

#[test]
fn a_backlog_is_drained_in_as_many_pages_as_it_fills() {
    for (rows, limit, pages) in [(0, 3, 0), (1, 3, 1), (3, 3, 1), (4, 3, 2), (6, 3, 2), (7, 3, 3), (5, 1, 5), (5, 100, 1)] {
        let mut store = backlog_of(rows);
        assert_eq!(update_paged(&mut store, now(), limit), Ok(pages));
        assert_eq!(store.version(1).unwrap().downloads, 40 + rows as i32);
        assert_eq!(store.total_downloads(), rows as i64);
    }
}

#[test]
fn processed_rows_do_not_count_towards_a_page() {
    let mut store = seeded();
    for i in 0..9 {
        store.put_download(1, current_date(), 1, 0, i % 3 != 0).unwrap();
    }
    match store.perform(Action::FetchPage { max: 0, limit: 2 }) {
        Reply::Page(rows) => {
            assert_eq!(rows.iter().map(|r| r.id).collect::<Vec<i32>>(), vec![1, 4]);
        },
        other => panic!("{:?}", other),
    }
    match store.perform(Action::FetchPage { max: 4, limit: 2 }) {
        Reply::Page(rows) => {
            assert_eq!(rows.iter().map(|r| r.id).collect::<Vec<i32>>(), vec![7]);
        },
        other => panic!("{:?}", other),
    }
    store.rollback();
    assert_eq!(update_paged(&mut store, now(), 2), Ok(2));
    assert_eq!(store.version(1).unwrap().downloads, 43);
}

#[test]
fn a_page_size_of_zero_reads_nothing() {
    let mut store = backlog_of(2);
    assert_eq!(update_paged(&mut store, now(), 0), Ok(0));
    assert_eq!(store.version(1).unwrap().downloads, 40);
    assert_eq!(store.download(1).unwrap().counted, 0);
}

#[test]
fn a_negative_page_size_is_a_store_fault() {
    let mut store = backlog_of(2);
    assert_eq!(update_paged(&mut store, now(), -1), Err(Fault::Store));
    assert_eq!(store.version(1).unwrap().downloads, 40);
    assert!(!store.in_transaction());
}

#[test]
fn the_default_page_holds_ten_thousand_rows() {
    assert_eq!(LIMIT, 10_000);
    let mut store = backlog_of(10_001);
    assert_eq!(update(&mut store, now()), Ok(2));
    assert_eq!(store.version(1).unwrap().downloads, 40 + 10_001);
}

#[test]
fn a_missing_version_fails_the_page_and_keeps_the_pages_before() {
    let mut store = seeded();
    store.put_download(1, current_date(), 1, 0, false).unwrap();
    store.put_download(1, current_date(), 2, 0, false).unwrap();
    store.put_download(1, current_date(), 4, 0, false).unwrap();
    store.put_download(99, current_date(), 8, 0, false).unwrap();
    assert_eq!(update_paged(&mut store, now(), 2), Err(Fault::MissingVersion));
    assert_eq!(store.version(1).unwrap().downloads, 43);
    assert_eq!(store.crate_total(7), Some(103));
    assert_eq!(store.total_downloads(), 3);
    assert_eq!(store.download(2).unwrap().counted, 2);
    assert_eq!(store.download(3).unwrap().counted, 0);
    assert_eq!(store.download(4).unwrap().counted, 0);
    assert_eq!(
        store.daily(),
        vec![CrateDownload { crate_id: 7, day: 16_480, downloads: 3 }]
    );
    assert!(!store.in_transaction());
}

#[test]
fn a_missing_crate_fails_the_page() {
    let mut store = seeded();
    store.put_version(4, 12, 0);
    store.put_download(1, current_date(), 1, 0, false).unwrap();
    store.put_download(4, current_date(), 1, 0, false).unwrap();
    assert_eq!(update(&mut store, now()), Err(Fault::MissingCrate));
    assert_eq!(store.version(1).unwrap().downloads, 40);
    assert_eq!(store.version(4).unwrap().downloads, 0);
    assert_eq!(store.crate_total(7), Some(100));
    assert!(store.daily().is_empty());
    assert_eq!(store.download(1).unwrap().counted, 0);
}

#[test]
fn a_counter_below_its_count_fails_the_page() {
    let mut store = seeded();
    store.put_download(1, current_date(), 1, 0, false).unwrap();
    store.put_download(1, current_date(), 1, 2, false).unwrap();
    assert_eq!(update(&mut store, now()), Err(Fault::CounterRegressed));
    assert_eq!(store.version(1).unwrap().downloads, 40);
    assert_eq!(store.total_downloads(), 0);
}

#[test]
fn a_total_that_does_not_fit_fails_the_page() {
    let mut store = seeded();
    store.put_version(1, 7, i32::MAX - 1);
    store.put_download(1, current_date(), 2, 0, false).unwrap();
    assert_eq!(update(&mut store, now()), Err(Fault::Store));
    assert_eq!(store.version(1).unwrap().downloads, i32::MAX - 1);
    assert_eq!(store.download(1).unwrap().counted, 0);

    let mut store = seeded();
    store.put_version(1, 7, i32::MAX - 2);
    store.put_download(1, current_date(), 2, 0, false).unwrap();
    assert_eq!(update(&mut store, now()), Ok(1));
    assert_eq!(store.version(1).unwrap().downloads, i32::MAX);
}

#[test]
fn increments_between_runs_are_picked_up() {
    let mut store = seeded();
    store.put_download(1, current_date(), 1, 0, false).unwrap();
    assert_eq!(update(&mut store, now()), Ok(1));
    assert!(store.raise_downloads(1, 4));
    assert!(!store.raise_downloads(2, 1));
    assert!(!store.raise_downloads(1, u32::MAX));
    assert_eq!(store.download(1).unwrap().downloads, 5);
    assert_eq!(update(&mut store, now()), Ok(1));
    assert_eq!(store.version(1).unwrap().downloads, 45);
    assert_eq!(store.download(1).unwrap().counted, 5);
    assert_eq!(
        store.daily(),
        vec![CrateDownload { crate_id: 7, day: 16_480, downloads: 5 }]
    );
    assert_eq!(store.total_downloads(), 5);
}

#[test]
fn collect_returns_the_greatest_id_and_leaves_the_page_open() {
    let mut store = seeded();
    store.put_download(1, current_date(), 3, 0, false).unwrap();
    store.put_download(2, current_date(), 2, 0, false).unwrap();
    let rows = vec![store.download(2).unwrap(), store.download(1).unwrap()];
    let cutoff = Timespec::new(NOON - DAY, 0);
    assert_eq!(collect(&mut store, rows, cutoff), Ok(Some(2)));
    assert!(store.in_transaction());
    assert_eq!(store.crate_total(7), Some(105));
    assert_eq!(store.total_downloads(), 5);
    store.rollback();
    assert_eq!(store.crate_total(7), Some(100));
    assert_eq!(store.total_downloads(), 0);
    assert_eq!(store.download(1).unwrap().counted, 0);
}

#[test]
fn collect_of_no_rows_is_none() {
    let mut store = seeded();
    assert_eq!(collect(&mut store, Vec::new(), Timespec::new(0, 0)), Ok(None));
    assert!(!store.in_transaction());
    assert_eq!(store.total_downloads(), 0);
}

#[test]
fn collect_undoes_a_failing_page() {
    let mut store = seeded();
    store.put_download(1, current_date(), 3, 0, false).unwrap();
    store.put_download(50, current_date(), 2, 0, false).unwrap();
    let rows = vec![store.download(1).unwrap(), store.download(2).unwrap()];
    assert_eq!(
        collect(&mut store, rows, Timespec::new(0, 0)),
        Err(Fault::MissingVersion)
    );
    assert!(!store.in_transaction());
    assert_eq!(store.version(1).unwrap().downloads, 40);
    assert_eq!(store.crate_total(7), Some(100));
    assert!(store.daily().is_empty());
}

#[test]
fn collect_counts_against_the_live_counter() {
    let mut store = seeded();
    store.put_download(1, current_date(), 3, 0, false).unwrap();
    let stale = vec![store.download(1).unwrap()];
    assert!(store.raise_downloads(1, 2));
    assert_eq!(collect(&mut store, stale, Timespec::new(0, 0)), Ok(Some(1)));
    assert_eq!(store.version(1).unwrap().downloads, 43);
    let row = store.download(1).unwrap();
    assert_eq!((row.downloads, row.counted), (5, 5));
}

#[test]
fn ids_are_handed_out_in_sequence() {
    let mut store = MemStore::new();
    assert_eq!(store.put_download(1, current_date(), 0, 0, false), Some(1));
    assert_eq!(store.put_download(1, current_date(), 0, 0, true), Some(2));
    assert_eq!(store.download(0), None);
    assert_eq!(store.download(3), None);
    assert_eq!(store.download(2).unwrap().id, 2);
    assert_eq!(store.version(1), None);
    assert_eq!(store.crate_total(1), None);
}
