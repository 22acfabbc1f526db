use cargo_registry::driver::{page_max, Driver, Phase};
use cargo_registry::event::DownloadEvent;
use cargo_registry::protocol::{Action, Fault, Reply};
use cargo_registry::timespec::Timespec;

const NOW: i64 = 2_000_000;
const DAY: i64 = 86_400;

fn row(id: i32, version_id: i32, sec: i64, downloads: i32, counted: i32) -> DownloadEvent {
    DownloadEvent::new(id, version_id, Timespec::new(sec, 0), downloads, counted, false)
}

fn started(limit: i64) -> Driver {
    let (driver, first) = Driver::new(Timespec::new(NOW, 0), limit);
    assert_eq!(first, Action::FetchPage { max: 0, limit });
    assert_eq!(driver.phase, Phase::Fetching);
    assert_eq!(driver.cutoff, Timespec::new(NOW - DAY, 0));
    driver
}

#[test]
fn a_fresh_row_walks_through_every_statement() {
    let mut driver = started(100);
    let date = Timespec::new(NOW, 0);
    let page = vec![row(5, 9, NOW, 7, 3)];
    assert_eq!(driver.step(Reply::Page(page)), Action::FindCrate { version_id: 9 });
    assert_eq!(driver.phase, Phase::Resolving);
    assert_eq!(
        driver.step(Reply::Crate(Some(2))),
        Action::AddVersionDownloads { version_id: 9, amount: 4 }
    );
    assert_eq!(
        driver.step(Reply::Count(1)),
        Action::AddCrateDownloads { crate_id: 2, amount: 4 }
    );
    assert_eq!(
        driver.step(Reply::Count(1)),
        Action::AddCrateDaily { crate_id: 2, date, amount: 4 }
    );
    assert_eq!(
        driver.step(Reply::Count(0)),
        Action::InsertCrateDaily { crate_id: 2, date, amount: 4 }
    );
    assert_eq!(
        driver.step(Reply::Count(1)),
        Action::MarkCounted { id: 5, processed: false }
    );
    assert_eq!(driver.step(Reply::Count(1)), Action::AddTotal { amount: 4 });
    assert_eq!(driver.phase, Phase::Totalling);
    assert_eq!(driver.step(Reply::Count(1)), Action::Commit);
    assert_eq!(driver.step(Reply::Done), Action::FetchPage { max: 5, limit: 100 });
    assert_eq!(driver.max, 5);
    assert!(!driver.is_over());
    assert_eq!(driver.step(Reply::Page(Vec::new())), Action::Finish);
    assert!(driver.is_over());
    assert_eq!(driver.phase, Phase::Done);
}

#[test]
fn an_existing_daily_row_is_not_inserted_again() {
    let mut driver = started(100);
    driver.step(Reply::Page(vec![row(1, 1, NOW - DAY - 1, 2, 0)]));
    driver.step(Reply::Crate(Some(3)));
    driver.step(Reply::Count(1));
    driver.step(Reply::Count(1));
    assert_eq!(
        driver.step(Reply::Count(1)),
        Action::MarkCounted { id: 1, processed: true }
    );
}

#[test]
fn rows_without_a_delta_are_passed_over() {
    let mut driver = started(100);
    let page = vec![row(1, 1, NOW, 4, 4), row(2, 6, NOW, 1, 0), row(3, 1, NOW, 0, 0)];
    assert_eq!(driver.step(Reply::Page(page)), Action::FindCrate { version_id: 6 });
    assert_eq!(driver.next, 1);
    driver.step(Reply::Crate(Some(3)));
    driver.step(Reply::Count(1));
    driver.step(Reply::Count(1));
    driver.step(Reply::Count(2));
    assert_eq!(driver.step(Reply::Count(1)), Action::AddTotal { amount: 1 });
    assert_eq!(driver.next, 3);
}

#[test]
fn a_page_of_idle_rows_still_adds_its_total_and_commits() {
    let mut driver = started(100);
    let page = vec![row(3, 1, NOW, 4, 4), row(8, 1, NOW, 0, 0)];
    assert_eq!(driver.step(Reply::Page(page)), Action::AddTotal { amount: 0 });
    assert_eq!(driver.step(Reply::Count(1)), Action::Commit);
    assert_eq!(driver.step(Reply::Done), Action::FetchPage { max: 8, limit: 100 });
}

#[test]
fn nothing_is_asked_after_the_empty_page() {
    let mut driver = started(10);
    assert_eq!(driver.step(Reply::Page(Vec::new())), Action::Finish);
    assert_eq!(driver.step(Reply::Page(vec![row(1, 1, NOW, 1, 0)])), Action::Finish);
    assert_eq!(driver.step(Reply::Failed), Action::Finish);
    assert_eq!(driver.step(Reply::Done), Action::Finish);
    assert_eq!(driver.phase, Phase::Done);
}

#[test]
fn a_failed_statement_is_a_store_fault_and_stays_one() {
    let mut driver = started(10);
    driver.step(Reply::Page(vec![row(1, 1, NOW, 1, 0)]));
    assert_eq!(driver.step(Reply::Failed), Action::Abort(Fault::Store));
    assert_eq!(driver.phase, Phase::Failed(Fault::Store));
    assert!(driver.is_over());
    assert_eq!(driver.step(Reply::Crate(Some(1))), Action::Abort(Fault::Store));
    assert_eq!(driver.step(Reply::Page(Vec::new())), Action::Abort(Fault::Store));
}

#[test]
fn a_failed_first_read_is_a_store_fault() {
    let mut driver = started(10);
    assert_eq!(driver.step(Reply::Failed), Action::Abort(Fault::Store));
}

#[test]
fn a_version_without_a_row_is_a_fault() {
    let mut driver = started(10);
    driver.step(Reply::Page(vec![row(1, 44, NOW, 1, 0)]));
    assert_eq!(driver.step(Reply::Crate(None)), Action::Abort(Fault::MissingVersion));

    let mut driver = started(10);
    driver.step(Reply::Page(vec![row(1, 44, NOW, 1, 0)]));
    driver.step(Reply::Crate(Some(1)));
    assert_eq!(driver.step(Reply::Count(0)), Action::Abort(Fault::MissingVersion));
}

#[test]
fn a_crate_without_a_row_is_a_fault() {
    let mut driver = started(10);
    driver.step(Reply::Page(vec![row(1, 44, NOW, 1, 0)]));
    driver.step(Reply::Crate(Some(1)));
    driver.step(Reply::Count(1));
    assert_eq!(driver.step(Reply::Count(0)), Action::Abort(Fault::MissingCrate));
}

#[test]
fn a_regressed_counter_is_a_fault_before_any_statement() {
    let mut driver = started(10);
    let page = vec![row(1, 1, NOW, 5, 5), row(2, 1, NOW, 3, 4)];
    assert_eq!(driver.step(Reply::Page(page)), Action::Abort(Fault::CounterRegressed));
    assert_eq!(driver.phase, Phase::Failed(Fault::CounterRegressed));
}

#[test]
fn an_answer_of_the_wrong_kind_is_a_protocol_fault() {
    let mut driver = started(10);
    assert_eq!(driver.step(Reply::Count(1)), Action::Abort(Fault::Protocol));

    let mut driver = started(10);
    driver.step(Reply::Page(vec![row(1, 1, NOW, 1, 0)]));
    assert_eq!(driver.step(Reply::Count(1)), Action::Abort(Fault::Protocol));

    let mut driver = started(10);
    driver.step(Reply::Page(vec![row(1, 1, NOW, 1, 1)]));
    driver.step(Reply::Count(1));
    assert_eq!(driver.step(Reply::Count(1)), Action::Abort(Fault::Protocol));

    let mut driver = started(10);
    driver.step(Reply::Page(vec![row(1, 1, NOW, 1, 0)]));
    driver.step(Reply::Crate(Some(1)));
    assert_eq!(driver.step(Reply::Done), Action::Abort(Fault::Protocol));
}

#[test]
fn a_state_off_its_page_is_a_protocol_fault() {
    let (mut driver, _) = Driver::with_cutoff(Timespec::new(0, 0), 10);
    driver.phase = Phase::Marking;
    assert_eq!(driver.step(Reply::Count(1)), Action::Abort(Fault::Protocol));
}

#[test]
fn a_page_total_beyond_the_counter_is_an_overflow() {
    let mut driver = started(10);
    driver.rows = vec![row(1, 1, NOW, 1, 0)];
    driver.phase = Phase::Marking;
    driver.total = i64::MAX as i128;
    assert_eq!(driver.step(Reply::Count(1)), Action::Abort(Fault::Overflow));

    let mut driver = started(10);
    driver.rows = vec![row(1, 1, NOW, 1, 0)];
    driver.phase = Phase::Marking;
    driver.total = i64::MAX as i128 - 1;
    assert_eq!(driver.step(Reply::Count(1)), Action::AddTotal { amount: i64::MAX });

    let mut driver = started(10);
    driver.rows = vec![row(1, 1, NOW, 1, 0)];
    driver.phase = Phase::Marking;
    driver.total = i128::MAX;
    assert_eq!(driver.step(Reply::Count(1)), Action::Abort(Fault::Overflow));
}

#[test]
fn the_widest_delta_is_carried_whole() {
    let mut driver = started(10);
    driver.step(Reply::Page(vec![row(1, 1, NOW, i32::MAX, i32::MIN)]));
    assert_eq!(
        driver.step(Reply::Crate(Some(1))),
        Action::AddVersionDownloads { version_id: 1, amount: 4_294_967_295 }
    );
}

#[test]
fn the_cursor_moves_to_the_greatest_id_of_the_page() {
    assert_eq!(page_max(&Vec::new()), 0);
    assert_eq!(page_max(&vec![row(3, 1, 0, 0, 0), row(9, 1, 0, 0, 0), row(4, 1, 0, 0, 0)]), 9);
    assert_eq!(page_max(&vec![row(-3, 1, 0, 0, 0)]), 0);
}

#[test]
fn terminal_actions_are_finish_and_abort() {
    assert!(Action::Finish.is_terminal());
    assert!(Action::Abort(Fault::Store).is_terminal());
    assert!(!Action::Commit.is_terminal());
    assert!(!Action::FetchPage { max: 0, limit: 1 }.is_terminal());
}

#[test]
fn the_unrecorded_part_of_a_counter() {
    assert_eq!(row(1, 1, 0, 7, 3).unrecorded(), Some(4));
    assert_eq!(row(1, 1, 0, 3, 3).unrecorded(), Some(0));
    assert_eq!(row(1, 1, 0, 3, 4).unrecorded(), None);
    assert_eq!(row(1, 1, 0, i32::MAX, i32::MIN).unrecorded(), Some(4_294_967_295));
}
