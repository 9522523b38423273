use height_exporter::schedule::next_deadline;

#[test]
fn next_deadline_stays_on_the_grid() {
    assert_eq!(next_deadline(0, 10, 0), 10);
    assert_eq!(next_deadline(0, 10, 9), 10);
    assert_eq!(next_deadline(0, 10, 10), 20);
    assert_eq!(next_deadline(5, 10, 27), 35);
}

#[test]
fn overrun_ticks_are_coalesced() {
    // A cycle that ran long past several grid points gets one next deadline,
    // not a backlog.
    assert_eq!(next_deadline(0, 10, 47), 50);
    assert_eq!(next_deadline(0, 10, 101), 110);
}

#[test]
fn fixed_rate_run_fires_k_periods_after_start() {
    let start: u64 = 100;
    let period: u64 = 10;
    let mut deadline = start;
    for k in 1..6u64 {
        // each cycle finishes 3 units after its tick, well within the period
        let finish = deadline + 3;
        deadline = next_deadline(start, period, finish);
        assert_eq!(deadline, start + k * period);
    }
}
