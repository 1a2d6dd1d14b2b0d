use drmcru::hyprland::{ModePoll, PollStep};

/// Runs a poll over a fixed list of reads; a read matches when it found `want`.
fn run(attempts: usize, reads: Vec<Result<Option<u32>, &'static str>>, want: u32) -> (Result<Option<u32>, &'static str>, usize) {
    let mut poll = ModePoll::new(attempts);
    let mut used = 0;
    for read in reads {
        used += 1;
        let matched = read == Ok(Some(want));
        match poll.after_read(read, matched) {
            PollStep::ReadAgain(next) => poll = next,
            PollStep::Finished(outcome) => return (outcome, used),
        }
    }
    panic!("poll wanted more reads than it was given");
}

#[test]
fn poll_waits_through_old_and_missing_modes() {
    let (outcome, used) = run(20, vec![Ok(Some(144)), Ok(None), Err("hyprctl busy"), Ok(Some(240)), Ok(Some(1))], 240);
    assert_eq!(outcome, Ok(Some(240)));
    assert_eq!(used, 4);
}

#[test]
fn poll_returns_latest_mismatch_after_all_reads() {
    let (outcome, used) = run(3, vec![Ok(Some(144)), Ok(Some(144)), Ok(Some(143)), Ok(Some(240))], 240);
    assert_eq!(outcome, Ok(Some(143)));
    assert_eq!(used, 3);
}

#[test]
fn poll_keeps_last_good_read_after_a_later_error() {
    let (outcome, _) = run(2, vec![Ok(None), Err("gone")], 240);
    assert_eq!(outcome, Ok(None));
}

#[test]
fn poll_without_any_good_read_gives_the_last_error() {
    let (outcome, used) = run(2, vec![Err("first"), Err("second")], 240);
    assert_eq!(outcome, Err("second"));
    assert_eq!(used, 2);
}

#[test]
fn poll_reads_at_least_once() {
    let poll: ModePoll<u32, &str> = ModePoll::new(0);
    assert_eq!(poll.attempts, 1);
    let (outcome, used) = run(0, vec![Ok(Some(60)), Ok(Some(240))], 240);
    assert_eq!(outcome, Ok(Some(60)));
    assert_eq!(used, 1);
}
