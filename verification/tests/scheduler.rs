use backdate::committer::Committer;
use backdate::dates::LocalDateTime;

// Day numbers counted from the proleptic era boundary (day 1 is the
// first day of year 1).  Day 719163 is 1970-01-01, a Thursday.
const THURSDAY: i64 = 719163;
const FRIDAY: i64 = 719164;
const SATURDAY: i64 = 719165;
const SUNDAY: i64 = 719166;
const MONDAY: i64 = 719167;

const NINE_AM: u32 = 9 * 3600;
const FIVE_PM: u32 = 17 * 3600;

fn test_committer(now_day: i64, yrs_ago_milli: u64) -> Committer {
    Committer::anchored_at(
        "0f".to_string(),
        "A U Thor <author@example.com>".to_string(),
        "work".to_string(),
        yrs_ago_milli,
        LocalDateTime { day: now_day, sec: 43200 },
        3600,
        NINE_AM,
        FIVE_PM,
    )
}

#[test]
fn days_to_commit_rounds_365_times_years() {
    // 0.1 years: 36.5 days rounds up to 37.
    let c = test_committer(800000, 100);
    assert_eq!(c.days_to_commit, 37);
    // One year exactly.
    let c = test_committer(800000, 1000);
    assert_eq!(c.days_to_commit, 365);
    // Two years exactly.
    let c = test_committer(800000, 2000);
    assert_eq!(c.days_to_commit, 730);
    // 1.5 years: 547.5 days rounds up to 548.
    let c = test_committer(800000, 1500);
    assert_eq!(c.days_to_commit, 548);
    // A thousandth of a year: 0.365 days rounds down to none.
    let c = test_committer(800000, 1);
    assert_eq!(c.days_to_commit, 0);
}

#[test]
fn start_is_anchored_at_window_opening() {
    let c = test_committer(800000, 100);
    assert_eq!(c.start_datetime.day, 800000 - 37);
    assert_eq!(c.start_datetime.sec, NINE_AM);
    assert_eq!(c.start_hour, NINE_AM);
    assert_eq!(c.end_hour, FIVE_PM);
}

#[test]
fn new_anchors_at_the_clock() {
    let c = Committer::new(
        "0f".to_string(),
        "A U Thor <author@example.com>".to_string(),
        "work".to_string(),
        100,
        NINE_AM,
        FIVE_PM,
    )
    .expect("a tenth of a year fits the calendar");
    assert_eq!(c.days_to_commit, 37);
    // Whatever the clock said, the start sits at the window opening.
    assert_eq!(c.start_datetime.sec, NINE_AM);
    assert!(c.start_datetime.day > 0);
}

#[test]
fn new_owes_success_for_windows_of_at_most_one_day() {
    // round(365 * 0.003) is one day: that fits behind any date the
    // clock can report, so construction may not fail.
    let c = Committer::new(
        "0f".to_string(),
        "A U Thor <author@example.com>".to_string(),
        "work".to_string(),
        3,
        NINE_AM,
        FIVE_PM,
    );
    assert!(c.is_some());
    assert_eq!(c.unwrap().days_to_commit, 1);
}

#[test]
fn day_times_spread_evenly_across_window() {
    let c = test_committer(800000, 100);
    let v = c.day_times(MONDAY, 4);
    assert_eq!(v.len(), 4);
    let secs: Vec<u32> = v.iter().map(|t| t.sec).collect();
    assert_eq!(secs, vec![32400, 39600, 46800, 54000]);
    for t in &v {
        assert_eq!(t.day, MONDAY);
    }
}

#[test]
fn day_times_follow_the_division_formula() {
    let c = test_committer(800000, 100);
    let v = c.day_times(FRIDAY, 13);
    assert_eq!(v.len(), 13);
    let work: u64 = (FIVE_PM - NINE_AM) as u64;
    for (i, t) in v.iter().enumerate() {
        let expected = NINE_AM as u64 + (work * i as u64) / 13;
        assert_eq!(t.sec as u64, expected);
        assert!(NINE_AM <= t.sec && t.sec <= FIVE_PM);
    }
    assert_eq!(v[0].sec, NINE_AM);
    assert_eq!(v[1].sec, NINE_AM + 2215);
    assert_eq!(v[12].sec, NINE_AM + 26584);
}

#[test]
fn day_times_empty_on_skipped_dates() {
    let c = test_committer(800000, 100);
    assert_eq!(c.day_times(SATURDAY, 5).len(), 0);
    assert_eq!(c.day_times(SUNDAY, 13).len(), 0);
    assert_eq!(c.day_times(THURSDAY, 5).len(), 5);
}

#[test]
fn commit_all_schedule_is_ordered_and_inside_window() {
    // 0.2 years: 73 days from the anchored start.
    let c = test_committer(THURSDAY + 73, 200);
    assert_eq!(c.days_to_commit, 73);
    assert_eq!(c.start_datetime.day, THURSDAY);
    let run = c.commit_all();
    let s = &run.schedule;
    assert!(s.len() >= 1);
    assert_eq!(s[0], c.start_datetime);
    for t in s.iter() {
        assert!(NINE_AM <= t.sec && t.sec <= FIVE_PM);
        assert!(c.start_datetime.day <= t.day);
        assert!(t.day < c.start_datetime.day + 73);
    }
    for pair in s.windows(2) {
        let a = pair[0].day as i64 * 86400 + pair[0].sec as i64;
        let b = pair[1].day as i64 * 86400 + pair[1].sec as i64;
        assert!(a <= b);
    }
    // Exactly one commit on day zero: the initial one.
    let on_day_zero = s.iter().filter(|t| t.day == c.start_datetime.day).count();
    assert_eq!(on_day_zero, 1);
}

#[test]
fn commit_all_never_schedules_a_skipped_date_after_day_zero() {
    let c = test_committer(THURSDAY + 73, 200);
    let run = c.commit_all();
    for t in run.schedule.iter().skip(1) {
        let weekday = t.day % 7;
        assert!(weekday != 0 && weekday != 6, "a weekend day was scheduled");
    }
}

#[test]
fn tiny_windows_produce_only_the_initial_commit() {
    // round(365 * 0.003) is one day: only day zero exists.
    let c = test_committer(800000, 3);
    assert_eq!(c.days_to_commit, 1);
    let run = c.commit_all();
    assert_eq!(run.schedule.len(), 1);
    assert_eq!(run.schedule[0], c.start_datetime);
    // No days at all still yields the initial commit.
    let c = test_committer(800000, 1);
    assert_eq!(c.days_to_commit, 0);
    assert_eq!(c.commit_all().schedule.len(), 1);
}

#[test]
fn gen_rand_num_commits_stays_in_range() {
    for _ in 0..1000 {
        let n = Committer::gen_rand_num_commits();
        assert!((0..=13).contains(&n));
    }
}

#[test]
fn weighted_counts_favor_the_extremes() {
    let mut counts = [0u64; 14];
    for _ in 0..100_000 {
        let n = Committer::gen_rand_num_commits();
        counts[n as usize] += 1;
    }
    let extremes = counts[0] + counts[1] + counts[12] + counts[13];
    let middles = counts[5] + counts[6] + counts[7] + counts[8];
    assert!(
        extremes > 2 * middles,
        "extremes {} not well above middles {}",
        extremes,
        middles
    );
}
