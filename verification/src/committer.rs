use vstd::prelude::*;

use crate::dates::{LocalDateTime, should_skip_date, spec_should_skip, MAX_DAY, SECS_PER_DAY};
use vstd::arithmetic::div_mod::{lemma_div_is_ordered, lemma_div_pos_is_pos, lemma_multiply_divide_lt};
use chrono::{Datelike, Timelike};
use rand::distributions::Distribution;

verus! {

/// How many days of history a run covers, from thousandths of a year:
/// 365 days per year, rounded half up (the rounding a positive
/// fractional year count gets).
pub open spec fn spec_days_to_commit(yrs_ago_milli: int) -> int {
    (365 * yrs_ago_milli + 500) / 1000
}

/// A Committer holds the configuration of one run: what every commit
/// carries (tree, author, message), and when commits happen (the
/// anchored start, the number of days, the daily work window).
pub struct Committer {
    pub tree: String,
    pub author: String,
    pub message: String,
    pub days_to_commit: u64,
    pub start_datetime: LocalDateTime,
    pub start_hour: u32,
    pub end_hour: u32,
    pub utc_offset: i32,
}

impl Committer {
    /// The configuration invariant: a valid work window, the start
    /// anchored at the window's opening second, and every day of the
    /// run on a representable date.
    pub open spec fn wf(self) -> bool {
        &&& self.start_datetime.wf()
        &&& self.start_datetime.sec == self.start_hour
        &&& self.start_hour < self.end_hour
        &&& self.end_hour < SECS_PER_DAY
        &&& self.start_datetime.day + self.days_to_commit <= MAX_DAY
        &&& -86400 < self.utc_offset < 86400
    }

    /// Builds the configuration from a known current time: the day
    /// count is 365 times the fractional years, rounded, and the start
    /// is today's window opening shifted back that many whole days.
    pub fn anchored_at(
        tree: String,
        author: String,
        message: String,
        yrs_ago_milli: u64,
        now: LocalDateTime,
        utc_offset: i32,
        start_hour: u32,
        end_hour: u32,
    ) -> (c: Committer)
        requires
            now.wf(),
            start_hour < end_hour,
            end_hour < SECS_PER_DAY,
            -86400 < utc_offset < 86400,
            yrs_ago_milli <= 100_000_000_000,
            spec_days_to_commit(yrs_ago_milli as int) <= now.day,
        ensures
            c.wf(),
            c.tree == tree,
            c.author == author,
            c.message == message,
            c.days_to_commit == spec_days_to_commit(yrs_ago_milli as int),
            c.start_datetime.day == now.day - c.days_to_commit,
            c.start_datetime.sec == start_hour,
            c.start_hour == start_hour,
            c.end_hour == end_hour,
            c.utc_offset == utc_offset,
    {
        let days_to_commit: u64 = (365 * yrs_ago_milli + 500) / 1000;
        let start_datetime = LocalDateTime { day: now.day - days_to_commit as i64, sec: start_hour };
        Committer {
            tree,
            author,
            message,
            days_to_commit,
            start_datetime,
            start_hour,
            end_hour,
            utc_offset,
        }
    }

    /// Builds the configuration anchored at the clock's current local
    /// time.  Returns nothing only when the requested window reaches
    /// back past the representable calendar; a window of at most one
    /// day fits behind any date the clock can report, so construction
    /// then always succeeds.
    pub fn new(
        tree: String,
        author: String,
        message: String,
        yrs_ago_milli: u64,
        start_hour: u32,
        end_hour: u32,
    ) -> (r: Option<Committer>)
        requires
            1 <= yrs_ago_milli <= 100_000_000_000,
            start_hour < end_hour,
            end_hour < SECS_PER_DAY,
        ensures
            spec_days_to_commit(yrs_ago_milli as int) <= 1 ==> r is Some,
            r matches Some(c) ==> {
                &&& c.wf()
                &&& c.tree == tree
                &&& c.author == author
                &&& c.message == message
                &&& c.days_to_commit == spec_days_to_commit(yrs_ago_milli as int)
                &&& c.start_datetime.sec == start_hour
                &&& c.start_hour == start_hour
                &&& c.end_hour == end_hour
            },
    {
        let (now, utc_offset) = local_now();
        let days_to_commit: u64 = (365 * yrs_ago_milli + 500) / 1000;
        if days_to_commit <= now.day as u64 {
            Some(Self::anchored_at(tree, author, message, yrs_ago_milli, now, utc_offset, start_hour, end_hour))
        } else {
            None
        }
    }

    /// Draws the number of commits for one day: an integer between 0
    /// and 13, the extreme counts weighted heavier than the middle ones
    /// so quiet and busy days both appear.
    pub fn gen_rand_num_commits() -> (n: i32)
        ensures
            0 <= n <= 13,
    {
        let choices: Vec<i32> = vec![0, 1, 2, 3, 4, 5, 6, 7, 8, 9, 10, 11, 12, 13];
        let weights: Vec<u32> = vec![3, 4, 2, 2, 2, 1, 1, 1, 1, 2, 2, 2, 4, 3];
        let idx = sample_weighted(&weights);
        choices[idx]
    }

    /// Where one day's commit `i` of `n` lands: the window's opening
    /// second plus `i` equal shares of the window's length.
    pub open spec fn spec_day_sec(self, n: int, i: int) -> int {
        self.start_hour + ((self.end_hour - self.start_hour) * i) / n
    }

    /// The timestamps of one day's commits: `num_of_commits` of them,
    /// spread evenly across the work window in ascending order, the
    /// first exactly at the window's opening; none at all when the date
    /// policy skips the day.
    pub fn day_times(&self, day: i64, num_of_commits: u32) -> (v: Vec<LocalDateTime>)
        requires
            self.wf(),
            0 <= day <= MAX_DAY,
        ensures
            spec_should_skip(day as int) ==> v@.len() == 0,
            !spec_should_skip(day as int) ==> v@.len() == num_of_commits,
            forall|i: int| 0 <= i < v@.len() ==> (#[trigger] v@[i]).day == day,
            forall|i: int| 0 <= i < v@.len() ==> (#[trigger] v@[i]).sec
                == self.spec_day_sec(num_of_commits as int, i),
            forall|i: int| 0 <= i < v@.len() ==> self.start_hour <= (#[trigger] v@[i]).sec < self.end_hour,
            forall|i: int, j: int| 0 <= i <= j < v@.len()
                ==> (#[trigger] v@[i]).sec <= (#[trigger] v@[j]).sec,
            forall|i: int| 0 <= i < v@.len() ==> (#[trigger] v@[i]).wf(),
    {
        let mut v: Vec<LocalDateTime> = Vec::new();
        if should_skip_date(LocalDateTime { day, sec: self.start_hour }) {
            return v;
        }
        let work: u32 = self.end_hour - self.start_hour;
        let mut i: u32 = 0;
        while i < num_of_commits
            invariant
                self.wf(),
                0 <= day <= MAX_DAY,
                work == self.end_hour - self.start_hour,
                i <= num_of_commits,
                v@.len() == i,
                forall|k: int| 0 <= k < v@.len() ==> (#[trigger] v@[k]).day == day,
                forall|k: int| 0 <= k < v@.len() ==> (#[trigger] v@[k]).sec
                    == self.spec_day_sec(num_of_commits as int, k),
                forall|k: int| 0 <= k < v@.len() ==> self.start_hour <= (#[trigger] v@[k]).sec < self.end_hour,
            decreases num_of_commits - i,
        {
            proof {
                let w = work as int;
                let n = num_of_commits as int;
                let ii = i as int;
                assert(0 <= w * ii && w * ii < n * w && w * ii < 0x1_0000_0000_0000_0000) by (nonlinear_arith)
                    requires
                        0 <= ii < n,
                        1 <= w < 86400,
                        ii < 0x1_0000_0000,
                ;
                lemma_multiply_divide_lt(w * ii, n, w);
                lemma_div_pos_is_pos(w * ii, n);
            }
            let off: u64 = (work as u64 * i as u64) / (num_of_commits as u64);
            let sec: u32 = self.start_hour + off as u32;
            v.push(LocalDateTime { day, sec });
            i = i + 1;
        }
        proof {
            assert forall|a: int, b: int| 0 <= a <= b < v@.len() implies (#[trigger] v@[a]).sec
                <= (#[trigger] v@[b]).sec by {
                let w = (self.end_hour - self.start_hour) as int;
                let n = num_of_commits as int;
                assert(w * a <= w * b) by (nonlinear_arith)
                    requires
                        0 <= a <= b,
                        0 <= w,
                ;
                lemma_div_is_ordered(w * a, w * b, n);
            }
        }
        v
    }

    /// Builds the whole run: one initial commit at the anchored start,
    /// then, for every later day of the window, a randomly drawn number
    /// of commits spread evenly over that day's work window — none on a
    /// date the date policy skips.  The engine calls the run asks for
    /// are then performed one at a time through `next_request` and
    /// `commit_written`.
    pub fn commit_all(&self) -> (r: Run)
        requires
            self.wf(),
        ensures
            r.wf(),
            r.next == 0,
            r.parent is None,
            r.tree == self.tree,
            r.author == self.author,
            r.message == self.message,
            r.utc_offset == self.utc_offset,
            valid_schedule(*self, r.schedule@),
            exists|counts: Seq<int>| #[trigger] schedule_blocks(*self, counts, r.schedule@),
    {
        let mut sched: Vec<LocalDateTime> = Vec::new();
        sched.push(self.start_datetime);
        let ghost mut counts: Seq<int> = Seq::empty();
        proof {
            assert(sched@ =~= seq![self.start_datetime] + spec_day_blocks(*self, 1, counts));
        }
        let mut d: u64 = 1;
        while d < self.days_to_commit
            invariant
                self.wf(),
                1 <= d,
                d <= self.days_to_commit || d == 1,
                counts.len() == d - 1,
                forall|k: int| 0 <= k < counts.len() ==> 0 <= #[trigger] counts[k] <= 13,
                sched@ == seq![self.start_datetime] + spec_day_blocks(*self, 1, counts),
                sched@.len() >= 1,
                sched@[0] == self.start_datetime,
                forall|k: int| 0 <= k < sched@.len() ==> (#[trigger] sched@[k]).wf(),
                forall|k: int|
                    0 <= k < sched@.len() ==> self.start_hour <= (#[trigger] sched@[k]).sec
                        <= self.end_hour,
                forall|k: int|
                    1 <= k < sched@.len() ==> !spec_should_skip((#[trigger] sched@[k]).day as int),
                forall|k: int|
                    1 <= k < sched@.len() ==> self.start_datetime.day < (#[trigger] sched@[k]).day,
                forall|k: int|
                    0 <= k < sched@.len() ==> (#[trigger] sched@[k]).day < self.start_datetime.day
                        + d,
                forall|a: int, b: int|
                    0 <= a <= b < sched@.len() ==> (#[trigger] sched@[a]).to_secs()
                        <= (#[trigger] sched@[b]).to_secs(),
            decreases self.days_to_commit - d,
        {
            let day: i64 = self.start_datetime.day + d as i64;
            let n = Self::gen_rand_num_commits();
            let mut times = self.day_times(day, n as u32);
            let ghost before = sched@;
            let ghost block = times@;
            sched.append(&mut times);
            proof {
                assert forall|a: int, b: int|
                    0 <= a <= b < sched@.len() implies (#[trigger] sched@[a]).to_secs()
                    <= (#[trigger] sched@[b]).to_secs() by {
                    if b < before.len() {
                        assert(sched@[a] == before[a] && sched@[b] == before[b]);
                    } else if a >= before.len() {
                        assert(sched@[a] == block[a - before.len()]);
                        assert(sched@[b] == block[b - before.len()]);
                        assert(sched@[a].day == sched@[b].day);
                        assert(sched@[a].sec <= sched@[b].sec);
                    } else {
                        let x = before[a];
                        let y = block[b - before.len()];
                        assert(sched@[a] == x && sched@[b] == y);
                        assert(x.day < day && y.day == day);
                        assert(x.to_secs() < (x.day + 1) * (SECS_PER_DAY as int));
                        assert((x.day + 1) * (SECS_PER_DAY as int) <= y.day * (SECS_PER_DAY as int));
                        assert(y.day * (SECS_PER_DAY as int) <= y.to_secs());
                    }
                }
                let n_int = n as int;
                let this_block = spec_day_block(*self, day as int, n_int);
                if !spec_should_skip(day as int) {
                    assert forall|k: int| 0 <= k < block.len() implies block[k]
                        == this_block[k] by {
                        assert(block[k].sec == self.spec_day_sec(n_int, k));
                    }
                }
                assert(block =~= this_block);
                lemma_day_blocks_push(*self, 1, counts, n_int);
                assert(sched@ =~= seq![self.start_datetime] + spec_day_blocks(
                    *self,
                    1,
                    counts.push(n_int),
                ));
                counts = counts.push(n_int);
            }
            d = d + 1;
        }
        proof {
            assert(schedule_blocks(*self, counts, sched@));
        }
        Run::from_schedule(
            self.tree.clone(),
            self.author.clone(),
            self.message.clone(),
            self.utc_offset,
            sched,
        )
    }
}

/// One day's commits, as the even-spacing formula places them: none
/// when the date policy skips the day, else `n` of them, commit `i`
/// landing at `spec_day_sec(n, i)` of that day.
pub open spec fn spec_day_block(c: Committer, day: int, n: int) -> Seq<LocalDateTime> {
    if spec_should_skip(day) {
        Seq::empty()
    } else {
        Seq::new(
            n as nat,
            |i: int| LocalDateTime { day: day as i64, sec: c.spec_day_sec(n, i) as u32 },
        )
    }
}

/// The day blocks of the run's days `from`, `from + 1`, ... laid end to
/// end, one drawn commit count per day.
pub open spec fn spec_day_blocks(c: Committer, from: int, counts: Seq<int>) -> Seq<LocalDateTime>
    decreases counts.len(),
{
    if counts.len() == 0 {
        Seq::empty()
    } else {
        spec_day_block(c, c.start_datetime.day + from, counts[0]) + spec_day_blocks(
            c,
            from + 1,
            counts.skip(1),
        )
    }
}

/// What a run's schedule is, exactly: the initial commit at the
/// anchored start, then for each later day of the window, in order,
/// that day's block for some drawn count of at most 13 commits.
pub open spec fn schedule_blocks(c: Committer, counts: Seq<int>, s: Seq<LocalDateTime>) -> bool {
    &&& counts.len() == (if c.days_to_commit == 0 {
        0int
    } else {
        c.days_to_commit as int - 1
    })
    &&& (forall|d: int| 0 <= d < counts.len() ==> 0 <= #[trigger] counts[d] <= 13)
    &&& s == seq![c.start_datetime] + spec_day_blocks(c, 1, counts)
}

proof fn lemma_day_blocks_push(c: Committer, from: int, counts: Seq<int>, n: int)
    ensures
        spec_day_blocks(c, from, counts.push(n)) == spec_day_blocks(c, from, counts)
            + spec_day_block(c, c.start_datetime.day + from + counts.len(), n),
    decreases counts.len(),
{
    let pushed = counts.push(n);
    if counts.len() == 0 {
        assert(pushed[0] == n);
        assert(pushed.skip(1) =~= Seq::<int>::empty());
        assert(spec_day_blocks(c, from + 1, pushed.skip(1)) =~= Seq::<LocalDateTime>::empty());
        assert(spec_day_blocks(c, from, pushed) == spec_day_block(
            c,
            c.start_datetime.day + from,
            n,
        ) + spec_day_blocks(c, from + 1, pushed.skip(1)));
        assert(spec_day_blocks(c, from, counts) =~= Seq::<LocalDateTime>::empty());
        assert(spec_day_blocks(c, from, pushed) =~= spec_day_blocks(c, from, counts)
            + spec_day_block(c, c.start_datetime.day + from + counts.len(), n));
    } else {
        assert(pushed[0] == counts[0]);
        assert(pushed.skip(1) =~= counts.skip(1).push(n));
        lemma_day_blocks_push(c, from + 1, counts.skip(1), n);
        let head = spec_day_block(c, c.start_datetime.day + from, counts[0]);
        let last = spec_day_block(c, c.start_datetime.day + from + counts.len(), n);
        assert(counts.skip(1).len() == counts.len() - 1);
        assert(spec_day_blocks(c, from + 1, pushed.skip(1)) == spec_day_blocks(
            c,
            from + 1,
            counts.skip(1),
        ) + last);
        assert(spec_day_blocks(c, from, pushed) == head + spec_day_blocks(
            c,
            from + 1,
            pushed.skip(1),
        ));
        assert(spec_day_blocks(c, from, counts) == head + spec_day_blocks(
            c,
            from + 1,
            counts.skip(1),
        ));
        assert(spec_day_blocks(c, from, pushed) =~= spec_day_blocks(c, from, counts) + last);
    }
}

/// What a run's schedule promises: it opens with the anchored start,
/// every timestamp lies in the work window of a representable day of
/// the run, the whole sequence is non-decreasing in time, and no
/// timestamp past the initial one falls on a skipped date.
pub open spec fn valid_schedule(c: Committer, s: Seq<LocalDateTime>) -> bool {
    &&& s.len() >= 1
    &&& s[0] == c.start_datetime
    &&& (forall|i: int| 0 <= i < s.len() ==> (#[trigger] s[i]).wf())
    &&& (forall|i: int| 0 <= i < s.len() ==> c.start_hour <= (#[trigger] s[i]).sec <= c.end_hour)
    &&& (forall|i: int|
        1 <= i < s.len() ==> !spec_should_skip((#[trigger] s[i]).day as int))
    &&& (forall|i: int|
        1 <= i < s.len() ==> c.start_datetime.day < (#[trigger] s[i]).day
            < c.start_datetime.day + c.days_to_commit)
    &&& (forall|i: int, j: int|
        0 <= i <= j < s.len() ==> (#[trigger] s[i]).to_secs() <= (#[trigger] s[j]).to_secs())
}

/// The view a ghost record keeps of an optional commit identifier.
pub open spec fn opt_id_view(o: Option<String>) -> Option<Seq<char>> {
    match o {
        Option::Some(s) => Option::Some(s@),
        Option::None => Option::None,
    }
}

/// What the run asks the repository engine to materialize: one commit,
/// always over the same fixed tree, author and message, chained to the
/// previous commit through `parent` (absent only for the very first
/// commit of the run).
pub struct CommitRequest {
    pub tree: String,
    pub author: String,
    pub message: String,
    pub parent: Option<String>,
    pub timestamp: LocalDateTime,
    pub utc_offset: i32,
}

/// One run of the scheduler: the full ordered schedule of commits and
/// the fold state threaded across the engine calls — how many commits
/// were written and the identifier of the last one, the parent of the
/// next.  The ghost `writes` records, per write, the parent handed out
/// and the identifier received back.
pub struct Run {
    pub tree: String,
    pub author: String,
    pub message: String,
    pub utc_offset: i32,
    pub schedule: Vec<LocalDateTime>,
    pub next: usize,
    pub parent: Option<String>,
    pub writes: Ghost<Seq<(Option<Seq<char>>, Seq<char>)>>,
}

impl Run {
    /// The fold invariant: one ghost record per written commit, the
    /// current parent is the identifier of the last write, the first
    /// write had no parent, and every later write's parent was exactly
    /// the identifier returned for the write before it.
    pub open spec fn wf(self) -> bool {
        &&& self.next <= self.schedule@.len()
        &&& self.writes@.len() == self.next
        &&& (self.parent is None <==> self.next == 0)
        &&& (self.next > 0 ==> opt_id_view(self.parent)
            == Option::Some(self.writes@[self.next as int - 1].1))
        &&& (self.writes@.len() > 0 ==> self.writes@[0].0 is None)
        &&& (forall|k: int|
            1 <= k < self.writes@.len() ==> (#[trigger] self.writes@[k]).0
                == Option::Some(self.writes@[k - 1].1))
    }

    /// Begins a run over a fixed schedule: nothing written yet, so the
    /// next request is the rootmost commit and carries no parent.
    pub fn from_schedule(
        tree: String,
        author: String,
        message: String,
        utc_offset: i32,
        schedule: Vec<LocalDateTime>,
    ) -> (r: Run)
        ensures
            r.wf(),
            r.tree == tree,
            r.author == author,
            r.message == message,
            r.utc_offset == utc_offset,
            r.schedule == schedule,
            r.next == 0,
            r.parent is None,
    {
        Run {
            tree,
            author,
            message,
            utc_offset,
            schedule,
            next: 0,
            parent: None,
            writes: Ghost(Seq::empty()),
        }
    }

    /// The next engine call the run asks for: a commit request with the
    /// next scheduled timestamp, whose parent is the identifier the
    /// engine returned for the previous request; nothing once every
    /// scheduled commit has been written.
    pub fn next_request(&self) -> (r: Option<CommitRequest>)
        requires
            self.wf(),
        ensures
            self.next < self.schedule@.len() ==> (r matches Some(req)
                && req.tree == self.tree
                && req.author == self.author
                && req.message == self.message
                && req.utc_offset == self.utc_offset
                && req.timestamp == self.schedule@[self.next as int]
                && opt_id_view(req.parent) == opt_id_view(self.parent)),
            self.next >= self.schedule@.len() ==> r is None,
    {
        if self.next < self.schedule.len() {
            let parent = match &self.parent {
                Some(p) => Some(p.clone()),
                None => None,
            };
            Some(CommitRequest {
                tree: self.tree.clone(),
                author: self.author.clone(),
                message: self.message.clone(),
                parent,
                timestamp: self.schedule[self.next],
                utc_offset: self.utc_offset,
            })
        } else {
            None
        }
    }

    /// Records the engine's answer to the pending request: the returned
    /// identifier becomes the parent of the next request.
    pub fn commit_written(&mut self, id: String)
        requires
            old(self).wf(),
            old(self).next < old(self).schedule@.len(),
        ensures
            final(self).wf(),
            final(self).next == old(self).next + 1,
            final(self).parent == Option::Some(id),
            final(self).schedule == old(self).schedule,
            final(self).tree == old(self).tree,
            final(self).author == old(self).author,
            final(self).message == old(self).message,
            final(self).utc_offset == old(self).utc_offset,
            final(self).writes@ == old(self).writes@.push(
                (opt_id_view(old(self).parent), id@),
            ),
    {
        let ghost rec = (opt_id_view(self.parent), id@);
        self.writes = Ghost(self.writes@.push(rec));
        self.parent = Some(id);
        let len = self.schedule.len();
        assert(self.next < len);
        self.next = self.next + 1;
    }

    /// The identifier the branch head is reset to once the run is done:
    /// the last commit written; nothing while no commit exists yet.
    pub fn head(&self) -> (r: Option<String>)
        requires
            self.wf(),
        ensures
            opt_id_view(r) == opt_id_view(self.parent),
            self.next > 0 ==> (r matches Some(id)
                && id@ == self.writes@[self.next as int - 1].1),
    {
        match &self.parent {
            Some(p) => Some(p.clone()),
            None => None,
        }
    }

    /// True once every scheduled commit has been written.
    pub fn finished(&self) -> (r: bool)
        ensures
            r == (self.next == self.schedule@.len()),
    {
        self.next == self.schedule.len()
    }
}

/// Law: the writes of a run form one linear chain — the first write
/// carries no parent, and every later write's parent is exactly the
/// identifier the engine returned for the write immediately before it.
pub proof fn lemma_linear_chain(r: Run)
    requires
        r.wf(),
    ensures
        r.writes@.len() > 0 ==> r.writes@[0].0 is None,
        forall|k: int|
            1 <= k < r.writes@.len() ==> (#[trigger] r.writes@[k]).0
                == Option::Some(r.writes@[k - 1].1),
{
}

/// Law: timestamps never decrease across a run's whole schedule, and
/// every one of them lies inside the daily work window.
pub proof fn lemma_schedule_ordered_in_window(c: Committer, s: Seq<LocalDateTime>)
    requires
        valid_schedule(c, s),
    ensures
        forall|i: int, j: int|
            0 <= i <= j < s.len() ==> (#[trigger] s[i]).to_secs() <= (#[trigger] s[j]).to_secs(),
        forall|i: int| 0 <= i < s.len() ==> c.start_hour <= (#[trigger] s[i]).sec <= c.end_hour,
{
}

/// Law: when the anchored start does not itself fall on a skipped date,
/// no commit of the run lands on a skipped date.  (The initial commit
/// is written without consulting the date policy, so a start anchored
/// on a weekend is the one date the policy does not keep clear.)
pub proof fn lemma_no_commits_on_skipped_dates(c: Committer, s: Seq<LocalDateTime>)
    requires
        valid_schedule(c, s),
        !spec_should_skip(c.start_datetime.day as int),
    ensures
        forall|i: int| 0 <= i < s.len() ==> !spec_should_skip((#[trigger] s[i]).day as int),
{
    assert forall|i: int| 0 <= i < s.len() implies !spec_should_skip(
        (#[trigger] s[i]).day as int,
    ) by {
        if i == 0 {
            assert(s[0] == c.start_datetime);
        }
    }
}

/// Relies on chrono: `Local::now` for the current local time, read out
/// through `num_days_from_ce`, `num_seconds_from_midnight` and
/// `local_minus_utc`.  `Local::now` refuses (by panic) a system clock
/// set before the Unix epoch, so the date read back is at earliest
/// 1969-12-31, well past day 1; chrono's representable years keep the
/// day number far below `MAX_DAY`; a second of day is documented as
/// 0 to 86399; and a fixed offset is built only through bounds checks
/// that keep it under a day in magnitude.
#[verifier::external_body]
fn local_now() -> (r: (LocalDateTime, i32))
    ensures
        r.0.wf(),
        1 <= r.0.day,
        -86400 < r.1 < 86400,
{
    let now = chrono::Local::now();
    let naive = now.naive_local();
    let day = naive.date().num_days_from_ce() as i64;
    let sec = naive.time().num_seconds_from_midnight();
    let utc_offset = now.offset().local_minus_utc();
    (LocalDateTime { day, sec }, utc_offset)
}

/// Relies on rand: `WeightedIndex::new` accepts a non-empty list of
/// positive weights whose total fits the weight type, and `sample`
/// returns an index into that list, each index drawn with probability
/// proportional to its weight.
#[verifier::external_body]
fn sample_weighted(weights: &Vec<u32>) -> (r: usize)
    requires
        1 <= weights@.len() <= 1000,
        forall|i: int| 0 <= i < weights@.len() ==> 1 <= #[trigger] weights@[i] <= 1000,
    ensures
        r < weights@.len(),
{
    let dist = rand::distributions::WeightedIndex::new(weights).unwrap();
    let mut rng = rand::thread_rng();
    dist.sample(&mut rng)
}

} // verus!
