use vstd::prelude::*;

use crate::assoc::{distinct_keys, entries_map, Assoc};
use crate::decimal::{parse_u64, parse_u64_chars};
use crate::slug::{progress_key, progress_key_of};
use crate::text::{chars_between, chars_of, owned, starts_with_chars};

verus! {

/// The number of conversions that may run at once until it is set otherwise.
pub const DEFAULT_MAX_FFMPEG_INSTANCES: u32 = 4;

/// `k` is the progress key of some file stem.
pub open spec fn is_progress_key(k: Seq<char>) -> bool {
    exists|stem: Seq<char>| #[trigger] progress_key_of(stem) == k
}

/// The state of the conversions: the running jobs by key, the last
/// progress reported for each key (`0`..=`100`, or `-1` for a job that was
/// stopped), the keys of every file ever added, the number of `ffmpeg`
/// processes running and the most that may run at once.
pub struct ConvertingModel<H> {
    pub running: Map<Seq<char>, H>,
    pub progress: Map<Seq<char>, i32>,
    pub added: Set<Seq<char>>,
    pub current: nat,
    pub max: nat,
}

impl<H> ConvertingModel<H> {
    /// No job, no progress, no process, at most four processes at once.
    pub open spec fn initial() -> Self {
        ConvertingModel {
            running: Map::empty(),
            progress: Map::empty(),
            added: Set::empty(),
            current: 0,
            max: DEFAULT_MAX_FFMPEG_INSTANCES as nat,
        }
    }

    /// Every progress value is a percentage, or `-1` for a stopped job.
    pub open spec fn progress_in_range(self) -> bool {
        forall|k: Seq<char>| #[trigger] self.progress.contains_key(k) ==> -1 <= self.progress[k] <= 100
    }

    /// Every key, of a running job or of a progress, is the key of a file
    /// that was added, and every added key is the progress key of a file
    /// stem.
    pub open spec fn keys_of_files(self) -> bool {
        &&& forall|k: Seq<char>| #[trigger] self.progress.contains_key(k) ==> self.added.contains(k)
        &&& forall|k: Seq<char>| #[trigger] self.running.contains_key(k) ==> self.added.contains(k)
        &&& forall|k: Seq<char>| #[trigger] self.added.contains(k) ==> is_progress_key(k)
    }

    /// What holds of every state of a registry: progress in range, keys of
    /// added files, finitely many jobs, progress values and added files,
    /// and counts that fit in a `u32`.
    pub open spec fn valid(self) -> bool {
        &&& self.progress_in_range()
        &&& self.keys_of_files()
        &&& self.running.dom().finite()
        &&& self.progress.dom().finite()
        &&& self.added.finite()
        &&& self.current <= u32::MAX
        &&& self.max <= u32::MAX
    }

    /// No job is running.
    pub open spec fn is_finished(self) -> bool {
        self.running.dom() == Set::<Seq<char>>::empty()
    }

    /// Another process may start.
    pub open spec fn has_free_instance(self) -> bool {
        self.current < self.max
    }

    /// At most `max` processes may run at once from now on.
    pub open spec fn set_max(self, max: nat) -> Self {
        ConvertingModel { max, ..self }
    }

    /// The job `handle` runs under `key`, in place of any job under that
    /// key, and `key` is among the added files.
    pub open spec fn add(self, key: Seq<char>, handle: H) -> Self {
        ConvertingModel { running: self.running.insert(key, handle), added: self.added.insert(key), ..self }
    }

    /// All jobs are taken out of the running ones.
    pub open spec fn kill_all(self) -> Self {
        ConvertingModel { running: Map::empty(), ..self }
    }

    /// One more process runs.
    pub open spec fn start(self) -> Self {
        ConvertingModel { current: self.current + 1, ..self }
    }

    /// The job under `key` reports `percent`.
    pub open spec fn record(self, key: Seq<char>, percent: i32) -> Self {
        ConvertingModel { progress: self.progress.insert(key, percent), ..self }
    }

    /// The process of the job under `key` was stopped: one process fewer,
    /// and the job's progress is `-1`.
    pub open spec fn abort(self, key: Seq<char>) -> Self {
        ConvertingModel {
            current: (self.current - 1) as nat,
            progress: self.progress.insert(key, -1i32),
            ..self
        }
    }

    /// The process of the job under `key` ended: one process fewer, the job
    /// leaves the running ones, and its progress is `100` if it succeeded.
    pub open spec fn complete(self, key: Seq<char>, success: bool) -> Self {
        ConvertingModel {
            current: (self.current - 1) as nat,
            running: self.running.remove(key),
            progress: if success { self.progress.insert(key, 100i32) } else { self.progress },
            ..self
        }
    }
}

proof fn lemma_record_keeps<H>(m: ConvertingModel<H>, key: Seq<char>, v: i32)
    requires
        m.progress_in_range(),
        m.keys_of_files(),
        -1 <= v <= 100,
        m.added.contains(key),
    ensures
        m.record(key, v).progress_in_range(),
        m.record(key, v).keys_of_files(),
{
    let n = m.record(key, v);
    assert forall|k: Seq<char>| #[trigger] n.progress.contains_key(k) implies -1 <= n.progress[k] <= 100
        && n.added.contains(k) by {
        if k != key {
            assert(m.progress.contains_key(k));
        }
    }
}

/// Every progress value is in range and under the key of an added file.
spec fn progress_ok(p: Map<Seq<char>, i32>, added: Map<Seq<char>, ()>) -> bool {
    forall|k: Seq<char>| #[trigger] p.contains_key(k) ==> -1 <= p[k] <= 100 && added.contains_key(k)
}

/// Every running job is under the key of an added file.
spec fn running_ok<H>(r: Map<Seq<char>, H>, added: Map<Seq<char>, ()>) -> bool {
    forall|k: Seq<char>| #[trigger] r.contains_key(k) ==> added.contains_key(k)
}

/// Every added key is a file's key.
spec fn added_ok(added: Map<Seq<char>, ()>) -> bool {
    forall|k: Seq<char>| #[trigger] added.contains_key(k) ==> is_progress_key(k)
}

/// The conversions of the application and their progress.
pub struct ConvertingRegistry<H> {
    running: Assoc<H>,
    progress: Assoc<i32>,
    added: Assoc<()>,
    current_instances: u32,
    max_instances: u32,
}

impl<H> ConvertingRegistry<H> {
    /// Progress values stay in range, every key is that of an added file,
    /// and every added key is a file's key.
    #[verifier::type_invariant]
    pub(crate) closed spec fn consistent(&self) -> bool {
        &&& progress_ok(self.progress.view(), self.added.view())
        &&& running_ok(self.running.view(), self.added.view())
        &&& added_ok(self.added.view())
    }

    /// The state that the registry holds.
    pub closed spec fn model(&self) -> ConvertingModel<H> {
        ConvertingModel {
            running: self.running.view(),
            progress: self.progress.view(),
            added: self.added.view().dom(),
            current: self.current_instances as nat,
            max: self.max_instances as nat,
        }
    }

    /// A consistent registry holds a valid state.
    pub(crate) proof fn lemma_valid(&self)
        requires
            self.consistent(),
        ensures
            self.model().valid(),
    {
        self.running.lemma_finite();
        self.progress.lemma_finite();
        self.added.lemma_finite();
    }

    /// A registry with no job, in the initial state.
    pub fn new() -> (r: Self)
        ensures
            r.model() == ConvertingModel::<H>::initial(),
            r.model().valid(),
    {
        let r = ConvertingRegistry {
            running: Assoc::new(),
            progress: Assoc::new(),
            added: Assoc::new(),
            current_instances: 0,
            max_instances: DEFAULT_MAX_FFMPEG_INSTANCES,
        };
        assert(r.model() =~= ConvertingModel::<H>::initial());
        proof {
            r.lemma_valid();
        }
        r
    }

    /// The number of running jobs.
    pub fn running_count(&self) -> (n: usize)
        ensures
            n == self.model().running.len(),
            self.model().valid(),
    {
        proof {
            use_type_invariant(self);
            self.lemma_valid();
        }
        self.running.len()
    }

    /// The number of running `ffmpeg` processes.
    pub fn current_instances(&self) -> (n: u32)
        ensures
            n == self.model().current,
            self.model().valid(),
    {
        proof {
            use_type_invariant(self);
            self.lemma_valid();
        }
        self.current_instances
    }

    /// Whether a file with the key `key` was added.
    pub fn was_added(&self, key: &str) -> (b: bool)
        ensures
            b == self.model().added.contains(key@),
            self.model().valid(),
    {
        proof {
            use_type_invariant(self);
            self.lemma_valid();
        }
        self.added.contains_key(key)
    }

    /// Whether another `ffmpeg` process may start.
    pub fn has_free_instance(&self) -> (b: bool)
        ensures
            b == self.model().has_free_instance(),
            self.model().valid(),
    {
        proof {
            use_type_invariant(self);
            self.lemma_valid();
        }
        self.current_instances < self.max_instances
    }

    /// Counts one more running `ffmpeg` process if a slot is free; tells
    /// whether it did.
    pub(crate) fn try_start_instance(&mut self) -> (started: bool)
        ensures
            started == old(self).model().has_free_instance(),
            final(self).model() == (if started { old(self).model().start() } else { old(self).model() }),
            final(self).model().valid(),
    {
        proof {
            use_type_invariant(&*self);
        }
        let started = if self.current_instances < self.max_instances {
            self.current_instances = self.current_instances + 1;
            true
        } else {
            false
        };
        proof {
            self.lemma_valid();
        }
        started
    }

    /// Records `percent` as the progress of the job under `key`.
    pub(crate) fn record_progress(&mut self, key: &str, percent: i32)
        requires
            0 <= percent <= 100,
            old(self).model().added.contains(key@),
        ensures
            final(self).model() == old(self).model().record(key@, percent),
            final(self).model().valid(),
    {
        proof {
            use_type_invariant(&*self);
            lemma_record_keeps(self.model(), key@, percent);
        }
        let mut progress: Assoc<i32> = Assoc::new();
        std::mem::swap(&mut progress, &mut self.progress);
        progress.insert(owned(key), percent);
        self.progress = progress;
        proof {
            assert(self.model() =~= old(self).model().record(key@, percent));
            self.lemma_valid();
        }
    }

    /// Records that the process of the job under `key` was stopped.
    pub(crate) fn abort_job(&mut self, key: &str)
        requires
            old(self).model().current > 0,
            old(self).model().added.contains(key@),
        ensures
            final(self).model() == old(self).model().abort(key@),
            final(self).model().valid(),
    {
        proof {
            use_type_invariant(&*self);
            lemma_record_keeps(self.model(), key@, -1i32);
        }
        self.current_instances = self.current_instances - 1;
        let mut progress: Assoc<i32> = Assoc::new();
        std::mem::swap(&mut progress, &mut self.progress);
        progress.insert(owned(key), -1);
        self.progress = progress;
        proof {
            assert(self.model() =~= old(self).model().abort(key@));
            self.lemma_valid();
        }
    }

    /// Records that the process of the job under `key` ended, successfully
    /// or not; gives back the job's handle, taken out of the running ones.
    pub(crate) fn complete_job(&mut self, key: &str, success: bool) -> (handle: Option<H>)
        requires
            old(self).model().current > 0,
            old(self).model().added.contains(key@),
        ensures
            final(self).model() == old(self).model().complete(key@, success),
            final(self).model().valid(),
            handle == (if old(self).model().running.contains_key(key@) {
                Some(old(self).model().running[key@])
            } else {
                None
            }),
    {
        proof {
            use_type_invariant(&*self);
            lemma_record_keeps(self.model(), key@, 100i32);
        }
        self.current_instances = self.current_instances - 1;
        let mut running: Assoc<H> = Assoc::new();
        std::mem::swap(&mut running, &mut self.running);
        let handle = running.remove(key);
        self.running = running;
        if success {
            let mut progress: Assoc<i32> = Assoc::new();
            std::mem::swap(&mut progress, &mut self.progress);
            progress.insert(owned(key), 100);
            self.progress = progress;
        }
        proof {
            assert(self.model() =~= old(self).model().complete(key@, success));
            self.lemma_valid();
        }
        handle
    }
}

/// Whether no conversion is running.
pub fn is_all_converting_finished<H>(registry: &ConvertingRegistry<H>) -> (b: bool)
    ensures
        b == registry.model().is_finished(),
        registry.model().valid(),
{
    proof {
        use_type_invariant(registry);
        registry.lemma_valid();
    }
    let n = registry.running.len();
    proof {
        vstd::set_lib::lemma_set_empty_equivalency_len(registry.model().running.dom());
    }
    n == 0
}

/// The progress of every file, by key: each key once, with its last
/// reported progress.
pub fn get_converting_progress<H>(registry: &ConvertingRegistry<H>) -> (progress: Vec<(String, i32)>)
    ensures
        distinct_keys(progress@),
        entries_map(progress@) == registry.model().progress,
        registry.model().valid(),
{
    proof {
        use_type_invariant(registry);
        registry.lemma_valid();
    }
    registry.progress.snapshot()
}

/// Takes every running job out of the registry, with its key, so that each
/// can be told to stop.
pub fn kill_all_ffmpeg_processes<H>(registry: &mut ConvertingRegistry<H>) -> (jobs: Vec<(String, H)>)
    ensures
        final(registry).model() == old(registry).model().kill_all(),
        final(registry).model().valid(),
        distinct_keys(jobs@),
        entries_map(jobs@) == old(registry).model().running,
{
    proof {
        use_type_invariant(&*registry);
    }
    let mut running: Assoc<H> = Assoc::new();
    std::mem::swap(&mut running, &mut registry.running);
    let jobs = running.drain();
    proof {
        assert(registry.model() =~= old(registry).model().kill_all());
        registry.lemma_valid();
    }
    jobs
}

/// Sets how many conversions may run at once.
pub fn set_max_ffmpeg_instances<H>(registry: &mut ConvertingRegistry<H>, max: u32)
    ensures
        final(registry).model() == old(registry).model().set_max(max as nat),
        final(registry).model().valid(),
{
    proof {
        use_type_invariant(&*registry);
    }
    registry.max_instances = max;
    proof {
        assert(registry.model() =~= old(registry).model().set_max(max as nat));
        registry.lemma_valid();
    }
}

/// Adds the conversion `handle` of the file with stem `file_stem`, under the
/// key `progress_key_of(file_stem)`; gives back the job it replaced there.
pub fn add_file_to_converting_list<H>(
    registry: &mut ConvertingRegistry<H>,
    file_stem: &str,
    handle: H,
) -> (replaced: Option<H>)
    ensures
        final(registry).model() == old(registry).model().add(progress_key_of(file_stem@), handle),
        final(registry).model().valid(),
        replaced == (if old(registry).model().running.contains_key(progress_key_of(file_stem@)) {
            Some(old(registry).model().running[progress_key_of(file_stem@)])
        } else {
            None
        }),
{
    proof {
        use_type_invariant(&*registry);
    }
    let key = progress_key(file_stem);
    let ghost old_added = registry.added.view();
    let ghost old_running = registry.running.view();
    let ghost old_progress = registry.progress.view();
    let mut progress: Assoc<i32> = Assoc::new();
    std::mem::swap(&mut progress, &mut registry.progress);
    let mut running: Assoc<H> = Assoc::new();
    std::mem::swap(&mut running, &mut registry.running);
    let mut added: Assoc<()> = Assoc::new();
    std::mem::swap(&mut added, &mut registry.added);
    added.insert(key.clone(), ());
    let replaced = running.insert(key, handle);
    proof {
        assert forall|k: Seq<char>| #[trigger] added.view().contains_key(k) implies is_progress_key(k) by {
            if k == progress_key_of(file_stem@) {
                assert(progress_key_of(file_stem@) == k);
            } else {
                assert(old_added.contains_key(k));
            }
        }
        assert forall|k: Seq<char>| #[trigger] running.view().contains_key(k) implies added.view().contains_key(k) by {
            if k != progress_key_of(file_stem@) {
                assert(old_running.contains_key(k));
            }
        }
        assert forall|k: Seq<char>| #[trigger] progress.view().contains_key(k) implies -1 <= progress.view()[k] <= 100
            && added.view().contains_key(k) by {
            assert(old_progress.contains_key(k));
        }
    }
    registry.added = added;
    registry.running = running;
    registry.progress = progress;
    proof {
        let m = registry.model();
        assert(m.added =~= old(registry).model().added.insert(progress_key_of(file_stem@)));
        assert(m =~= old(registry).model().add(progress_key_of(file_stem@), handle));
        registry.lemma_valid();
    }
    replaced
}

/// The progress in percent of a conversion of `duration_ms` milliseconds
/// that has reached `time_us` microseconds: whole milliseconds reached,
/// times 100, divided by the duration (at least 1), at most 100.
pub open spec fn percent_of(time_us: nat, duration_ms: nat) -> nat {
    let d = if duration_ms >= 1 { duration_ms } else { 1 };
    let p = (time_us / 1000) * 100 / d;
    if p < 100 { p } else { 100 }
}

/// The progress that a line of `ffmpeg -progress` output reports: for a
/// line `out_time_ms=<n>` with `n` a `u64`, the percentage of `n` within
/// the duration; nothing for any other line.
pub open spec fn line_progress(line: Seq<char>, duration_ms: nat) -> Option<i32> {
    let prefix = "out_time_ms="@;
    if prefix.len() <= line.len() && line.take(prefix.len() as int) == prefix {
        match parse_u64(line.skip(prefix.len() as int)) {
            Some(t) => Some(percent_of(t as nat, duration_ms) as i32),
            None => None,
        }
    } else {
        None
    }
}

/// The percentage of a conversion, as `percent_of` states.
pub fn conversion_percent(time_us: u64, duration_ms: u64) -> (p: i32)
    ensures
        p == percent_of(time_us as nat, duration_ms as nat),
        0 <= p <= 100,
{
    let d = if duration_ms >= 1 { duration_ms } else { 1 };
    let ms = time_us / 1000;
    assert(ms * 100 <= u64::MAX) by (nonlinear_arith)
        requires
            ms == time_us / 1000,
    {
    }
    let p = ms * 100 / d;
    if p < 100 { p as i32 } else { 100 }
}

/// The progress that a line of `ffmpeg -progress` output reports, as
/// `line_progress` states.
pub fn progress_of_line(line: &str, duration_ms: u64) -> (p: Option<i32>)
    ensures
        p == line_progress(line@, duration_ms as nat),
{
    let cs = chars_of(line);
    let prefix = chars_of("out_time_ms=");
    if starts_with_chars(cs.as_slice(), prefix.as_slice()) {
        let rest = chars_between(cs.as_slice(), prefix.len(), cs.len());
        assert(rest@ =~= line@.skip(prefix@.len() as int));
        match parse_u64_chars(rest.as_slice()) {
            Some(t) => Some(conversion_percent(t, duration_ms)),
            None => None,
        }
    } else {
        None
    }
}

/// The progress of one conversion as its `ffmpeg` output is read: the last
/// percentage reported, `0` at first.
pub struct ProgressTracker {
    last: i32,
}

impl ProgressTracker {
    /// The last percentage reported.
    pub closed spec fn last(&self) -> i32 {
        self.last
    }

    /// A conversion that has reported nothing yet.
    pub fn new() -> (t: Self)
        ensures
            t.last() == 0,
    {
        ProgressTracker { last: 0 }
    }

    /// Reads one output line; gives the percentage to report when the line
    /// reports a progress that differs from the last one reported.
    pub fn observe_line(&mut self, line: &str, duration_ms: u64) -> (report: Option<i32>)
        ensures
            match line_progress(line@, duration_ms as nat) {
                Some(p) => if p != old(self).last() {
                    report == Some(p) && final(self).last() == p
                } else {
                    report is None && final(self).last() == old(self).last()
                },
                None => report is None && final(self).last() == old(self).last(),
            },
            report matches Some(p) ==> 0 <= p <= 100,
    {
        match progress_of_line(line, duration_ms) {
            Some(p) => {
                if p != self.last {
                    self.last = p;
                    Some(p)
                } else {
                    None
                }
            },
            None => None,
        }
    }
}

} // verus!
