use kourain_media::converting::{
    add_file_to_converting_list, conversion_percent, get_converting_progress, is_all_converting_finished,
    kill_all_ffmpeg_processes, progress_of_line, set_max_ffmpeg_instances, ConvertingRegistry, ProgressTracker,
};
use kourain_media::job::{ConversionJob, JobAction, JobEvent};
use kourain_media::slug::progress_key;

fn sorted(mut v: Vec<(String, i32)>) -> Vec<(String, i32)> {
    v.sort();
    v
}

fn spawns(a: JobAction) -> bool {
    matches!(a, JobAction::Spawn)
}

fn reads(a: JobAction) -> bool {
    matches!(a, JobAction::ReadLine)
}

fn finish(a: JobAction) -> Result<(), String> {
    match a {
        JobAction::Finish(r) => r,
        _ => panic!("the job did not finish"),
    }
}

fn line(text: &str) -> JobEvent {
    JobEvent::Line { killed: false, line: Some(text.to_string()) }
}

/// Adds the file and gives its conversion.
fn added_job(r: &mut ConvertingRegistry<u32>, stem: &str) -> ConversionJob {
    add_file_to_converting_list(r, stem, 0);
    let job = ConversionJob::new(stem, 1000);
    assert!(r.was_added(job.key_text()));
    job
}

const TICK: JobEvent = JobEvent::Tick { killed: false };

#[test]
fn registry_starts_empty_with_four_instances() {
    let mut r: ConvertingRegistry<u32> = ConvertingRegistry::new();
    assert!(is_all_converting_finished(&r));
    assert!(get_converting_progress(&r).is_empty());
    for i in 0..4 {
        assert!(r.has_free_instance());
        let mut job = added_job(&mut r, &format!("song {}", i));
        assert!(spawns(job.step(&mut r, TICK)));
    }
    assert!(!r.has_free_instance());
    let mut fifth = added_job(&mut r, "song 4");
    assert!(matches!(fifth.step(&mut r, TICK), JobAction::Wait));
    assert_eq!(r.current_instances(), 4);
}

#[test]
fn registry_set_max_instances() {
    let mut r: ConvertingRegistry<u32> = ConvertingRegistry::new();
    set_max_ffmpeg_instances(&mut r, 1);
    assert!(r.has_free_instance());
    let mut first = added_job(&mut r, "first");
    assert!(spawns(first.step(&mut r, TICK)));
    assert!(!r.has_free_instance());
    let mut second = added_job(&mut r, "second");
    assert!(matches!(second.step(&mut r, TICK), JobAction::Wait));
    set_max_ffmpeg_instances(&mut r, 2);
    assert!(r.has_free_instance());
    assert!(spawns(second.step(&mut r, TICK)));
    set_max_ffmpeg_instances(&mut r, 0);
    assert!(!r.has_free_instance());
}

#[test]
fn registry_add_and_kill_all() {
    let mut r: ConvertingRegistry<u32> = ConvertingRegistry::new();
    assert_eq!(add_file_to_converting_list(&mut r, "Song One", 1), None);
    assert_eq!(add_file_to_converting_list(&mut r, "Song Two", 2), None);
    assert_eq!(add_file_to_converting_list(&mut r, "song one", 3), Some(1));
    assert!(!is_all_converting_finished(&r));
    assert_eq!(r.running_count(), 2);
    let mut jobs = kill_all_ffmpeg_processes(&mut r);
    jobs.sort();
    assert_eq!(jobs, vec![("song-one".to_string(), 3), ("song-two".to_string(), 2)]);
    assert!(is_all_converting_finished(&r));
}

#[test]
fn registry_job_lifecycle() {
    let mut r: ConvertingRegistry<u32> = ConvertingRegistry::new();
    add_file_to_converting_list(&mut r, "A", 7);
    add_file_to_converting_list(&mut r, "B", 8);
    let mut a = ConversionJob::new("A", 1000);
    let mut b = ConversionJob::new("B", 1000);
    assert!(r.was_added(a.key_text()) && r.was_added(b.key_text()));
    assert!(!r.was_added("c"));
    assert_eq!(a.key_text(), progress_key("A"));
    assert!(spawns(a.step(&mut r, TICK)));
    assert!(reads(a.step(&mut r, JobEvent::Spawned { has_output: true })));
    assert_eq!(sorted(get_converting_progress(&r)), vec![("a".to_string(), 0)]);
    assert!(reads(a.step(&mut r, line("out_time_ms=400000"))));
    assert!(spawns(b.step(&mut r, TICK)));
    assert!(reads(b.step(&mut r, JobEvent::Spawned { has_output: true })));
    assert!(reads(b.step(&mut r, line("frame=12"))));
    assert!(reads(b.step(&mut r, line("out_time_ms=100000"))));
    assert!(reads(b.step(&mut r, JobEvent::Line { killed: false, line: None })));
    assert_eq!(sorted(get_converting_progress(&r)), vec![("a".to_string(), 40), ("b".to_string(), 10)]);
    assert_eq!(finish(a.step(&mut r, JobEvent::Exited { success: true, code: Some(0) })), Ok(()));
    assert!(matches!(b.step(&mut r, JobEvent::Line { killed: true, line: None }), JobAction::KillProcess));
    assert_eq!(finish(b.step(&mut r, JobEvent::Killed)), Err("ffmpeg process killed".to_string()));
    assert_eq!(sorted(get_converting_progress(&r)), vec![("a".to_string(), 100), ("b".to_string(), -1)]);
    assert_eq!(r.running_count(), 1);
    assert_eq!(r.current_instances(), 0);
    assert!(r.has_free_instance());
    assert_eq!(kill_all_ffmpeg_processes(&mut r), vec![("b".to_string(), 8)]);
    assert!(r.running_count() == 0);
}

#[test]
fn job_failure_messages() {
    let mut r: ConvertingRegistry<u32> = ConvertingRegistry::new();
    let mut j = added_job(&mut r, "x");
    assert!(!j.accepts_event(&JobEvent::Killed));
    assert!(j.accepts_event(&TICK));
    assert_eq!(
        finish(j.step(&mut r, JobEvent::Tick { killed: true })),
        Err("ffmpeg process killed while waiting".to_string())
    );
    assert!(!j.accepts_event(&TICK));
    let mut j = added_job(&mut r, "x");
    assert!(spawns(j.step(&mut r, TICK)));
    assert_eq!(
        finish(j.step(&mut r, JobEvent::SpawnFailed { error: "no such file".to_string() })),
        Err("start ffmpeg fail: no such file".to_string())
    );
    let mut j = added_job(&mut r, "x");
    assert!(spawns(j.step(&mut r, TICK)));
    assert_eq!(finish(j.step(&mut r, JobEvent::Spawned { has_output: false })), Err("error: stdout".to_string()));
    for (code, text) in [(None, "-1"), (Some(-3), "-3"), (Some(1), "1"), (Some(255), "255")] {
        let mut j = added_job(&mut r, "x");
        assert!(spawns(j.step(&mut r, TICK)));
        assert!(reads(j.step(&mut r, JobEvent::Spawned { has_output: true })));
        assert_eq!(
            finish(j.step(&mut r, JobEvent::Exited { success: false, code })),
            Err(format!("ffmpeg fail code: {}", text))
        );
    }
    let mut j = added_job(&mut r, "x");
    assert!(spawns(j.step(&mut r, TICK)));
    assert!(reads(j.step(&mut r, JobEvent::Spawned { has_output: true })));
    assert_eq!(finish(j.step(&mut r, JobEvent::WaitFailed { error: "gone".to_string() })), Err("err: gone".to_string()));
    assert_eq!(sorted(get_converting_progress(&r)), vec![("x".to_string(), 0)]);
}

#[test]
fn progress_percent_values() {
    assert_eq!(conversion_percent(0, 1000), 0);
    assert_eq!(conversion_percent(500_000, 1000), 50);
    assert_eq!(conversion_percent(999_999, 1000), 99);
    assert_eq!(conversion_percent(5_000_000, 1000), 100);
    assert_eq!(conversion_percent(7_000, 0), 100);
    assert_eq!(conversion_percent(999, 0), 0);
    assert_eq!(conversion_percent(u64::MAX, 1), 100);
}

#[test]
fn progress_lines() {
    assert_eq!(progress_of_line("out_time_ms=1500000", 3000), Some(50));
    assert_eq!(progress_of_line("out_time_ms=N/A", 3000), None);
    assert_eq!(progress_of_line("out_time_ms=-5", 3000), None);
    assert_eq!(progress_of_line("out_time=00:00:01.50", 3000), None);
    assert_eq!(progress_of_line("progress=end", 3000), None);
}

#[test]
fn progress_tracker_reports_changes_only() {
    let mut t = ProgressTracker::new();
    assert_eq!(t.observe_line("out_time_ms=0", 1000), None);
    assert_eq!(t.observe_line("out_time_ms=100000", 1000), Some(10));
    assert_eq!(t.observe_line("out_time_ms=100999", 1000), None);
    assert_eq!(t.observe_line("frame=10", 1000), None);
    assert_eq!(t.observe_line("out_time_ms=2000000", 1000), Some(100));
}

#[test]
fn registry_start_then_end_keeps_count() {
    let mut r: ConvertingRegistry<u32> = ConvertingRegistry::new();
    let mut w = added_job(&mut r, "w");
    assert!(spawns(w.step(&mut r, TICK)));
    assert_eq!(r.current_instances(), 1);
    let mut x = added_job(&mut r, "x");
    assert!(spawns(x.step(&mut r, TICK)));
    assert!(reads(x.step(&mut r, JobEvent::Spawned { has_output: true })));
    assert_eq!(finish(x.step(&mut r, JobEvent::Exited { success: true, code: Some(0) })), Ok(()));
    assert_eq!(r.current_instances(), 1);
    let mut y = added_job(&mut r, "y");
    assert!(spawns(y.step(&mut r, TICK)));
    assert!(reads(y.step(&mut r, JobEvent::Spawned { has_output: true })));
    assert!(matches!(y.step(&mut r, JobEvent::Line { killed: true, line: None }), JobAction::KillProcess));
    assert!(finish(y.step(&mut r, JobEvent::Killed)).is_err());
    assert_eq!(r.current_instances(), 1);
    assert_eq!(sorted(get_converting_progress(&r)), vec![("x".to_string(), 100), ("y".to_string(), -1)]);
}

#[test]
fn added_file_is_not_finished() {
    let mut r: ConvertingRegistry<u32> = ConvertingRegistry::new();
    add_file_to_converting_list(&mut r, "Track", 1);
    assert!(!is_all_converting_finished(&r));
    assert!(get_converting_progress(&r).is_empty());
    let mut j = ConversionJob::new("Track", 1000);
    assert!(r.was_added(j.key_text()));
    assert!(spawns(j.step(&mut r, TICK)));
    assert!(reads(j.step(&mut r, JobEvent::Spawned { has_output: true })));
    assert!(finish(j.step(&mut r, JobEvent::Exited { success: false, code: Some(2) })).is_err());
    assert!(is_all_converting_finished(&r));
    assert_eq!(get_converting_progress(&r), vec![("track".to_string(), 0)]);
}
