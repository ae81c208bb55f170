use vstd::prelude::*;

use crate::converting::{line_progress, percent_of, ConvertingModel};
use crate::decimal::{all_digits, decimal, digits_value, is_digit, lemma_decimal_value, padded2, parse_u64};
use crate::format_number::{duration_text, f64_value, pow1024, unit_index_from};
use crate::job::{ends_process, job_step, JobEvent, JobPhase};
use crate::probe::ffprobe_bit_rate;
use crate::progress_view::{refresh, shown_value};
use crate::slug::{char_window, progress_key_of};
use crate::encoder::{convert_args, encoder_args};
use crate::media::{ascii_lower, is_audioable};
use crate::text::{is_whitespace, trim, trim_end, trim_start};
use crate::youtube::{is_playlist_address, playlist_videos_pointer, video_item_pointer, video_pointer};

verus! {

/// After all jobs are killed, no conversion is running.
pub proof fn law_kill_all_finishes<H>(m: ConvertingModel<H>)
    ensures
        m.kill_all().is_finished(),
{
    assert(m.kill_all().running.dom() =~= Set::<Seq<char>>::empty());
}

/// Once a file is added, not all conversions are finished.
pub proof fn law_added_file_not_finished<H>(m: ConvertingModel<H>, stem: Seq<char>, handle: H)
    ensures
        !m.add(progress_key_of(stem), handle).is_finished(),
{
    assert(m.add(progress_key_of(stem), handle).running.dom().contains(progress_key_of(stem)));
}

/// A conversion starts `ffmpeg` only in a step that found a free slot, and
/// that step counts one more process; no other step counts one more.
pub proof fn law_spawn_only_in_free_slot<H>(
    phase: JobPhase,
    last: i32,
    m: ConvertingModel<H>,
    key: Seq<char>,
    duration_ms: nat,
    event: JobEvent,
)
    requires
        ends_process(event) ==> m.current > 0,
    ensures
        ({
            let (_, _, n, outcome) = job_step(phase, last, m, key, duration_ms, event);
            &&& outcome is Spawn ==> m.has_free_instance() && n == m.start()
            &&& n.current > m.current ==> outcome is Spawn
        }),
{
}

/// No step forgets a file's progress: every key with a progress keeps one.
pub proof fn law_progress_keys_persist<H>(
    m: ConvertingModel<H>,
    phase: JobPhase,
    last: i32,
    key: Seq<char>,
    duration_ms: nat,
    event: JobEvent,
    k: Seq<char>,
)
    requires
        m.progress.contains_key(k),
    ensures
        job_step(phase, last, m, key, duration_ms, event).2.progress.contains_key(k),
        m.kill_all().progress.contains_key(k),
        forall|max: nat| #[trigger] m.set_max(max).progress.contains_key(k),
        forall|stem: Seq<char>, h: H| #[trigger] m.add(progress_key_of(stem), h).progress.contains_key(k),
{
}

/// Progress is recorded only by the steps of a conversion, and only under
/// that conversion's own key; adding a file, killing all jobs or setting
/// the limit records none, and no step adds a running job.
pub proof fn law_progress_only_from_own_job<H>(
    m: ConvertingModel<H>,
    phase: JobPhase,
    last: i32,
    key: Seq<char>,
    duration_ms: nat,
    event: JobEvent,
    k: Seq<char>,
)
    ensures
        job_step(phase, last, m, key, duration_ms, event).2.progress.contains_key(k) ==> m.progress.contains_key(k)
            || k == key,
        job_step(phase, last, m, key, duration_ms, event).2.running.contains_key(k) ==> m.running.contains_key(k),
        m.kill_all().progress == m.progress,
        forall|max: nat| #[trigger] m.set_max(max).progress == m.progress,
        forall|stem: Seq<char>, h: H| #[trigger] m.add(progress_key_of(stem), h).progress == m.progress,
{
}

/// Every file with a progress, and every running job, is one that was
/// added: a new registry has added none, only adding a file adds its key,
/// and no other operation or step changes the added keys.
pub proof fn law_progress_keys_were_added<H>(
    m: ConvertingModel<H>,
    phase: JobPhase,
    last: i32,
    key: Seq<char>,
    duration_ms: nat,
    event: JobEvent,
    k: Seq<char>,
)
    requires
        m.valid(),
    ensures
        m.progress.contains_key(k) ==> m.added.contains(k),
        m.running.contains_key(k) ==> m.added.contains(k),
        ConvertingModel::<H>::initial().added == Set::<Seq<char>>::empty(),
        ConvertingModel::<H>::initial().progress == Map::<Seq<char>, i32>::empty(),
        forall|stem: Seq<char>, h: H| #[trigger] m.add(progress_key_of(stem), h).added == m.added.insert(
            progress_key_of(stem),
        ),
        job_step(phase, last, m, key, duration_ms, event).2.added == m.added,
        m.kill_all().added == m.added,
        forall|max: nat| #[trigger] m.set_max(max).added == m.added,
{
}

/// Once the most processes at once is set to `max`, a process may start
/// exactly when fewer than `max` run.
pub proof fn law_max_instances_governs_start<H>(m: ConvertingModel<H>, max: nat)
    ensures
        m.set_max(max).has_free_instance() == (m.current < max),
{
}

/// A process that starts and then ends, however it ends, leaves the
/// number of running processes as it was.
pub proof fn law_start_then_end_restores_count<H>(m: ConvertingModel<H>, key: Seq<char>, success: bool)
    ensures
        m.start().complete(key, success).current == m.current,
        m.start().abort(key).current == m.current,
{
}

/// A job that was added runs, with its handle, until its conversion
/// completes or all jobs are killed.
pub proof fn law_added_job_runs<H>(m: ConvertingModel<H>, key: Seq<char>, handle: H, success: bool)
    ensures
        m.add(key, handle).running.contains_key(key),
        m.add(key, handle).running[key] == handle,
        !m.add(key, handle).complete(key, success).running.contains_key(key),
        !m.add(key, handle).kill_all().running.contains_key(key),
{
}

/// A job that completes successfully shows `100`; one that is stopped
/// shows `-1`; a recorded percentage is what is read back.
pub proof fn law_progress_read_back<H>(m: ConvertingModel<H>, key: Seq<char>, percent: i32)
    ensures
        m.complete(key, true).progress[key] == 100,
        m.abort(key).progress[key] == -1,
        m.record(key, percent).progress[key] == percent,
{
}

/// Every step keeps every progress value a percentage or `-1`.
pub proof fn law_progress_stays_in_range<H>(m: ConvertingModel<H>)
    requires
        m.progress_in_range(),
    ensures
        forall|key: Seq<char>, p: i32| 0 <= p <= 100 ==> #[trigger] m.record(key, p).progress_in_range(),
        forall|key: Seq<char>| #[trigger] m.abort(key).progress_in_range(),
        forall|key: Seq<char>, s: bool| #[trigger] m.complete(key, s).progress_in_range(),
        forall|key: Seq<char>, h: H| #[trigger] m.add(key, h).progress_in_range(),
        forall|max: nat| #[trigger] m.set_max(max).progress_in_range(),
        m.kill_all().progress_in_range(),
        m.start().progress_in_range(),
{
    assert forall|key: Seq<char>, p: i32| 0 <= p <= 100 implies #[trigger] m.record(key, p).progress_in_range() by {
        lemma_insert_in_range(m.progress, key, p);
    }
    assert forall|key: Seq<char>| #[trigger] m.abort(key).progress_in_range() by {
        lemma_insert_in_range(m.progress, key, -1i32);
    }
    assert forall|key: Seq<char>, s: bool| #[trigger] m.complete(key, s).progress_in_range() by {
        lemma_insert_in_range(m.progress, key, 100i32);
    }
}

proof fn lemma_insert_in_range(p: Map<Seq<char>, i32>, key: Seq<char>, v: i32)
    requires
        forall|k: Seq<char>| #[trigger] p.contains_key(k) ==> -1 <= p[k] <= 100,
        -1 <= v <= 100,
    ensures
        forall|k: Seq<char>| #[trigger] p.insert(key, v).contains_key(k) ==> -1 <= p.insert(key, v)[k] <= 100,
{
    assert forall|k: Seq<char>| #[trigger] p.insert(key, v).contains_key(k) implies -1 <= p.insert(key, v)[k]
        <= 100 by {
        if k != key {
            assert(p.contains_key(k));
        }
    }
}

proof fn lemma_trim_start_prefix(w: Seq<char>, d: Seq<char>)
    requires
        forall|i: int| 0 <= i < w.len() ==> is_whitespace(#[trigger] w[i]),
        d.len() > 0,
        !is_whitespace(d[0]),
    ensures
        trim_start(w + d) == d,
    decreases w.len(),
{
    if w.len() > 0 {
        assert((w + d).drop_first() =~= w.drop_first() + d);
        assert forall|i: int| 0 <= i < w.drop_first().len() implies is_whitespace(#[trigger] w.drop_first()[i]) by {
            assert(w.drop_first()[i] == w[i + 1]);
        }
        lemma_trim_start_prefix(w.drop_first(), d);
    } else {
        assert(w + d =~= d);
    }
}

proof fn lemma_trim_end_suffix(d: Seq<char>, w: Seq<char>)
    requires
        forall|i: int| 0 <= i < w.len() ==> is_whitespace(#[trigger] w[i]),
        d.len() > 0,
        !is_whitespace(d.last()),
    ensures
        trim_end(d + w) == d,
    decreases w.len(),
{
    if w.len() > 0 {
        assert((d + w).drop_last() =~= d + w.drop_last());
        assert((d + w).last() == w.last());
        assert forall|i: int| 0 <= i < w.drop_last().len() implies is_whitespace(#[trigger] w.drop_last()[i]) by {
            assert(w.drop_last()[i] == w[i]);
        }
        lemma_trim_end_suffix(d, w.drop_last());
    } else {
        assert(d + w =~= d);
    }
}

proof fn lemma_parse_decimal(n: u64)
    ensures
        parse_u64(decimal(n as nat)) == Some(n),
{
    lemma_decimal_value(n as nat);
    let d = decimal(n as nat);
    assert(is_digit(d[0]));
}

/// `ffprobe` output holding the bit rate `n` (bit/s) in decimal, with any
/// white space around it, reads as `n / 1000` kbit/s (cut to 32 bits).
pub proof fn law_ffprobe_reads_decimal(before: Seq<char>, n: u64, after: Seq<char>)
    requires
        forall|i: int| 0 <= i < before.len() ==> is_whitespace(#[trigger] before[i]),
        forall|i: int| 0 <= i < after.len() ==> is_whitespace(#[trigger] after[i]),
    ensures
        ffprobe_bit_rate(before + decimal(n as nat) + after) == Some(((n / 1000) % 0x1_0000_0000) as u32),
{
    let d = decimal(n as nat);
    lemma_decimal_value(n as nat);
    assert(is_digit(d[0]));
    assert(is_digit(d.last()));
    lemma_trim_start_prefix(before, d + after);
    assert(before + decimal(n as nat) + after =~= before + (d + after));
    lemma_trim_end_suffix(d, after);
    assert(trim(before + decimal(n as nat) + after) == d);
    lemma_parse_decimal(n);
}

/// The progress line `out_time_ms=<t>` with `t` in decimal reports the
/// percentage of `t` microseconds within the duration, which is at most 100.
pub proof fn law_progress_line_reads_decimal(t: u64, duration_ms: nat)
    ensures
        line_progress("out_time_ms="@ + decimal(t as nat), duration_ms) == Some(
            percent_of(t as nat, duration_ms) as i32,
        ),
        percent_of(t as nat, duration_ms) <= 100,
{
    let prefix = "out_time_ms="@;
    let line = prefix + decimal(t as nat);
    assert(line.take(prefix.len() as int) =~= prefix);
    assert(line.skip(prefix.len() as int) =~= decimal(t as nat));
    lemma_parse_decimal(t);
}

proof fn lemma_unit_index(r: nat, s: nat)
    requires
        s <= 9,
    ensures
        s <= unit_index_from(r, s) <= 9,
        unit_index_from(r, s) < 9 ==> r < pow1024(unit_index_from(r, s) + 1),
        forall|j: nat| s <= j < unit_index_from(r, s) ==> r >= #[trigger] pow1024(j + 1),
    decreases 9 - s,
{
    if s < 9 && r >= pow1024(s + 1) {
        lemma_unit_index(r, s + 1);
    }
}

proof fn lemma_pow1024_7()
    ensures
        pow1024(7) == 1180591620717411303424,
{
    reveal_with_fuel(pow1024, 8);
}

/// A size is shown in the largest unit in which it is at least 1 (bytes
/// when it is less than 1024), and a `u64` never needs a unit beyond `EB`.
pub proof fn law_file_size_unit(n: u64)
    ensures
        ({
            let r = f64_value(n as nat);
            let k = unit_index_from(r, 0);
            &&& k <= 6
            &&& r < pow1024(k + 1)
            &&& k > 0 ==> r >= pow1024(k)
        }),
{
    let r = f64_value(n as nat);
    lemma_unit_index(r, 0);
    let k = unit_index_from(r, 0);
    crate::format_number::lemma_f64_value_le(n);
    lemma_pow1024_7();
    if k > 6 {
        let j: nat = 6;
        assert(r >= pow1024(j + 1));
    }
    if k > 0 {
        assert(r >= pow1024(((k - 1) + 1) as nat));
    }
}

/// Cutting a progress key to 50 characters again leaves it as it is.
pub proof fn law_progress_key_is_cut(stem: Seq<char>)
    ensures
        char_window(progress_key_of(stem), 0, 50) == progress_key_of(stem),
        progress_key_of(stem).len() <= 50,
{
    let k = progress_key_of(stem);
    assert(char_window(k, 0, 50) =~= k);
}

/// Refreshing the display never moves a file's shown progress back.
pub proof fn law_refresh_never_lowers(
    shown: Map<Seq<char>, i32>,
    reported: Seq<(Seq<char>, i32)>,
    finished: bool,
    key: Seq<char>,
)
    ensures
        shown_value(refresh(shown, reported, finished).0, key) >= shown_value(shown, key),
    decreases reported.len(),
{
    if reported.len() > 0 {
        law_refresh_never_lowers(shown, reported.drop_last(), finished, key);
    }
}

/// Once all conversions have finished, a refresh shows every reported file
/// at `100` or more.
pub proof fn law_refresh_when_finished_completes(
    shown: Map<Seq<char>, i32>,
    reported: Seq<(Seq<char>, i32)>,
    i: int,
)
    requires
        0 <= i < reported.len(),
    ensures
        shown_value(refresh(shown, reported, true).0, reported[i].0) >= 100,
    decreases reported.len(),
{
    let last = reported.len() - 1;
    if i < last {
        law_refresh_when_finished_completes(shown, reported.drop_last(), i);
        assert(reported.drop_last()[i] == reported[i]);
        let m = refresh(shown, reported.drop_last(), true).0;
        let key = reported.last().0;
        if 100 > shown_value(m, key) {
            assert(shown_value(m.insert(key, 100), reported[i].0) >= 100);
        }
    }
}

proof fn lemma_padded2_len(n: nat)
    requires
        n < 100,
    ensures
        padded2(n).len() == 2,
{
    if n >= 10 {
        assert(decimal(n / 10).len() == 1);
    }
}

/// A duration shorter than an hour is shown as `MM:SS`; one of an hour up
/// to a hundred hours as `HH:MM:SS`.
pub proof fn law_duration_shape(ms: nat)
    ensures
        ms < 3_600_000 ==> duration_text(ms).len() == 5 && duration_text(ms)[2] == ':',
        3_600_000 <= ms < 360_000_000 ==> duration_text(ms).len() == 8 && duration_text(ms)[2] == ':'
            && duration_text(ms)[5] == ':',
{
    let total = ms / 1000;
    let hours = total / 3600;
    let minutes = (total % 3600) / 60;
    let seconds = total % 60;
    lemma_padded2_len(minutes);
    lemma_padded2_len(seconds);
    if 3_600_000 <= ms < 360_000_000 {
        lemma_padded2_len(hours);
    }
}

proof fn lemma_padded2_digits(n: nat)
    ensures
        padded2(n).len() >= 2,
        all_digits(padded2(n)),
        digits_value(padded2(n)) == n,
{
    lemma_decimal_value(n);
    if n < 10 {
        let p = padded2(n);
        assert(p.drop_last() =~= seq!['0']);
        assert(seq!['0'].drop_last() =~= Seq::<char>::empty());
        assert(digits_value(Seq::<char>::empty()) == 0);
        assert(digits_value(seq!['0']) == 0);
        assert(is_digit(p[0]) && is_digit(p[1]));
    } else {
        let d = decimal(n / 10);
        lemma_decimal_value(n / 10);
        assert(decimal(n).len() == d.len() + 1);
    }
}

/// The duration text reads back: it is two or three fields of at least two
/// digits joined by `:`, three exactly when the duration is an hour or
/// more; the fields are hours (when there), minutes and seconds, minutes
/// and seconds below 60, and together they give the duration in whole
/// seconds.
pub proof fn law_duration_reads_back(ms: nat)
    ensures
        ({
            let total = ms / 1000;
            let h = total / 3600;
            let m = (total % 3600) / 60;
            let s = total % 60;
            &&& m < 60 && s < 60
            &&& h * 3_600_000 + m * 60_000 + s * 1000 == ms - ms % 1000
            &&& (h > 0 <==> ms >= 3_600_000)
            &&& duration_text(ms) == if h > 0 {
                padded2(h) + seq![':'] + padded2(m) + seq![':'] + padded2(s)
            } else {
                padded2(m) + seq![':'] + padded2(s)
            }
            &&& all_digits(padded2(h)) && digits_value(padded2(h)) == h && padded2(h).len() >= 2
            &&& all_digits(padded2(m)) && digits_value(padded2(m)) == m && padded2(m).len() >= 2
            &&& all_digits(padded2(s)) && digits_value(padded2(s)) == s && padded2(s).len() >= 2
        }),
{
    let total = ms / 1000;
    let h = total / 3600;
    let m = (total % 3600) / 60;
    let s = total % 60;
    lemma_padded2_digits(h);
    lemma_padded2_digits(m);
    lemma_padded2_digits(s);
    assert(total == h * 3600 + m * 60 + s);
    assert(ms - ms % 1000 == total * 1000);
}

/// An address is taken for a playlist exactly when the text `list` occurs
/// somewhere in it (an address with `playlist` has `list` in it too).
pub proof fn law_playlist_address_has_list(url: Seq<char>)
    ensures
        is_playlist_address(url) <==> exists|i: int|
            0 <= i && i + 4 <= url.len() && #[trigger] url.subrange(i, i + 4) == "list"@,
{
    reveal_strlit("list");
    reveal_strlit("playlist");
    if exists|i: int| 0 <= i && i + 4 <= url.len() && #[trigger] url.subrange(i, i + 4) == "list"@ {
        let i = choose|i: int| 0 <= i && i + 4 <= url.len() && #[trigger] url.subrange(i, i + 4) == "list"@;
        assert(crate::text::occurs_at(url, "list"@, i));
    }
    if crate::text::contains(url, "playlist"@) {
        let i = choose|i: int| crate::text::occurs_at(url, "playlist"@, i);
        assert("playlist"@.len() == 8);
        assert(url.subrange(i, i + 8) == "playlist"@);
        assert("playlist"@.subrange(4, 8) =~= "list"@);
        assert(url.subrange(i + 4, i + 8) =~= url.subrange(i, i + 8).subrange(4, 8));
        assert(url.subrange(i + 4, (i + 4) + 4) == "list"@);
    }
    if crate::text::contains(url, "list"@) {
        let i = choose|i: int| crate::text::occurs_at(url, "list"@, i);
        assert("list"@.len() == 4);
        assert(url.subrange(i, i + 4) == "list"@);
    }
}

/// For every output type that takes a bit rate (all but `flac` and `wav`),
/// the encoder arguments go on with `-b:a` and the bit rate written in
/// decimal digits that denote it, followed by `k`; in the full command
/// line they stand after the input, the channel count and the encoder.
pub proof fn law_bit_rate_argument(output_type: Seq<char>, bit_rate: nat, input: Seq<char>, output: Seq<char>)
    requires
        output_type != "flac"@,
        output_type != "wav"@,
    ensures
        encoder_args(output_type, bit_rate).len() >= 4,
        encoder_args(output_type, bit_rate)[2] == "-b:a"@,
        exists|d: Seq<char>|
            #[trigger] encoder_args(output_type, bit_rate)[3] == d.push('k') && d.len() > 0 && all_digits(d)
                && digits_value(d) == bit_rate,
        convert_args(input, output_type, bit_rate, output)[6] == "-b:a"@,
        convert_args(input, output_type, bit_rate, output)[7] == encoder_args(output_type, bit_rate)[3],
{
    lemma_decimal_value(bit_rate);
    let e = encoder_args(output_type, bit_rate);
    assert(e[3] == decimal(bit_rate).push('k'));
    let c = convert_args(input, output_type, bit_rate, output);
    assert(c[6] == e[2]);
    assert(c[7] == e[3]);
}

/// A number of two or more digits is written without a leading zero.
proof fn lemma_decimal_lead(n: nat)
    ensures
        n < 10 ==> decimal(n).len() == 1,
        n >= 10 ==> decimal(n).len() >= 2 && decimal(n)[0] != '0',
    decreases n,
{
    if n >= 10 {
        lemma_decimal_lead(n / 10);
        assert(decimal(n)[0] == decimal(n / 10)[0]);
    }
}

/// The `i`-th video of a playlist page is read at the pointer of the
/// playlist's contents, a `/`, and `i` written in decimal (digits that
/// denote `i`, without a leading zero), or at its `playlistVideoRenderer`
/// member; so different videos are read from different places.
pub proof fn law_video_pointer_denotes_index(json: Seq<char>, i: nat, j: nat)
    ensures
        exists|d: Seq<char>|
            video_item_pointer(i) == playlist_videos_pointer().push('/') + d && d.len() > 0 && all_digits(d)
                && digits_value(d) == i && (d.len() == 1 || d[0] != '0'),
        i != j ==> video_item_pointer(i) != video_item_pointer(j),
        video_pointer(json, i) == video_item_pointer(i) || video_pointer(json, i) == video_item_pointer(i)
            + "/playlistVideoRenderer"@,
{
    lemma_decimal_value(i);
    lemma_decimal_value(j);
    lemma_decimal_lead(i);
    let p = playlist_videos_pointer().push('/');
    assert(video_item_pointer(i) == p + decimal(i));
    assert((p + decimal(i)).skip(p.len() as int) =~= decimal(i));
    assert((p + decimal(j)).skip(p.len() as int) =~= decimal(j));
}

/// The percentage a report moves the display to: the reported one, or
/// `100` once all conversions have finished.
pub open spec fn report_target(finished: bool, percent: i32) -> i32 {
    if finished { 100 } else { percent }
}

/// After a refresh every reported file shows at least the percentage it
/// reported (at least `100` once all conversions have finished).
pub proof fn law_refresh_reaches_every_report(
    shown: Map<Seq<char>, i32>,
    reported: Seq<(Seq<char>, i32)>,
    finished: bool,
    i: int,
)
    requires
        0 <= i < reported.len(),
    ensures
        shown_value(refresh(shown, reported, finished).0, reported[i].0) >= report_target(finished, reported[i].1),
    decreases reported.len(),
{
    let last = reported.len() - 1;
    let m = refresh(shown, reported.drop_last(), finished).0;
    let key = reported.last().0;
    let t = report_target(finished, reported.last().1);
    if i < last {
        law_refresh_reaches_every_report(shown, reported.drop_last(), finished, i);
        assert(reported.drop_last()[i] == reported[i]);
        if t > shown_value(m, key) {
            assert(shown_value(m.insert(key, t), reported[i].0) >= shown_value(m, reported[i].0));
        }
    }
}

/// When each file is reported once: a report above what the display shows
/// becomes a change to exactly that percentage and the display shows it;
/// any other report, and any file not reported, leaves the display as it
/// was; and every change is such a report.
pub proof fn law_refresh_changes_exactly_the_raised(
    shown: Map<Seq<char>, i32>,
    reported: Seq<(Seq<char>, i32)>,
    finished: bool,
)
    requires
        forall|a: int, b: int| 0 <= a < b < reported.len() ==> reported[a].0 != reported[b].0,
    ensures
        ({
            let (m, changes) = refresh(shown, reported, finished);
            &&& forall|i: int|
                0 <= i < reported.len() && report_target(finished, reported[i].1) > shown_value(shown, reported[i].0)
                    ==> shown_value(m, #[trigger] reported[i].0) == report_target(finished, reported[i].1)
                    && changes.contains((reported[i].0, report_target(finished, reported[i].1)))
            &&& forall|i: int|
                0 <= i < reported.len() && report_target(finished, reported[i].1) <= shown_value(shown, reported[i].0)
                    ==> shown_value(m, #[trigger] reported[i].0) == shown_value(shown, reported[i].0)
            &&& forall|key: Seq<char>|
                (forall|i: int| 0 <= i < reported.len() ==> reported[i].0 != key) ==> #[trigger] shown_value(m, key)
                    == shown_value(shown, key)
            &&& forall|c: (Seq<char>, i32)|
                #[trigger] changes.contains(c) ==> exists|i: int|
                    0 <= i < reported.len() && c == (reported[i].0, report_target(finished, reported[i].1))
                        && report_target(finished, reported[i].1) > shown_value(shown, reported[i].0)
        }),
    decreases reported.len(),
{
    if reported.len() > 0 {
        let prev = reported.drop_last();
        let last = reported.len() - 1;
        assert forall|a: int, b: int| 0 <= a < b < prev.len() implies prev[a].0 != prev[b].0 by {
            assert(prev[a] == reported[a] && prev[b] == reported[b]);
        }
        law_refresh_changes_exactly_the_raised(shown, prev, finished);
        let (m0, ch0) = refresh(shown, prev, finished);
        let key = reported.last().0;
        let t = report_target(finished, reported.last().1);
        assert forall|i: int| 0 <= i < prev.len() implies reported[i].0 != key by {
            assert(prev[i] == reported[i]);
        }
        assert(shown_value(m0, key) == shown_value(shown, key));
        let (m, changes) = refresh(shown, reported, finished);
        assert forall|i: int|
            0 <= i < reported.len() && report_target(finished, reported[i].1) > shown_value(shown, reported[i].0)
            implies shown_value(m, #[trigger] reported[i].0) == report_target(finished, reported[i].1)
                && changes.contains((reported[i].0, report_target(finished, reported[i].1))) by {
            if i < last {
                assert(prev[i] == reported[i]);
                assert(reported[i].0 != key);
                let w = (reported[i].0, report_target(finished, reported[i].1));
                assert(ch0.contains(w));
                if t > shown_value(m0, key) {
                    let k = choose|k: int| 0 <= k < ch0.len() && ch0[k] == w;
                    assert(ch0.push((key, t))[k] == w);
                }
            } else {
                assert(changes == ch0.push((key, t)));
                assert(changes[ch0.len() as int] == (key, t));
            }
        }
        assert forall|i: int|
            0 <= i < reported.len() && report_target(finished, reported[i].1) <= shown_value(shown, reported[i].0)
            implies shown_value(m, #[trigger] reported[i].0) == shown_value(shown, reported[i].0) by {
            if i < last {
                assert(prev[i] == reported[i]);
                assert(reported[i].0 != key);
            }
        }
        assert forall|k2: Seq<char>| (forall|i: int| 0 <= i < reported.len() ==> reported[i].0 != k2) implies
            #[trigger] shown_value(m, k2) == shown_value(shown, k2) by {
            assert forall|i: int| 0 <= i < prev.len() implies prev[i].0 != k2 by {
                assert(prev[i] == reported[i]);
            }
            assert(shown_value(m0, k2) == shown_value(shown, k2));
            assert(reported[last].0 != k2);
            assert(key != k2);
            if t > shown_value(m0, key) {
                assert(m == m0.insert(key, t));
                assert(shown_value(m0.insert(key, t), k2) == shown_value(m0, k2));
            } else {
                assert(m == m0);
            }
        }
        assert forall|c: (Seq<char>, i32)| #[trigger] changes.contains(c) implies exists|i: int|
            0 <= i < reported.len() && c == (reported[i].0, report_target(finished, reported[i].1))
                && report_target(finished, reported[i].1) > shown_value(shown, reported[i].0) by {
            let k = choose|k: int| 0 <= k < changes.len() && changes[k] == c;
            if k < ch0.len() {
                assert(ch0[k] == c);
                assert(ch0.contains(c));
                let i = choose|i: int|
                    0 <= i < prev.len() && c == (prev[i].0, report_target(finished, prev[i].1))
                        && report_target(finished, prev[i].1) > shown_value(shown, prev[i].0);
                assert(prev[i] == reported[i]);
            } else {
                assert(c == (key, t));
                assert(reported[last] == reported.last());
            }
        }
    }
}

/// The character `c` stands for the character `d` of a name written in
/// small letters and digits: it is `d`, or `d` is a small ASCII letter and
/// `c` is its capital (32 code points below it).
pub open spec fn spells_ignoring_case(c: char, d: char) -> bool {
    c == d || ('a' <= d && d <= 'z' && c as int == d as int - 32)
}

/// The text `e` is the name `n` (small letters and digits) with any of its
/// letters written as capitals.
pub open spec fn names_ignoring_case(e: Seq<char>, n: Seq<char>) -> bool {
    e.len() == n.len() && forall|i: int| 0 <= i < n.len() ==> spells_ignoring_case(#[trigger] e[i], n[i])
}

proof fn lemma_lower_is(c: char, d: char)
    requires
        ('a' <= d && d <= 'z') || ('0' <= d && d <= '9'),
    ensures
        ascii_lower(c) == d <==> spells_ignoring_case(c, d),
{
}

proof fn lemma_lowered_name(e: Seq<char>, n: Seq<char>)
    requires
        forall|i: int| 0 <= i < n.len() ==> ('a' <= #[trigger] n[i] && n[i] <= 'z') || ('0' <= n[i] && n[i] <= '9'),
    ensures
        e.map_values(|c: char| ascii_lower(c)) == n <==> names_ignoring_case(e, n),
{
    let l = e.map_values(|c: char| ascii_lower(c));
    if l == n {
        assert forall|i: int| 0 <= i < n.len() implies spells_ignoring_case(#[trigger] e[i], n[i]) by {
            assert(l[i] == ascii_lower(e[i]));
            lemma_lower_is(e[i], n[i]);
        }
    }
    if names_ignoring_case(e, n) {
        assert forall|i: int| 0 <= i < n.len() implies l[i] == n[i] by {
            lemma_lower_is(e[i], n[i]);
        }
        assert(l =~= n);
    }
}

/// A file is convertible audio exactly when its extension is `mp3`,
/// `wav`, `flac`, `aac`, `ogg` or `opus` with any letters in capitals
/// (so `WAV`, `Flac` and `AAC` are accepted, and no other extension is).
pub proof fn law_audioable_ignores_case(ext: Seq<char>)
    ensures
        is_audioable(ext) <==> (names_ignoring_case(ext, "mp3"@) || names_ignoring_case(ext, "wav"@)
            || names_ignoring_case(ext, "flac"@) || names_ignoring_case(ext, "aac"@) || names_ignoring_case(
            ext,
            "ogg"@,
        ) || names_ignoring_case(ext, "opus"@)),
{
    reveal_strlit("mp3");
    reveal_strlit("wav");
    reveal_strlit("flac");
    reveal_strlit("aac");
    reveal_strlit("ogg");
    reveal_strlit("opus");
    lemma_lowered_name(ext, "mp3"@);
    lemma_lowered_name(ext, "wav"@);
    lemma_lowered_name(ext, "flac"@);
    lemma_lowered_name(ext, "aac"@);
    lemma_lowered_name(ext, "ogg"@);
    lemma_lowered_name(ext, "opus"@);
}

} // verus!
