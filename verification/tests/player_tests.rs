use nsf_player::player_thread::{
    blank_frame, find_index, frame_steps, next_in_list, next_subframe_deadline, pace_step, prefill_step, prefill_target,
    prev_in_list, scale_and_expand, scale_sample, scripted_next, subframe_scanlines, track_ended, EndWatch, FrameStep, PaceStep,
    PlaybackProgress, PlayerAction, PlayerCore, PlayerEvent, PlayerRequest, ReceiveMode, ViewMode,
    PLAYER_CANVAS_H, PLAYER_CANVAS_W,
};
use nsf_player::playlist::PlaylistItem;

fn item(path: &str, track: u8) -> PlaylistItem {
    PlaylistItem {
        file_path: path.to_string(),
        track_index: track,
        display_name: String::from("t"),
        duration_seconds: None,
    }
}

fn list() -> Vec<PlaylistItem> {
    vec![item("a", 1), item("a", 2), item("b", 1)]
}

#[test]
fn blank_frame_is_canvas_sized_zeros() {
    let f = blank_frame();
    assert_eq!(f.len(), (PLAYER_CANVAS_W * PLAYER_CANVAS_H * 4) as usize);
    assert!(f.iter().all(|&b| b == 0));
}

#[test]
fn find_index_matches_path_and_track() {
    let l = list();
    assert_eq!(find_index(&l, &item("a", 2)), Some(1));
    assert_eq!(find_index(&l, &item("b", 2)), None);
    let mut renamed = item("b", 1);
    renamed.display_name = "other".to_string();
    assert_eq!(find_index(&l, &renamed), Some(2));
}

#[test]
fn next_and_prev_in_list() {
    let l = list();
    assert_eq!(next_in_list(&l, None).unwrap().track_index, 1);
    assert_eq!(next_in_list(&l, Some(&item("a", 1))).unwrap().track_index, 2);
    assert!(next_in_list(&l, Some(&item("b", 1))).is_none());
    assert_eq!(next_in_list(&l, Some(&item("zzz", 9))).unwrap().file_path, "a");
    assert_eq!(prev_in_list(&l, Some(&item("a", 1))).unwrap().track_index, 1);
    assert_eq!(prev_in_list(&l, Some(&item("b", 1))).unwrap().track_index, 2);
    assert!(next_in_list(&[], None).is_none());
    assert!(prev_in_list(&[], Some(&item("a", 1))).is_none());
}

#[test]
fn prev_undoes_next_on_distinct_list() {
    let l = list();
    let n = next_in_list(&l, Some(&l[0])).unwrap();
    let back = prev_in_list(&l, Some(&n)).unwrap();
    assert_eq!(back.file_path, l[0].file_path);
    assert_eq!(back.track_index, l[0].track_index);
}

#[test]
fn track_end_conditions() {
    let p = |end, frame, loops| PlaybackProgress {
        song_end_marker: end,
        last_frame: frame,
        loop_count: loops,
        note_seen: false,
        frames_since_position_moved: None,
        silent_frames: 0,
    };
    assert!(track_ended(&p(true, 0, None), None, true));
    assert!(track_ended(&p(false, 601, None), Some(600), true));
    assert!(!track_ended(&p(false, 600, None), Some(600), false));
    assert!(track_ended(&p(false, 0, Some(1)), None, false));
    assert!(!track_ended(&p(false, 0, Some(1)), None, true));
    assert!(!track_ended(&p(false, 0, Some(0)), None, false));
    assert!(!track_ended(&p(false, 10, None), None, false));
}

#[test]
fn stalled_pointer_ends_track_after_two_seconds() {
    let mut w = EndWatch::new();
    w.observe(Some(true), true);
    for _ in 0..119 {
        w.observe(Some(false), false);
    }
    assert!(!track_ended(&w.progress(false, 200, None), None, true));
    w.observe(Some(false), false);
    assert_eq!(w.still_frames, Some(120));
    assert!(track_ended(&w.progress(false, 201, None), None, true));
    w.observe(Some(true), false);
    assert!(!track_ended(&w.progress(false, 202, None), None, true));
}

#[test]
fn silence_ends_pointerless_track_after_five_seconds() {
    let mut w = EndWatch::new();
    w.observe(None, true);
    for _ in 0..299 {
        w.observe(None, false);
    }
    assert!(!track_ended(&w.progress(false, 300, None), None, false));
    w.observe(None, false);
    assert_eq!(w.silent_frames, 300);
    assert!(track_ended(&w.progress(false, 301, None), None, false));
    w.observe(None, true);
    assert!(!track_ended(&w.progress(false, 302, None), None, false));
}

#[test]
fn silent_intro_does_not_end_track() {
    let mut w = EndWatch::new();
    for _ in 0..1000 {
        w.observe(Some(false), false);
    }
    assert!(!w.note_seen);
    assert!(!track_ended(&w.progress(false, 1000, None), None, false));
    let mut v = EndWatch::new();
    for _ in 0..1000 {
        v.observe(None, false);
    }
    assert!(!track_ended(&v.progress(false, 1000, None), None, false));
}

#[test]
fn sample_scaling_rounds_toward_zero() {
    assert_eq!(scale_sample(1000, 255), 1000);
    assert_eq!(scale_sample(1000, 0), 0);
    assert_eq!(scale_sample(100, 128), 50);
    assert_eq!(scale_sample(-100, 128), -50);
    assert_eq!(scale_sample(-32768, 255), -32768);
    assert_eq!(scale_sample(-3, 100), -1);
}

#[test]
fn expand_interleaves_channels() {
    let out = scale_and_expand(&[100, -100, 7], 128, 2);
    assert_eq!(out, vec![50, 50, -50, -50, 3, 3]);
    assert!(scale_and_expand(&[1, 2], 255, 0).is_empty());
}

#[test]
fn prefill_target_is_capped_by_ring() {
    assert_eq!(prefill_target(48000, 2, 150, 19200), 14400);
    assert_eq!(prefill_target(48000, 2, 150, 10000), 9936);
    assert_eq!(prefill_target(48000, 2, 150, 10), 0);
}

#[test]
fn subframes_split_a_frame() {
    let parts: Vec<u32> = (0..4).map(|i| subframe_scanlines(262, i)).collect();
    assert_eq!(parts, vec![65, 65, 65, 67]);
    assert_eq!(parts.iter().sum::<u32>(), 262);
}

#[test]
fn pacing_decisions() {
    assert_eq!(pace_step(0), PaceStep::Done);
    assert_eq!(pace_step(1_500_000), PaceStep::Spin);
    assert_eq!(pace_step(5_000_000), PaceStep::Sleep(4_000_000));
    assert_eq!(next_subframe_deadline(1000, 1500, 100), 1100);
    assert_eq!(next_subframe_deadline(1000, 1801, 100), 1901);
}

fn emitted(actions: &[PlayerAction]) -> Vec<String> {
    actions
        .iter()
        .map(|a| match a {
            PlayerAction::LoadTrack(i) => format!("load {}:{}", i.file_path, i.track_index),
            PlayerAction::SetDisableAa(b) => format!("disable_aa {}", b),
            PlayerAction::Prefill(v) => format!("prefill {}", v),
            PlayerAction::RestartPacing => "restart".to_string(),
            PlayerAction::StopPacing => "stop".to_string(),
            PlayerAction::AudioExpected(b) => format!("expected {}", b),
            PlayerAction::Emit(e) => format!("emit {:?}", e),
        })
        .collect()
}

#[test]
fn core_plays_item_with_persisted_settings() {
    let mut c = PlayerCore::new();
    assert_eq!(c.receive_mode(), ReceiveMode::Block);
    c.handle_request(PlayerRequest::SetVolume(100));
    c.handle_request(PlayerRequest::SetAntiAliasing(true));
    let a = c.handle_request(PlayerRequest::PlayItem(item("a", 1)));
    assert_eq!(emitted(&a), vec!["load a:1"]);
    let a = c.load_succeeded();
    let e = emitted(&a);
    assert_eq!(e[0], "disable_aa false");
    assert_eq!(e[1], "prefill 100");
    assert_eq!(e[2], "restart");
    assert_eq!(e[3], "expected true");
    assert!(e[4].starts_with("emit TrackStarted"));
    assert_eq!(c.receive_mode(), ReceiveMode::Poll);
    assert_eq!(c.current.as_ref().unwrap().track_index, 1);
}

#[test]
fn core_failed_play_item_stops_playback() {
    let mut c = PlayerCore::new();
    c.handle_request(PlayerRequest::PlayItem(item("a", 1)));
    c.load_succeeded();
    c.handle_request(PlayerRequest::PlayItem(item("bad", 1)));
    let a = c.load_failed("no such file");
    assert!(c.current.is_none());
    match &a[0] {
        PlayerAction::Emit(PlayerEvent::Error(m)) => {
            assert_eq!(m, "Failed to load track: no such file")
        }
        _ => panic!("expected an error event"),
    }
    assert!(matches!(a[1], PlayerAction::StopPacing));
    assert!(matches!(a[2], PlayerAction::AudioExpected(false)));
}

#[test]
fn core_failed_next_keeps_current() {
    let mut c = PlayerCore::new();
    c.handle_request(PlayerRequest::SetPlaylist(list()));
    c.handle_request(PlayerRequest::PlayItem(item("a", 1)));
    c.load_succeeded();
    let a = c.handle_request(PlayerRequest::NextTrack);
    assert_eq!(emitted(&a), vec!["load a:2"]);
    let a = c.load_failed("corrupt");
    assert_eq!(a.len(), 1);
    assert_eq!(c.current.as_ref().unwrap().track_index, 1);
}

#[test]
fn core_previous_and_next_at_ends() {
    let mut c = PlayerCore::new();
    c.handle_request(PlayerRequest::SetPlaylist(list()));
    c.handle_request(PlayerRequest::PlayItem(item("b", 1)));
    c.load_succeeded();
    assert!(c.handle_request(PlayerRequest::NextTrack).is_empty());
    assert!(c.pending.is_none());
    let a = c.handle_request(PlayerRequest::PreviousTrack);
    assert_eq!(emitted(&a), vec!["load a:2"]);
}

#[test]
fn core_pause_resume_and_terminate() {
    let mut c = PlayerCore::new();
    c.handle_request(PlayerRequest::PlayItem(item("a", 1)));
    c.load_succeeded();
    let a = c.handle_request(PlayerRequest::Pause);
    assert_eq!(emitted(&a), vec!["expected false", "emit PlaybackPaused"]);
    assert_eq!(c.receive_mode(), ReceiveMode::Block);
    let a = c.handle_request(PlayerRequest::Resume);
    assert_eq!(emitted(&a), vec!["restart", "expected true", "emit PlaybackResumed"]);
    assert_eq!(c.receive_mode(), ReceiveMode::Poll);
    c.handle_request(PlayerRequest::Pause);
    let a = c.handle_request(PlayerRequest::Terminate);
    assert_eq!(emitted(&a), vec!["expected false"]);
    assert_eq!(c.receive_mode(), ReceiveMode::Stop);
}

#[test]
fn core_resume_without_track_only_reports() {
    let mut c = PlayerCore::new();
    let a = c.handle_request(PlayerRequest::Resume);
    assert_eq!(emitted(&a), vec!["emit PlaybackResumed"]);
    assert_eq!(c.receive_mode(), ReceiveMode::Block);
}

#[test]
fn core_settings_requests() {
    let mut c = PlayerCore::new();
    assert!(c.handle_request(PlayerRequest::SetAntiAliasing(true)).is_empty());
    c.handle_request(PlayerRequest::SetRepeatTrack(true));
    c.handle_request(PlayerRequest::SetViewMode(ViewMode::Perspective));
    assert!(c.repeat_track);
    assert_eq!(c.view_mode, ViewMode::Perspective);
    c.handle_request(PlayerRequest::PlayItem(item("a", 1)));
    c.load_succeeded();
    let a = c.handle_request(PlayerRequest::SetAntiAliasing(false));
    assert_eq!(emitted(&a), vec!["disable_aa true"]);
}

#[test]
fn core_frame_end_and_channel_close() {
    let mut c = PlayerCore::new();
    c.handle_request(PlayerRequest::PlayItem(item("a", 1)));
    c.load_succeeded();
    let quiet = EndWatch::new().progress(false, 5, None);
    assert!(c.frame_finished(&quiet, Some(100)).is_empty());
    assert!(c.current.is_some());
    let a = c.frame_finished(&quiet, Some(4));
    assert_eq!(emitted(&a), vec!["emit TrackEnded", "expected false"]);
    assert!(c.current.is_none());
    c.channel_closed();
    assert_eq!(c.receive_mode(), ReceiveMode::Stop);
}

#[test]
fn idle_requests_report_each_pause_and_resume_in_order() {
    let mut c = PlayerCore::new();
    let reqs = vec![
        PlayerRequest::Pause,
        PlayerRequest::SetVolume(10),
        PlayerRequest::Resume,
        PlayerRequest::SetAntiAliasing(true),
        PlayerRequest::SetRepeatTrack(true),
        PlayerRequest::SetPlaylist(vec![item("a", 1)]),
        PlayerRequest::Pause,
        PlayerRequest::Pause,
    ];
    let mut events = Vec::new();
    for r in reqs {
        for a in c.handle_request(r) {
            assert!(!matches!(a, PlayerAction::LoadTrack(_)));
            if let PlayerAction::Emit(e) = a {
                events.push(format!("{:?}", e));
            }
        }
        assert_eq!(c.receive_mode(), ReceiveMode::Block);
    }
    assert_eq!(events, vec!["PlaybackPaused", "PlaybackResumed", "PlaybackPaused", "PlaybackPaused"]);
    c.channel_closed();
    assert_eq!(c.receive_mode(), ReceiveMode::Stop);
}

#[test]
fn find_index_compares_paths_by_component() {
    let l = vec![item("music/a.nsf", 1), item("/abs//b.nsf", 2), item("./c.nsf", 1)];
    assert_eq!(find_index(&l, &item("music//a.nsf", 1)), Some(0));
    assert_eq!(find_index(&l, &item("music/./a.nsf", 1)), Some(0));
    assert_eq!(find_index(&l, &item("music/a.nsf/", 1)), Some(0));
    assert_eq!(find_index(&l, &item("/abs/b.nsf", 2)), Some(1));
    assert_eq!(find_index(&l, &item("abs/b.nsf", 2)), None);
    assert_eq!(find_index(&l, &item("./c.nsf", 1)), Some(2));
    assert_eq!(find_index(&l, &item("c.nsf", 1)), None);
    assert_eq!(find_index(&l, &item("music/a.nsf", 2)), None);
    let u = vec![item("d\u{e9}j\u{e0}/vu.nsf", 1)];
    assert_eq!(find_index(&u, &item("d\u{e9}j\u{e0}//vu.nsf", 1)), Some(0));
}

#[test]
fn prefill_step_runs_until_target_or_guard() {
    assert!(prefill_step(0, 100, 0));
    assert!(prefill_step(99, 100, 599));
    assert!(!prefill_step(100, 100, 0));
    assert!(!prefill_step(0, 100, 600));
    assert!(!prefill_step(0, 0, 0));
}

#[test]
fn scripted_run_walks_the_list_then_stops() {
    let l = list();
    let (a, k) = scripted_next(&l, 1).unwrap();
    assert_eq!((a.file_path.as_str(), a.track_index, k), ("a", 2, 2));
    let (b, k) = scripted_next(&l, k).unwrap();
    assert_eq!((b.file_path.as_str(), b.track_index, k), ("b", 1, 3));
    assert!(scripted_next(&l, k).is_none());
}

#[test]
fn each_frame_publishes_four_subframes() {
    let steps = frame_steps(262);
    assert_eq!(steps.len(), 12);
    let mut emulated = 0;
    for (sub, chunk) in steps.chunks(3).enumerate() {
        assert_eq!(chunk[0], FrameStep::Pace);
        assert_eq!(chunk[1], FrameStep::Emulate(subframe_scanlines(262, sub as u32)));
        assert_eq!(chunk[2], FrameStep::Publish);
        if let FrameStep::Emulate(n) = chunk[1] {
            emulated += n;
        }
    }
    assert_eq!(emulated, 262);
}

#[test]
fn track_start_is_announced_with_audio_before_frames() {
    let mut c = PlayerCore::new();
    c.handle_request(PlayerRequest::PlayItem(item("a", 1)));
    assert!(c.current.is_none());
    let a = c.load_succeeded();
    let e = emitted(&a);
    let expected_at = e.iter().position(|x| x == "expected true").unwrap();
    assert!(e[expected_at + 1].starts_with("emit TrackStarted"));
    assert_eq!(c.current.as_ref().unwrap().file_path, "a");
}
