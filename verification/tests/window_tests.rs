use nsf_player::config::Config;
use nsf_player::player_thread::{PlayerEvent, PlayerRequest, ViewMode};
use nsf_player::playlist::{NsfFileInfo, PlaylistItem};
use nsf_player::window_state::{row_marker, FileScan, PlayerWindowState};

fn nsf(path: &str, songs: u8, valid: bool) -> FileScan {
    FileScan {
        path: path.to_string(),
        stem: Some(path.trim_end_matches(".nsf").to_string()),
        info: Some(NsfFileInfo { magic_valid: valid, songs, nsfe_tracks: Vec::new(), m3u: Vec::new() }),
    }
}

fn fresh() -> PlayerWindowState {
    PlayerWindowState::new(Config::default()).0
}

fn names(reqs: &[PlayerRequest]) -> Vec<String> {
    reqs.iter()
        .map(|r| match r {
            PlayerRequest::PlayItem(i) => format!("play {}:{}", i.file_path, i.track_index),
            PlayerRequest::SetPlaylist(v) => format!("playlist {}", v.len()),
            PlayerRequest::SetVolume(v) => format!("volume {}", v),
            PlayerRequest::SetAntiAliasing(b) => format!("aa {}", b),
            PlayerRequest::SetViewMode(m) => format!("view {:?}", m),
            other => format!("{:?}", other),
        })
        .collect()
}

#[test]
fn startup_restores_config_and_informs_player() {
    let mut c = Config::default();
    c.volume = 400;
    c.anti_aliasing = true;
    c.view_mode = 1;
    c.scale_mode = 1;
    c.repeat = true;
    c.playlist = vec![PlaylistItem {
        file_path: "a.nsf".to_string(),
        track_index: 1,
        display_name: "A".to_string(),
        duration_seconds: Some(60),
    }];
    let (s, e) = PlayerWindowState::new(c);
    assert_eq!(names(&e.requests), vec!["volume 255", "aa true", "view Perspective"]);
    assert_eq!(e.viz_size, Some((960, 540)));
    assert_eq!(e.viz_visible, Some(true));
    assert!(e.playlist_changed);
    assert_eq!(s.playlist.len(), 1);
    assert!(s.playlist.repeat());
    assert_eq!(s.playlist.current_index(), None);
}

#[test]
fn adding_files_to_empty_list_starts_playback() {
    let mut s = fresh();
    let e = s.add_files(vec![nsf("bad.nsf", 3, false), nsf("a.nsf", 2, true), FileScan {
        path: "gone.nsf".to_string(),
        stem: None,
        info: None,
    }]);
    assert_eq!(names(&e.requests), vec!["playlist 2", "play a.nsf:1"]);
    assert_eq!(e.skipped, vec!["bad.nsf".to_string(), "gone.nsf".to_string()]);
    assert!(e.save_config && e.playlist_changed);
    assert_eq!(e.set_playing, Some(true));
    assert_eq!(s.config.playlist.len(), 2);
    assert_eq!(s.playlist.current_index(), Some(0));
    assert_eq!(row_marker(&s.playlist), 0);
    // A second batch only extends the list.
    let e = s.add_files(vec![nsf("b.nsf", 1, true)]);
    assert_eq!(names(&e.requests), vec!["playlist 3"]);
    assert_eq!(s.playlist.items()[2].file_path, "b.nsf");
    assert_eq!(s.config.playlist.len(), 3);
}

#[test]
fn adding_nothing_valid_keeps_idle() {
    let mut s = fresh();
    let e = s.add_files(vec![nsf("bad.nsf", 3, false)]);
    assert_eq!(names(&e.requests), vec!["playlist 0"]);
    assert_eq!(e.set_playing, None);
    assert!(!s.playing);
}

#[test]
fn track_end_auto_advances_then_stops() {
    let mut s = fresh();
    s.add_files(vec![nsf("a.nsf", 2, true)]);
    let e = s.player_event(PlayerEvent::TrackEnded);
    assert_eq!(names(&e.requests), vec!["play a.nsf:2"]);
    let e = s.player_event(PlayerEvent::TrackEnded);
    assert!(e.requests.is_empty());
    assert_eq!(e.set_playing, Some(false));
    assert_eq!(e.now_playing.as_deref(), Some("Nothing playing"));
    assert_eq!(row_marker(&s.playlist), -1);
}

#[test]
fn track_end_wraps_with_repeat() {
    let mut s = fresh();
    s.add_files(vec![nsf("a.nsf", 2, true)]);
    s.toggle_repeat(true);
    assert!(s.config.repeat);
    s.play_index(1);
    let e = s.player_event(PlayerEvent::TrackEnded);
    assert_eq!(names(&e.requests), vec!["play a.nsf:1"]);
}

#[test]
fn transport_buttons() {
    let mut s = fresh();
    let e = s.next_track();
    assert!(e.requests.is_empty());
    s.add_files(vec![nsf("a.nsf", 3, true)]);
    let e = s.next_track();
    assert_eq!(names(&e.requests), vec!["play a.nsf:2"]);
    assert!(e.refresh_index);
    let e = s.prev_track();
    assert_eq!(names(&e.requests), vec!["play a.nsf:1"]);
    let e = s.play_index(-1);
    assert!(e.requests.is_empty());
    let e = s.play_index(9);
    assert!(e.requests.is_empty());
    let e = s.play_pause();
    assert_eq!(names(&e.requests), vec!["Pause"]);
    assert_eq!(e.set_playing, Some(false));
    let e = s.play_pause();
    assert_eq!(names(&e.requests), vec!["Resume"]);
}

#[test]
fn settings_are_sent_and_persisted() {
    let mut s = fresh();
    let e = s.set_volume(-20);
    assert_eq!(names(&e.requests), vec!["volume 0"]);
    assert_eq!(s.config.volume, 0);
    assert!(e.save_config);
    let e = s.set_anti_aliasing(true);
    assert_eq!(names(&e.requests), vec!["aa true"]);
    let e = s.set_view_mode(1);
    assert_eq!(names(&e.requests), vec!["view Perspective"]);
    assert_eq!(s.config.view_mode, 1);
    let e = s.set_scale_mode(2);
    assert_eq!(e.viz_size, Some((1920, 1080)));
    assert_eq!(s.config.scale_mode, 2);
    let e = s.set_scale_mode(0);
    assert_eq!(e.viz_size, None);
}

#[test]
fn clear_and_visualization_toggle() {
    let mut s = fresh();
    s.add_files(vec![nsf("a.nsf", 2, true)]);
    let e = s.clear_playlist();
    assert_eq!(names(&e.requests), vec!["playlist 0"]);
    assert!(s.config.playlist.is_empty());
    let e = s.toggle_visualization();
    assert_eq!(e.viz_visible, Some(false));
    let e = s.toggle_visualization();
    assert_eq!(e.viz_visible, Some(true));
    s.visualization_closed();
    assert!(!s.visualization_visible);
}

#[test]
fn player_events_update_the_window() {
    let mut s = fresh();
    let item = PlaylistItem {
        file_path: "a.nsf".to_string(),
        track_index: 1,
        display_name: "Stage 1".to_string(),
        duration_seconds: None,
    };
    let e = s.player_event(PlayerEvent::TrackStarted { index_hint: None, item });
    assert_eq!(e.now_playing.as_deref(), Some("Stage 1"));
    assert!(s.playing);
    let e = s.player_event(PlayerEvent::PlaybackPaused);
    assert_eq!(e.set_playing, Some(false));
    let e = s.player_event(PlayerEvent::PlaybackResumed);
    assert_eq!(e.set_playing, Some(true));
    let e = s.player_event(PlayerEvent::Error("boom".to_string()));
    assert_eq!(e.error.as_deref(), Some("boom"));
    let _ = ViewMode::Classic;
}
