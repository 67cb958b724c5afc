use nsf_player::playlist::{
    is_nsf_extension, items_for_file, M3uEntry, NsfFileInfo, Playlist, PlaylistError, PlaylistItem, TrackMetadata,
};

fn item(path: &str, track: u8) -> PlaylistItem {
    PlaylistItem {
        file_path: path.to_string(),
        track_index: track,
        display_name: format!("{} #{}", path, track),
        duration_seconds: None,
    }
}

fn three() -> Playlist {
    let mut p = Playlist::new();
    p.set_items(vec![item("a.nsf", 1), item("a.nsf", 2), item("b.nsf", 1)]);
    p
}

fn info(songs: u8) -> NsfFileInfo {
    NsfFileInfo { magic_valid: true, songs, nsfe_tracks: Vec::new(), m3u: Vec::new() }
}

#[test]
fn new_playlist_is_empty() {
    let p = Playlist::new();
    assert!(p.is_empty());
    assert_eq!(p.len(), 0);
    assert_eq!(p.current_index(), None);
    assert!(p.current().is_none());
    assert!(!p.repeat());
    let d = Playlist::default();
    assert!(d.is_empty());
    assert_eq!(d.current_index(), None);
    assert!(!d.repeat());
}

#[test]
fn select_sets_cursor_and_rejects_out_of_range() {
    let mut p = three();
    let got = p.select(1).unwrap();
    assert_eq!(got.track_index, 2);
    assert_eq!(p.current_index(), Some(1));
    assert_eq!(p.current().unwrap().track_index, 2);
    assert!(p.select(3).is_none());
    assert_eq!(p.current_index(), Some(1));
}

#[test]
fn advance_walks_forward_and_stops_without_repeat() {
    let mut p = three();
    assert_eq!(p.advance().unwrap().track_index, 1);
    assert_eq!(p.current_index(), Some(0));
    assert_eq!(p.advance().unwrap().track_index, 2);
    assert_eq!(p.advance().unwrap().file_path, "b.nsf");
    assert!(p.advance().is_none());
    assert_eq!(p.current_index(), None);
}

#[test]
fn advance_wraps_with_repeat() {
    let mut p = three();
    p.set_repeat(true);
    p.select(2);
    let first = p.advance().unwrap();
    assert_eq!(first.file_path, "a.nsf");
    assert_eq!(p.current_index(), Some(0));
}

#[test]
fn advance_on_empty_gives_nothing() {
    let mut p = Playlist::new();
    p.set_repeat(true);
    assert!(p.advance().is_none());
    assert!(p.previous().is_none());
}

#[test]
fn previous_steps_back_and_keeps_cursor_at_start() {
    let mut p = three();
    p.select(0);
    assert!(p.previous().is_none());
    assert_eq!(p.current_index(), Some(0));
    p.select(2);
    assert_eq!(p.previous().unwrap().track_index, 2);
    assert_eq!(p.current_index(), Some(1));
}

#[test]
fn previous_wraps_with_repeat() {
    let mut p = three();
    p.set_repeat(true);
    p.select(0);
    assert_eq!(p.previous().unwrap().file_path, "b.nsf");
    assert_eq!(p.current_index(), Some(2));
}

#[test]
fn previous_from_no_cursor_starts_at_first() {
    let mut p = three();
    assert_eq!(p.previous().unwrap().track_index, 1);
    assert_eq!(p.current_index(), Some(0));
}

#[test]
fn previous_undoes_advance_on_concrete_list() {
    let mut p = three();
    p.select(0);
    p.advance();
    let back = p.previous().unwrap();
    assert_eq!(back.track_index, 1);
    assert_eq!(p.current_index(), Some(0));
}

#[test]
fn clear_and_set_items_reset_cursor() {
    let mut p = three();
    p.select(1);
    p.set_items(vec![item("c.nsf", 4)]);
    assert_eq!(p.current_index(), None);
    assert_eq!(p.len(), 1);
    p.select(0);
    p.clear();
    assert!(p.is_empty());
    assert_eq!(p.current_index(), None);
}

#[test]
fn items_for_file_falls_back_to_stem_names() {
    let items = items_for_file(&"dir/zelda.nsf".to_string(), &Some("zelda".to_string()), &info(3));
    assert_eq!(items.len(), 3);
    assert_eq!(items[0].display_name, "zelda \u{2014} Track 1");
    assert_eq!(items[2].display_name, "zelda \u{2014} Track 3");
    assert_eq!(items[2].track_index, 3);
    assert_eq!(items[1].file_path, "dir/zelda.nsf");
    assert_eq!(items[1].duration_seconds, None);
}

#[test]
fn items_for_file_without_stem_says_unknown() {
    let items = items_for_file(&"x".to_string(), &None, &info(0));
    assert_eq!(items.len(), 1);
    assert_eq!(items[0].display_name, "Unknown \u{2014} Track 1");
}

#[test]
fn items_for_file_uses_two_digit_track_numbers() {
    let items = items_for_file(&"x".to_string(), &Some("s".to_string()), &info(12));
    assert_eq!(items[11].display_name, "s \u{2014} Track 12");
}

#[test]
fn items_for_file_prefers_nsfe_then_m3u() {
    let mut i = info(3);
    i.nsfe_tracks = vec![
        TrackMetadata { title: Some("Intro".to_string()), duration_seconds: Some(30) },
        TrackMetadata { title: None, duration_seconds: None },
    ];
    i.m3u = vec![
        M3uEntry { track: 0, title: "M3U intro".to_string(), duration_secs: Some(99) },
        M3uEntry { track: 1, title: "Stage".to_string(), duration_secs: Some(0x1_0000_0005) },
        M3uEntry { track: 1, title: "Stage again".to_string(), duration_secs: None },
    ];
    let items = items_for_file(&"g.nsfe".to_string(), &Some("g".to_string()), &i);
    assert_eq!(items[0].display_name, "Intro");
    assert_eq!(items[0].duration_seconds, Some(30));
    assert_eq!(items[1].display_name, "Stage");
    // Seconds are cut to 32 bits, as an `as u32` cast does.
    assert_eq!(items[1].duration_seconds, Some(5));
    assert_eq!(items[2].display_name, "g \u{2014} Track 3");
    assert_eq!(items[2].duration_seconds, None);
}

#[test]
fn append_file_adds_subsongs_and_keeps_cursor() {
    let mut p = three();
    p.select(1);
    let n = p.append_file("c.nsf".to_string(), Some("c".to_string()), info(2)).unwrap();
    assert_eq!(n, 2);
    assert_eq!(p.len(), 5);
    assert_eq!(p.items()[3].file_path, "c.nsf");
    assert_eq!(p.items()[4].track_index, 2);
    assert_eq!(p.current_index(), Some(1));
}

#[test]
fn append_file_rejects_invalid_nsf() {
    let mut p = three();
    let mut bad = info(2);
    bad.magic_valid = false;
    match p.append_file("junk.bin".to_string(), None, bad) {
        Err(PlaylistError::InvalidNsf { path }) => assert_eq!(path, "junk.bin"),
        Ok(_) => panic!("invalid file accepted"),
    }
    assert_eq!(p.len(), 3);
}

#[test]
fn replace_with_file_replaces_everything() {
    let mut p = three();
    p.select(2);
    let n = p.replace_with_file("d.nsf".to_string(), Some("d".to_string()), info(4)).unwrap();
    assert_eq!(n, 4);
    assert_eq!(p.len(), 4);
    assert_eq!(p.current_index(), None);
    assert!(p.items().iter().all(|i| i.file_path == "d.nsf"));
}

#[test]
fn folder_walk_picks_nsf_and_nsfe_in_any_case() {
    assert!(is_nsf_extension(b"nsf"));
    assert!(is_nsf_extension(b"NSF"));
    assert!(is_nsf_extension(b"nsfe"));
    assert!(is_nsf_extension(b"NsFe"));
    assert!(!is_nsf_extension(b"nsff"));
    assert!(!is_nsf_extension(b"ns"));
    assert!(!is_nsf_extension(b"nsfe2"));
    assert!(!is_nsf_extension(b"m3u"));
    assert!(!is_nsf_extension(b""));
}
