use vstd::prelude::*;

use crate::config::{
    clamp_volume, initial_viz_size, scale_snap_size, spec_scale_snap, spec_view_mode_for,
    view_mode_for, volume_byte, Config,
};
use crate::player_thread::{PlayerEvent, PlayerRequest};
use crate::playlist::{
    advance_index, file_items_ok, previous_index, song_count, NsfFileInfo, Playlist, PlaylistError,
    PlaylistItem,
};

verus! {

/// One file the user picked (or a folder scan found), read from disk.
#[derive(Debug)]
pub struct FileScan {
    pub path: String,
    pub stem: Option<String>,
    /// The parsed file; `None` when it could not be read.
    pub info: Option<NsfFileInfo>,
}

/// What the GUI must do after a callback: send requests to the player
/// thread and update the windows.
#[derive(Debug)]
pub struct UiEffects {
    /// Requests for the player thread, in order.
    pub requests: Vec<PlayerRequest>,
    /// The playlist's rows changed: rebuild the list shown (and its
    /// current-row marker).
    pub playlist_changed: bool,
    /// The current row changed: move the marker.
    pub refresh_index: bool,
    /// New value of the "playing" toggle.
    pub set_playing: Option<bool>,
    /// New "now playing" text.
    pub now_playing: Option<String>,
    /// Write the configuration to disk.
    pub save_config: bool,
    /// Resize the visualization window to this logical size.
    pub viz_size: Option<(u32, u32)>,
    /// Show (`true`) or hide (`false`) the visualization window.
    pub viz_visible: Option<bool>,
    /// Paths that were skipped (unreadable, or not NSF/NSFe).
    pub skipped: Vec<String>,
    /// A player error to report.
    pub error: Option<String>,
}

/// Effects that change nothing.
pub open spec fn quiet(e: UiEffects) -> bool {
    &&& e.requests@.len() == 0
    &&& !e.playlist_changed
    &&& !e.refresh_index
    &&& e.set_playing is None
    &&& e.now_playing is None
    &&& !e.save_config
    &&& e.viz_size is None
    &&& e.viz_visible is None
    &&& e.skipped@.len() == 0
    &&& e.error is None
}

fn no_effects() -> (r: UiEffects)
    ensures
        quiet(r),
{
    UiEffects {
        requests: Vec::new(),
        playlist_changed: false,
        refresh_index: false,
        set_playing: None,
        now_playing: None,
        save_config: false,
        viz_size: None,
        viz_visible: None,
        skipped: Vec::new(),
        error: None,
    }
}

fn request_effects(req: PlayerRequest) -> (r: UiEffects)
    ensures
        r.requests@ == seq![req],
        !r.playlist_changed,
        !r.refresh_index,
        r.set_playing is None,
        r.now_playing is None,
        !r.save_config,
        r.viz_size is None,
        r.viz_visible is None,
        r.skipped@.len() == 0,
        r.error is None,
{
    let mut e = no_effects();
    e.requests.push(req);
    assert(e.requests@ =~= seq![req]);
    e
}

/// A single request and nothing else.
pub open spec fn only_request(e: UiEffects, req: PlayerRequest) -> bool {
    &&& e.requests@ == seq![req]
    &&& !e.playlist_changed
    &&& !e.refresh_index
    &&& e.now_playing is None
    &&& e.viz_size is None
    &&& e.viz_visible is None
    &&& e.skipped@.len() == 0
    &&& e.error is None
}

/// Marker row shown in the playlist: the current index, or -1.
pub open spec fn spec_row_marker(current: Option<usize>) -> i32 {
    match current {
        Some(i) => i as i32,
        None => -1i32,
    }
}

/// Row the playlist view highlights for the playlist's cursor: its index,
/// or -1 when nothing is current.
pub fn row_marker(playlist: &Playlist) -> (r: i32)
    ensures
        r == spec_row_marker(playlist@.current),
{
    match playlist.current_index() {
        Some(i) => #[verifier::truncate]
        (i as i32),
        None => -1i32,
    }
}

/// Text shown when playback ran off the end of the playlist.
pub open spec fn nothing_playing() -> Seq<char> {
    "Nothing playing"@
}

/// Effects that do nothing but possibly report skipped files.
pub open spec fn quiet_but_skipped(e: UiEffects) -> bool {
    &&& e.requests@.len() == 0
    &&& !e.playlist_changed
    &&& !e.refresh_index
    &&& e.set_playing is None
    &&& e.now_playing is None
    &&& !e.save_config
    &&& e.viz_size is None
    &&& e.viz_visible is None
    &&& e.error is None
}

/// `added` is what appending `files` in order adds to a playlist: for every
/// readable file with a valid NSF/NSFe signature, one row per subsong (see
/// `file_items_ok`); other files add nothing.
pub open spec fn appended_ok(files: Seq<FileScan>, added: Seq<PlaylistItem>) -> bool
    decreases files.len(),
{
    if files.len() == 0 {
        added.len() == 0
    } else {
        let f = files.last();
        match f.info {
            Some(info) => if info.magic_valid {
                let n = song_count(info.songs);
                &&& added.len() >= n
                &&& file_items_ok(
                    added.subrange(added.len() - n, added.len() as int),
                    f.path@,
                    info,
                    f.stem,
                )
                &&& appended_ok(files.drop_last(), added.subrange(0, added.len() - n))
            } else {
                appended_ok(files.drop_last(), added)
            },
            None => appended_ok(files.drop_last(), added),
        }
    }
}

/// The file adds nothing: unreadable, or not NSF/NSFe.
pub open spec fn is_skipped(f: FileScan) -> bool {
    match f.info {
        Some(info) => !info.magic_valid,
        None => true,
    }
}

/// `skipped` lists, in order, the paths of the files that add nothing.
pub open spec fn skipped_ok(files: Seq<FileScan>, skipped: Seq<String>) -> bool
    decreases files.len(),
{
    if files.len() == 0 {
        skipped.len() == 0
    } else if is_skipped(files.last()) {
        &&& skipped.len() > 0
        &&& skipped.last()@ == files.last().path@
        &&& skipped_ok(files.drop_last(), skipped.drop_last())
    } else {
        skipped_ok(files.drop_last(), skipped)
    }
}

/// Effects that only set the "playing" toggle.
pub open spec fn quiet_but_playing(e: UiEffects) -> bool {
    &&& e.requests@.len() == 0
    &&& !e.playlist_changed
    &&& !e.refresh_index
    &&& e.now_playing is None
    &&& !e.save_config
    &&& e.viz_size is None
    &&& e.viz_visible is None
    &&& e.skipped@.len() == 0
    &&& e.error is None
}

/// State the player window keeps besides its widgets: the playlist, the
/// persisted settings, and two toggles.
pub struct PlayerWindowState {
    pub playlist: Playlist,
    pub config: Config,
    /// The transport shows "playing".
    pub playing: bool,
    pub visualization_visible: bool,
}

fn copy_items(items: &[PlaylistItem]) -> (r: Vec<PlaylistItem>)
    ensures
        r@ == items@,
{
    let mut out: Vec<PlaylistItem> = Vec::new();
    let mut i: usize = 0;
    while i < items.len()
        invariant
            i <= items@.len(),
            out@ == items@.take(i as int),
        decreases items@.len() - i,
    {
        out.push(items[i].clone());
        i = i + 1;
        assert(out@ =~= items@.take(i as int));
    }
    assert(items@.take(items@.len() as int) =~= items@);
    out
}

impl PlayerWindowState {
    /// The saved configuration always mirrors the playlist and its repeat
    /// choice.
    pub open spec fn wf(&self) -> bool {
        &&& self.playlist.wf()
        &&& self.config.playlist@ == self.playlist@.items
        &&& self.config.repeat == self.playlist@.repeat
    }

    /// Snapshot the playlist into the configuration.
    fn save_playlist(&mut self)
        requires
            old(self).playlist.wf(),
            old(self).config.repeat == old(self).playlist@.repeat,
        ensures
            final(self).wf(),
            final(self).playlist == old(self).playlist,
            final(self).playing == old(self).playing,
            final(self).visualization_visible == old(self).visualization_visible,
            final(self).config.view_mode == old(self).config.view_mode,
            final(self).config.scale_mode == old(self).config.scale_mode,
            final(self).config.anti_aliasing == old(self).config.anti_aliasing,
            final(self).config.volume == old(self).config.volume,
            final(self).config.repeat == old(self).config.repeat,
    {
        self.config.playlist = copy_items(self.playlist.items());
    }

    /// Window state for a launch with the saved `config`: the playlist comes
    /// back, and the player thread is told the saved volume, anti-aliasing
    /// choice and view mode.
    pub fn new(config: Config) -> (r: (Self, UiEffects))
        ensures
            r.0.wf(),
            r.0.playlist@.items == config.playlist@,
            r.0.playlist@.current is None,
            r.0.playlist@.repeat == config.repeat,
            r.0.config.view_mode == config.view_mode,
            r.0.config.scale_mode == config.scale_mode,
            r.0.config.anti_aliasing == config.anti_aliasing,
            r.0.config.volume == config.volume,
            !r.0.playing,
            r.0.visualization_visible,
            r.1.requests@ == seq![
                PlayerRequest::SetVolume(clamp_volume(config.volume as int) as u8),
                PlayerRequest::SetAntiAliasing(config.anti_aliasing),
                PlayerRequest::SetViewMode(spec_view_mode_for(config.view_mode)),
            ],
            r.1.playlist_changed,
            r.1.viz_size == Some(
                if config.scale_mode == 1 {
                    (960u32, 540u32)
                } else {
                    (1920u32, 1080u32)
                },
            ),
            r.1.viz_visible == Some(true),
            !r.1.save_config,
            r.1.set_playing is None,
            r.1.now_playing is None,
            r.1.skipped@.len() == 0,
            r.1.error is None,
    {
        let mut playlist = Playlist::new();
        playlist.set_repeat(config.repeat);
        if config.playlist.len() > 0 {
            playlist.set_items(copy_items(config.playlist.as_slice()));
        } else {
            assert(config.playlist@ =~= playlist@.items);
        }
        let mut e = no_effects();
        e.playlist_changed = true;
        e.requests.push(PlayerRequest::SetVolume(volume_byte(config.volume)));
        e.requests.push(PlayerRequest::SetAntiAliasing(config.anti_aliasing));
        e.requests.push(PlayerRequest::SetViewMode(view_mode_for(config.view_mode)));
        e.viz_size = Some(initial_viz_size(config.scale_mode));
        e.viz_visible = Some(true);
        let state = PlayerWindowState {
            playlist,
            config,
            playing: false,
            visualization_visible: true,
        };
        (state, e)
    }

    /// Files were picked or found: append each readable NSF/NSFe file's
    /// subsongs in order, report the rest as skipped, persist and show the
    /// new list, and hand it to the player thread. A list that was empty
    /// starts playing its first track.
    pub fn add_files(&mut self, files: Vec<FileScan>) -> (r: UiEffects)
        requires
            old(self).wf(),
        ensures
            final(self).wf(),
            final(self).playlist@.items.len() >= old(self).playlist@.items.len(),
            final(self).playlist@.items.subrange(0, old(self).playlist@.items.len() as int)
                == old(self).playlist@.items,
            appended_ok(
                files@,
                final(self).playlist@.items.subrange(
                    old(self).playlist@.items.len() as int,
                    final(self).playlist@.items.len() as int,
                ),
            ),
            skipped_ok(files@, r.skipped@),
            final(self).playlist@.repeat == old(self).playlist@.repeat,
            final(self).config.view_mode == old(self).config.view_mode,
            final(self).config.scale_mode == old(self).config.scale_mode,
            final(self).config.anti_aliasing == old(self).config.anti_aliasing,
            final(self).config.volume == old(self).config.volume,
            final(self).visualization_visible == old(self).visualization_visible,
            r.playlist_changed,
            r.save_config,
            r.requests@.len() >= 1,
            r.requests@[0] is SetPlaylist,
            r.requests@[0]->SetPlaylist_0@ == final(self).playlist@.items,
            (old(self).playlist@.items.len() == 0 && final(self).playlist@.items.len() > 0) ==> {
                &&& final(self).playlist@.current == Some(0usize)
                &&& r.requests@.len() == 2
                &&& r.requests@[1] == PlayerRequest::PlayItem(final(self).playlist@.items[0])
                &&& r.set_playing == Some(true)
                &&& final(self).playing
            },
            !(old(self).playlist@.items.len() == 0 && final(self).playlist@.items.len() > 0) ==> {
                &&& final(self).playlist@.current == old(self).playlist@.current
                &&& r.requests@.len() == 1
                &&& r.set_playing is None
                &&& final(self).playing == old(self).playing
            },
            !r.refresh_index,
            r.error is None,
            r.viz_size is None,
            r.viz_visible is None,
            r.now_playing is None,
    {
        let started_empty = self.playlist.is_empty();
        let mut e = no_effects();
        let mut files = files;
        let ghost orig = files@;
        let ghost start_items = self.playlist@.items;
        let ghost mut k: int = 0;
        while files.len() > 0
            invariant
                0 <= k <= orig.len(),
                files@ == orig.skip(k),
                self.playlist.wf(),
                self.config.repeat == self.playlist@.repeat,
                self.playlist@.repeat == old(self).playlist@.repeat,
                self.playlist@.current == old(self).playlist@.current,
                self.playlist@.items.len() >= start_items.len(),
                self.playlist@.items.subrange(0, start_items.len() as int) == start_items,
                appended_ok(
                    orig.take(k),
                    self.playlist@.items.subrange(
                        start_items.len() as int,
                        self.playlist@.items.len() as int,
                    ),
                ),
                skipped_ok(orig.take(k), e.skipped@),
                self.config.view_mode == old(self).config.view_mode,
                self.config.scale_mode == old(self).config.scale_mode,
                self.config.anti_aliasing == old(self).config.anti_aliasing,
                self.config.volume == old(self).config.volume,
                self.playing == old(self).playing,
                self.visualization_visible == old(self).visualization_visible,
                quiet_but_skipped(e),
            decreases files@.len(),
        {
            let f = files.remove(0);
            assert(f == orig[k]);
            assert(orig.take(k + 1).drop_last() =~= orig.take(k));
            assert(orig.take(k + 1).last() == f);
            let ghost before = self.playlist@.items;
            let ghost before_skipped = e.skipped@;
            match f.info {
                Some(info) => {
                    match self.playlist.append_file(f.path, f.stem, info) {
                        Ok(_) => {},
                        Err(PlaylistError::InvalidNsf { path }) => e.skipped.push(path),
                    }
                },
                None => e.skipped.push(f.path),
            }
            proof {
                let after = self.playlist@.items;
                let s0 = start_items.len() as int;
                assert(after.subrange(0, before.len() as int) == before);
                assert(after.subrange(0, s0) =~= before.subrange(0, s0));
                let mid = after.subrange(s0, after.len() as int);
                let n = after.len() - before.len();
                assert(mid.subrange(0, mid.len() - n) =~= before.subrange(s0, before.len() as int));
                assert(mid.subrange(mid.len() - n, mid.len() as int) =~= after.subrange(
                    before.len() as int,
                    after.len() as int,
                ));
                if !is_skipped(f) {
                    assert(e.skipped@ == before_skipped);
                } else {
                    assert(e.skipped@.drop_last() =~= before_skipped);
                }
            }
            proof {
                k = k + 1;
            }
            assert(files@ =~= orig.skip(k));
        }
        assert(orig.take(k) =~= orig);
        self.save_playlist();
        e.playlist_changed = true;
        e.save_config = true;
        e.requests.push(PlayerRequest::SetPlaylist(copy_items(self.playlist.items())));
        if started_empty && !self.playlist.is_empty() {
            let first = self.playlist.select(0);
            match first {
                Some(item) => {
                    e.requests.push(PlayerRequest::PlayItem(item));
                    e.set_playing = Some(true);
                    self.playing = true;
                },
                None => {},
            }
        }
        e
    }

    /// "Clear": empty the playlist, persist and show it, and hand the empty
    /// list to the player thread.
    pub fn clear_playlist(&mut self) -> (r: UiEffects)
        requires
            old(self).wf(),
        ensures
            final(self).wf(),
            final(self).playlist@.items.len() == 0,
            final(self).playlist@.current is None,
            final(self).playlist@.repeat == old(self).playlist@.repeat,
            final(self).playing == old(self).playing,
            final(self).visualization_visible == old(self).visualization_visible,
            final(self).config.volume == old(self).config.volume,
            final(self).config.view_mode == old(self).config.view_mode,
            final(self).config.scale_mode == old(self).config.scale_mode,
            final(self).config.anti_aliasing == old(self).config.anti_aliasing,
            r.requests@.len() == 1,
            r.requests@[0] is SetPlaylist,
            r.requests@[0]->SetPlaylist_0@.len() == 0,
            r.playlist_changed,
            r.save_config,
            !r.refresh_index,
            r.set_playing is None,
            r.now_playing is None,
            r.viz_size is None,
            r.viz_visible is None,
            r.skipped@.len() == 0,
            r.error is None,
    {
        self.playlist.clear();
        self.save_playlist();
        let mut e = no_effects();
        e.playlist_changed = true;
        e.save_config = true;
        e.requests.push(PlayerRequest::SetPlaylist(copy_items(self.playlist.items())));
        e
    }

    /// The play/pause button: pause when playing, resume otherwise.
    pub fn play_pause(&mut self) -> (r: UiEffects)
        ensures
            final(self).playing == !old(self).playing,
            final(self).playlist == old(self).playlist,
            final(self).config == old(self).config,
            final(self).visualization_visible == old(self).visualization_visible,
            only_request(
                r,
                if old(self).playing {
                    PlayerRequest::Pause
                } else {
                    PlayerRequest::Resume
                },
            ),
            r.set_playing == Some(!old(self).playing),
            !r.save_config,
    {
        let mut e = if self.playing {
            self.playing = false;
            request_effects(PlayerRequest::Pause)
        } else {
            self.playing = true;
            request_effects(PlayerRequest::Resume)
        };
        e.set_playing = Some(self.playing);
        e
    }

    fn play_moved(&mut self, item: Option<PlaylistItem>) -> (r: UiEffects)
        ensures
            final(self).playlist == old(self).playlist,
            final(self).config == old(self).config,
            final(self).visualization_visible == old(self).visualization_visible,
            match item {
                Some(it) => {
                    &&& only_request(r, PlayerRequest::PlayItem(it))
                    &&& r.set_playing == Some(true)
                    &&& final(self).playing
                },
                None => quiet(r) && final(self).playing == old(self).playing,
            },
            !r.save_config,
    {
        match item {
            Some(it) => {
                let mut e = request_effects(PlayerRequest::PlayItem(it));
                e.set_playing = Some(true);
                self.playing = true;
                e
            },
            None => no_effects(),
        }
    }

    /// "Next": advance the playlist (see `advance_index`) and play the item,
    /// if there is one.
    pub fn next_track(&mut self) -> (r: UiEffects)
        requires
            old(self).wf(),
        ensures
            final(self).wf(),
            final(self).playlist@.items == old(self).playlist@.items,
            final(self).config == old(self).config,
            final(self).visualization_visible == old(self).visualization_visible,
            match advance_index(
                old(self).playlist@.items.len(),
                old(self).playlist@.current,
                old(self).playlist@.repeat,
            ) {
                Some(j) => {
                    &&& final(self).playlist@.current == Some(j as usize)
                    &&& r.requests@ == seq![PlayerRequest::PlayItem(old(self).playlist@.items[j])]
                    &&& r.set_playing == Some(true)
                    &&& r.refresh_index
                    &&& final(self).playing
                },
                None => {
                    &&& final(self).playlist@.current is None
                    &&& quiet(r)
                    &&& final(self).playing == old(self).playing
                },
            },
    {
        let item = self.playlist.advance();
        let some = item.is_some();
        let mut e = self.play_moved(item);
        if some {
            e.refresh_index = true;
        }
        e
    }

    /// "Previous": step the playlist back (see `previous_index`) and play
    /// the item, if there is one.
    pub fn prev_track(&mut self) -> (r: UiEffects)
        requires
            old(self).wf(),
        ensures
            final(self).wf(),
            final(self).playlist@.items == old(self).playlist@.items,
            final(self).config == old(self).config,
            final(self).visualization_visible == old(self).visualization_visible,
            match previous_index(
                old(self).playlist@.items.len(),
                old(self).playlist@.current,
                old(self).playlist@.repeat,
            ) {
                Some(j) => {
                    &&& final(self).playlist@.current == Some(j as usize)
                    &&& r.requests@ == seq![PlayerRequest::PlayItem(old(self).playlist@.items[j])]
                    &&& r.set_playing == Some(true)
                    &&& r.refresh_index
                    &&& final(self).playing
                },
                None => {
                    &&& final(self).playlist@.current == old(self).playlist@.current
                    &&& quiet(r)
                    &&& final(self).playing == old(self).playing
                },
            },
    {
        let item = self.playlist.previous();
        let some = item.is_some();
        let mut e = self.play_moved(item);
        if some {
            e.refresh_index = true;
        }
        e
    }

    /// A click on playlist row `index`: play it, if it exists.
    pub fn play_index(&mut self, index: i32) -> (r: UiEffects)
        requires
            old(self).wf(),
        ensures
            final(self).wf(),
            final(self).playlist@.items == old(self).playlist@.items,
            final(self).config == old(self).config,
            final(self).visualization_visible == old(self).visualization_visible,
            if 0 <= index < old(self).playlist@.items.len() {
                &&& final(self).playlist@.current == Some(index as usize)
                &&& r.requests@ == seq![
                    PlayerRequest::PlayItem(old(self).playlist@.items[index as int]),
                ]
                &&& r.set_playing == Some(true)
                &&& r.refresh_index
                &&& final(self).playing
            } else {
                &&& final(self).playlist@.current == old(self).playlist@.current
                &&& quiet(r)
                &&& final(self).playing == old(self).playing
            },
    {
        if index < 0 {
            return no_effects();
        }
        let item = self.playlist.select(index as usize);
        let some = item.is_some();
        let mut e = self.play_moved(item);
        if some {
            e.refresh_index = true;
        }
        e
    }

    /// The volume slider moved: clamp, tell the player thread, persist.
    pub fn set_volume(&mut self, v: i32) -> (r: UiEffects)
        requires
            old(self).wf(),
        ensures
            final(self).wf(),
            final(self).config.volume == clamp_volume(v as int),
            only_request(r, PlayerRequest::SetVolume(clamp_volume(v as int) as u8)),
            r.set_playing is None,
            r.save_config,
            final(self).playlist == old(self).playlist,
            final(self).playing == old(self).playing,
            final(self).visualization_visible == old(self).visualization_visible,
            final(self).config.anti_aliasing == old(self).config.anti_aliasing,
            final(self).config.view_mode == old(self).config.view_mode,
            final(self).config.scale_mode == old(self).config.scale_mode,
    {
        let b = volume_byte(v);
        let mut e = request_effects(PlayerRequest::SetVolume(b));
        self.config.volume = b as i32;
        e.save_config = true;
        e
    }

    /// The repeat checkbox: playlist-level wrap-around, persisted.
    pub fn toggle_repeat(&mut self, checked: bool) -> (r: UiEffects)
        requires
            old(self).wf(),
        ensures
            final(self).wf(),
            final(self).playlist@.repeat == checked,
            final(self).config.repeat == checked,
            final(self).playlist@.items == old(self).playlist@.items,
            final(self).playlist@.current == old(self).playlist@.current,
            r.save_config,
            r.requests@.len() == 0,
            !r.playlist_changed,
            !r.refresh_index,
            r.set_playing is None,
            r.now_playing is None,
            r.viz_size is None,
            r.viz_visible is None,
            r.skipped@.len() == 0,
            r.error is None,
            final(self).playing == old(self).playing,
            final(self).visualization_visible == old(self).visualization_visible,
            final(self).config.volume == old(self).config.volume,
            final(self).config.anti_aliasing == old(self).config.anti_aliasing,
            final(self).config.view_mode == old(self).config.view_mode,
            final(self).config.scale_mode == old(self).config.scale_mode,
    {
        self.playlist.set_repeat(checked);
        self.config.repeat = checked;
        let mut e = no_effects();
        e.save_config = true;
        e
    }

    /// The anti-aliasing toggle: tell the player thread, persist.
    pub fn set_anti_aliasing(&mut self, on: bool) -> (r: UiEffects)
        requires
            old(self).wf(),
        ensures
            final(self).wf(),
            final(self).config.anti_aliasing == on,
            only_request(r, PlayerRequest::SetAntiAliasing(on)),
            r.set_playing is None,
            r.save_config,
            final(self).playlist == old(self).playlist,
            final(self).playing == old(self).playing,
            final(self).visualization_visible == old(self).visualization_visible,
            final(self).config.volume == old(self).config.volume,
            final(self).config.view_mode == old(self).config.view_mode,
            final(self).config.scale_mode == old(self).config.scale_mode,
    {
        let mut e = request_effects(PlayerRequest::SetAntiAliasing(on));
        self.config.anti_aliasing = on;
        e.save_config = true;
        e
    }

    /// The view dropdown: switch renderer, persist.
    pub fn set_view_mode(&mut self, mode: i32) -> (r: UiEffects)
        requires
            old(self).wf(),
        ensures
            final(self).wf(),
            final(self).config.view_mode == mode,
            only_request(r, PlayerRequest::SetViewMode(spec_view_mode_for(mode))),
            r.set_playing is None,
            r.save_config,
            final(self).playlist == old(self).playlist,
            final(self).playing == old(self).playing,
            final(self).visualization_visible == old(self).visualization_visible,
            final(self).config.volume == old(self).config.volume,
            final(self).config.anti_aliasing == old(self).config.anti_aliasing,
            final(self).config.scale_mode == old(self).config.scale_mode,
    {
        let mut e = request_effects(PlayerRequest::SetViewMode(view_mode_for(mode)));
        self.config.view_mode = mode;
        e.save_config = true;
        e
    }

    /// The scale dropdown: 1x and 2x snap the visualization window to the
    /// exact size, persist.
    pub fn set_scale_mode(&mut self, mode: i32) -> (r: UiEffects)
        requires
            old(self).wf(),
        ensures
            final(self).wf(),
            final(self).config.scale_mode == mode,
            r.viz_size == spec_scale_snap(mode),
            r.save_config,
            r.requests@.len() == 0,
            !r.playlist_changed,
            !r.refresh_index,
            r.set_playing is None,
            r.now_playing is None,
            r.viz_visible is None,
            r.skipped@.len() == 0,
            r.error is None,
            final(self).playlist == old(self).playlist,
            final(self).playing == old(self).playing,
            final(self).visualization_visible == old(self).visualization_visible,
            final(self).config.volume == old(self).config.volume,
            final(self).config.anti_aliasing == old(self).config.anti_aliasing,
            final(self).config.view_mode == old(self).config.view_mode,
    {
        let mut e = no_effects();
        e.viz_size = scale_snap_size(mode);
        self.config.scale_mode = mode;
        e.save_config = true;
        e
    }

    /// The visualization toolbar toggle: show or hide the window.
    pub fn toggle_visualization(&mut self) -> (r: UiEffects)
        ensures
            final(self).visualization_visible == !old(self).visualization_visible,
            r.viz_visible == Some(!old(self).visualization_visible),
            r.requests@.len() == 0,
            !r.playlist_changed,
            !r.refresh_index,
            r.set_playing is None,
            r.now_playing is None,
            !r.save_config,
            r.viz_size is None,
            r.skipped@.len() == 0,
            r.error is None,
            final(self).playlist == old(self).playlist,
            final(self).config == old(self).config,
            final(self).playing == old(self).playing,
    {
        self.visualization_visible = !self.visualization_visible;
        let mut e = no_effects();
        e.viz_visible = Some(self.visualization_visible);
        e
    }

    /// The visualization window was closed by the user (it is only hidden).
    pub fn visualization_closed(&mut self)
        ensures
            !final(self).visualization_visible,
            final(self).playlist == old(self).playlist,
            final(self).config == old(self).config,
            final(self).playing == old(self).playing,
    {
        self.visualization_visible = false;
    }

    /// React to an event from the player thread. A finished track moves the
    /// playlist on (see `advance_index`): mid-playlist always, past the end
    /// only with repeat; otherwise playback stops.
    pub fn player_event(&mut self, evt: PlayerEvent) -> (r: UiEffects)
        requires
            old(self).wf(),
        ensures
            final(self).wf(),
            final(self).playlist@.items == old(self).playlist@.items,
            final(self).config == old(self).config,
            final(self).visualization_visible == old(self).visualization_visible,
            match evt {
                PlayerEvent::TrackStarted { item, .. } => {
                    &&& r.now_playing is Some
                    &&& r.now_playing->Some_0@ == item.display_name@
                    &&& r.refresh_index
                    &&& r.set_playing == Some(true)
                    &&& final(self).playing
                    &&& r.requests@.len() == 0
                    &&& final(self).playlist@.current == old(self).playlist@.current
                },
                PlayerEvent::TrackEnded => match advance_index(
                    old(self).playlist@.items.len(),
                    old(self).playlist@.current,
                    old(self).playlist@.repeat,
                ) {
                    Some(j) => {
                        &&& final(self).playlist@.current == Some(j as usize)
                        &&& r.requests@ == seq![
                            PlayerRequest::PlayItem(old(self).playlist@.items[j]),
                        ]
                        &&& r.set_playing is None
                        &&& r.now_playing is None
                        &&& final(self).playing == old(self).playing
                    },
                    None => {
                        &&& final(self).playlist@.current is None
                        &&& r.requests@.len() == 0
                        &&& r.set_playing == Some(false)
                        &&& !final(self).playing
                        &&& r.now_playing is Some
                        &&& r.now_playing->Some_0@ == nothing_playing()
                    },
                },
                PlayerEvent::PlaybackPaused => {
                    &&& r.set_playing == Some(false)
                    &&& !final(self).playing
                    &&& quiet_but_playing(r)
                    &&& final(self).playlist@.current == old(self).playlist@.current
                },
                PlayerEvent::PlaybackResumed => {
                    &&& r.set_playing == Some(true)
                    &&& final(self).playing
                    &&& quiet_but_playing(r)
                    &&& final(self).playlist@.current == old(self).playlist@.current
                },
                PlayerEvent::Error(msg) => {
                    &&& r.error == Some(msg)
                    &&& r.requests@.len() == 0
                    &&& r.set_playing is None
                    &&& final(self).playing == old(self).playing
                    &&& final(self).playlist@.current == old(self).playlist@.current
                },
            },
            !r.save_config,
            !r.playlist_changed,
            r.viz_size is None,
            r.viz_visible is None,
            r.skipped@.len() == 0,
    {
        let mut e = no_effects();
        match evt {
            PlayerEvent::TrackStarted { item, .. } => {
                e.now_playing = Some(item.display_name);
                e.refresh_index = true;
                e.set_playing = Some(true);
                self.playing = true;
            },
            PlayerEvent::TrackEnded => {
                let next = self.playlist.advance();
                match next {
                    Some(it) => {
                        e.requests.push(PlayerRequest::PlayItem(it));
                        assert(e.requests@ =~= seq![PlayerRequest::PlayItem(it)]);
                    },
                    None => {
                        e.set_playing = Some(false);
                        self.playing = false;
                        proof {
                            reveal_strlit("Nothing playing");
                        }
                        e.now_playing = Some("Nothing playing".to_owned());
                    },
                }
            },
            PlayerEvent::PlaybackPaused => {
                e.set_playing = Some(false);
                self.playing = false;
            },
            PlayerEvent::PlaybackResumed => {
                e.set_playing = Some(true);
                self.playing = true;
            },
            PlayerEvent::Error(msg) => {
                e.error = Some(msg);
            },
        }
        e
    }
}

} // verus!
