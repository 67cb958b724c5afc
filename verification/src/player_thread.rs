use vstd::prelude::*;

use crate::playlist::{paths_equal, PlaylistItem};
use vstd::string::StringExecFns;

verus! {

/// Width of the piano-roll canvas the player renders into.
pub const PLAYER_CANVAS_W: u32 = 960;

/// Height of the piano-roll canvas the player renders into.
pub const PLAYER_CANVAS_H: u32 = 540;

/// Number of bytes of one RGBA canvas frame.
pub open spec fn canvas_bytes() -> nat {
    (PLAYER_CANVAS_W * PLAYER_CANVAS_H * 4) as nat
}

/// An all-zero (transparent black) RGBA frame of the canvas size.
pub fn blank_frame() -> (frame: Vec<u8>)
    ensures
        frame@.len() == canvas_bytes(),
        forall|i: int| 0 <= i < frame@.len() ==> frame@[i] == 0u8,
{
    let n: usize = (PLAYER_CANVAS_W * PLAYER_CANVAS_H * 4) as usize;
    vec![0u8; n]
}


/// Which renderer produces the visualization frames.
#[derive(Clone, Copy, Debug, PartialEq, Eq, Structural)]
pub enum ViewMode {
    /// The classic 2D piano roll.
    Classic,
    /// Falling notes in a trapezoidal perspective view.
    Perspective,
}

/// Control messages from the GUI to the player thread.
#[derive(Clone, Debug)]
pub enum PlayerRequest {
    /// Play a specific item; replaces the current track.
    PlayItem(PlaylistItem),
    Pause,
    Resume,
    /// Play the item after the current one in the thread's playlist.
    NextTrack,
    /// Play the item before the current one in the thread's playlist.
    PreviousTrack,
    /// Master volume, 255 = full, 0 = silent.
    SetVolume(u8),
    /// Replace the thread's playlist entirely.
    SetPlaylist(Vec<PlaylistItem>),
    /// Anti-aliased note rendering; persists across track loads.
    SetAntiAliasing(bool),
    /// When set, the current track loops forever instead of ending after
    /// one detected loop.
    SetRepeatTrack(bool),
    /// Choose the visualization renderer.
    SetViewMode(ViewMode),
    Terminate,
}

/// Notifications from the player thread to the GUI.
#[derive(Clone, Debug)]
pub enum PlayerEvent {
    /// A new track actually started playing.
    TrackStarted { index_hint: Option<usize>, item: PlaylistItem },
    /// The current track ended on its own (end marker, duration or loop).
    TrackEnded,
    PlaybackPaused,
    PlaybackResumed,
    Error(String),
}

/// `a` and `b` are spelled alike: the same path text and the same subsong.
pub open spec fn same_spelling(a: PlaylistItem, b: PlaylistItem) -> bool {
    a.file_path@ == b.file_path@ && a.track_index == b.track_index
}

/// A possible outcome of comparing `item` with every item of `s` by subsong
/// and by the platform's path comparison: `hits[j]` says whether item `j`
/// was taken for `item`. Only an item of the same subsong can be taken, and
/// an item spelled like `item` always is.
pub open spec fn possible_hits(s: Seq<PlaylistItem>, item: PlaylistItem, hits: Seq<bool>) -> bool {
    &&& hits.len() == s.len()
    &&& forall|j: int| 0 <= j < s.len() && #[trigger] hits[j] ==> s[j].track_index == item.track_index
    &&& forall|j: int| 0 <= j < s.len() && same_spelling(#[trigger] s[j], item) ==> hits[j]
}

/// The outcome in which exactly the items spelled like `item` are taken for
/// it: what every platform gives when each path is spelled one way only.
pub open spec fn exact_hits(s: Seq<PlaylistItem>, item: PlaylistItem) -> Seq<bool> {
    Seq::new(s.len(), |j: int| same_spelling(s[j], item))
}

/// `k` is the first hit.
pub open spec fn is_first_hit(hits: Seq<bool>, k: int) -> bool {
    &&& 0 <= k < hits.len()
    &&& hits[k]
    &&& forall|j: int| 0 <= j < k ==> !hits[j]
}

/// Position of the first hit, if any.
pub open spec fn first_hit(hits: Seq<bool>) -> Option<int> {
    if exists|k: int| is_first_hit(hits, k) {
        Some(choose|k: int| is_first_hit(hits, k))
    } else {
        None
    }
}

proof fn lemma_first_hit(hits: Seq<bool>, k: int)
    requires
        is_first_hit(hits, k),
    ensures
        first_hit(hits) == Some(k),
{
    let c = choose|m: int| is_first_hit(hits, m);
    assert(is_first_hit(hits, c));
    if c < k {
        assert(!hits[c]);
    } else if c > k {
        assert(!hits[k]);
    }
}

proof fn lemma_no_hit(hits: Seq<bool>)
    requires
        forall|j: int| 0 <= j < hits.len() ==> !hits[j],
    ensures
        first_hit(hits) is None,
{
    assert forall|m: int| !is_first_hit(hits, m) by {
        if is_first_hit(hits, m) {
            assert(!hits[m]);
        }
    }
}

/// An `Option<usize>` position as an `Option<int>`.
pub open spec fn as_position(r: Option<usize>) -> Option<int> {
    match r {
        Some(k) => Some(k as int),
        None => None,
    }
}

/// Position of the first item of `playlist` naming the same subsong as
/// `item`: same track number and, by the platform's path comparison, the
/// same file. An item spelled exactly like `item` is always found, so the
/// result is never past the first such item.
pub fn find_index(playlist: &[PlaylistItem], item: &PlaylistItem) -> (r: Option<usize>)
    ensures
        exists|hits: Seq<bool>|
            possible_hits(playlist@, *item, hits) && as_position(r) == #[trigger] first_hit(hits),
        r matches Some(k) ==> k < playlist@.len() && playlist@[k as int].track_index
            == item.track_index,
        r matches Some(k) ==> forall|j: int| 0 <= j < k ==> !same_spelling(playlist@[j], *item),
        r is None ==> forall|j: int| 0 <= j < playlist@.len() ==> !same_spelling(playlist@[j], *item),
{
    let ghost s = playlist@;
    let ghost mut hits: Seq<bool> = Seq::empty();
    let mut k: usize = 0;
    while k < playlist.len()
        invariant
            s == playlist@,
            k <= s.len(),
            hits.len() == k,
            forall|j: int| 0 <= j < k ==> !hits[j],
            forall|j: int| 0 <= j < k ==> !same_spelling(#[trigger] s[j], *item),
        decreases s.len() - k,
    {
        let x = &playlist[k];
        if x.track_index == item.track_index && paths_equal(x.file_path.as_str(), item.file_path.as_str()) {
            proof {
                let full = hits.push(true) + Seq::new(
                    (s.len() - k - 1) as nat,
                    |j: int| same_spelling(s[k + 1 + j], *item),
                );
                assert(is_first_hit(full, k as int));
                lemma_first_hit(full, k as int);
                assert forall|j: int| 0 <= j < s.len() && #[trigger] full[j] implies s[j].track_index
                    == item.track_index by {
                    if j > k {
                        assert(full[j] == same_spelling(s[j], *item));
                    }
                }
                assert forall|j: int| 0 <= j < s.len() && same_spelling(#[trigger] s[j], *item)
                    implies full[j] by {
                    if j > k {
                        assert(full[j] == same_spelling(s[j], *item));
                    }
                }
                assert(possible_hits(s, *item, full));
            }
            return Some(k);
        }
        proof {
            hits = hits.push(false);
        }
        k = k + 1;
    }
    proof {
        lemma_no_hit(hits);
        assert(possible_hits(s, *item, hits));
    }
    None
}

/// No two items of `s` are spelled alike.
pub open spec fn distinct_spellings(s: Seq<PlaylistItem>) -> bool {
    forall|a: int, b: int| 0 <= a < b < s.len() ==> !same_spelling(s[a], s[b])
}

/// Index that "next" aims at, given where the current item was found: one
/// past it, or the start when it was not found.
pub open spec fn after(found: Option<int>) -> int {
    match found {
        Some(k) => k + 1,
        None => 0,
    }
}

/// Index that "previous" aims at, given where the current item was found:
/// one before it (staying at the first item), or the start when it was not
/// found.
pub open spec fn before(found: Option<int>) -> int {
    match found {
        Some(k) => if k == 0 {
            0
        } else {
            k - 1
        },
        None => 0,
    }
}

/// With every path spelled one way, in a playlist where no two items are
/// spelled alike, stepping back from the item after position `i` returns to
/// position `i`, and stepping forward from the item before it does too.
pub proof fn prev_undoes_next(s: Seq<PlaylistItem>, i: int)
    requires
        distinct_spellings(s),
        0 <= i < s.len(),
    ensures
        possible_hits(s, s[i], exact_hits(s, s[i])),
        after(first_hit(exact_hits(s, s[i]))) == i + 1,
        i + 1 < s.len() ==> before(first_hit(exact_hits(s, s[i + 1]))) == i,
        i > 0 ==> after(first_hit(exact_hits(s, s[i - 1]))) == i,
{
    assert(is_first_hit(exact_hits(s, s[i]), i));
    lemma_first_hit(exact_hits(s, s[i]), i);
    if i + 1 < s.len() {
        assert(is_first_hit(exact_hits(s, s[i + 1]), i + 1));
        lemma_first_hit(exact_hits(s, s[i + 1]), i + 1);
    }
    if i > 0 {
        assert(is_first_hit(exact_hits(s, s[i - 1]), i - 1));
        lemma_first_hit(exact_hits(s, s[i - 1]), i - 1);
    }
}

/// The item at position `k` of `s`, if there is one.
pub open spec fn item_at(s: Seq<PlaylistItem>, k: int) -> Option<PlaylistItem> {
    if 0 <= k < s.len() {
        Some(s[k])
    } else {
        None
    }
}

/// `r` is what "next" (`forward`) or "previous" gives in `s` from `current`:
/// the first item with no current item, else the item after (before) where
/// `current` was found, for some possible outcome of looking it up.
pub open spec fn is_step_from(
    s: Seq<PlaylistItem>,
    current: Option<PlaylistItem>,
    forward: bool,
    r: Option<PlaylistItem>,
) -> bool {
    match current {
        None => r == item_at(s, 0),
        Some(c) => exists|hits: Seq<bool>|
            possible_hits(s, c, hits) && r == item_at(
                s,
                if forward {
                    after(#[trigger] first_hit(hits))
                } else {
                    before(first_hit(hits))
                },
            ),
    }
}

/// An `Option<&PlaylistItem>` as the item it holds.
pub open spec fn deref_item(current: Option<&PlaylistItem>) -> Option<PlaylistItem> {
    match current {
        Some(c) => Some(*c),
        None => None,
    }
}

/// The item after `current` in `playlist`; `None` past the end.
pub fn next_in_list(playlist: &[PlaylistItem], current: Option<&PlaylistItem>) -> (r: Option<
    PlaylistItem,
>)
    ensures
        is_step_from(playlist@, deref_item(current), true, r),
{
    if playlist.len() == 0 {
        proof {
            if let Some(c) = current {
                let hits = Seq::<bool>::empty();
                lemma_no_hit(hits);
                assert(possible_hits(playlist@, *c, hits));
            }
        }
        return None;
    }
    let idx: usize = match current {
        Some(cur) => match find_index(playlist, cur) {
            Some(i) => i + 1,
            None => 0,
        },
        None => 0,
    };
    if idx < playlist.len() {
        Some(playlist[idx].clone())
    } else {
        None
    }
}

/// The item before `current` in `playlist`.
pub fn prev_in_list(playlist: &[PlaylistItem], current: Option<&PlaylistItem>) -> (r: Option<
    PlaylistItem,
>)
    ensures
        is_step_from(playlist@, deref_item(current), false, r),
{
    if playlist.len() == 0 {
        proof {
            if let Some(c) = current {
                let hits = Seq::<bool>::empty();
                lemma_no_hit(hits);
                assert(possible_hits(playlist@, *c, hits));
            }
        }
        return None;
    }
    let idx: usize = match current {
        Some(cur) => match find_index(playlist, cur) {
            Some(i) => if i == 0 {
                0
            } else {
                i - 1
            },
            None => 0,
        },
        None => 0,
    };
    if idx < playlist.len() {
        Some(playlist[idx].clone())
    } else {
        None
    }
}

/// Frames without movement of the driver's song-data pointer after which
/// the song counts as over (about 2 s of NTSC frames).
pub const STALL_FRAMES: u64 = 120;

/// Frames of silence on all channels after which a song without a position
/// pointer counts as over (about 5 s of NTSC frames).
pub const SILENCE_FRAMES: u64 = 300;

/// A scripted run through `items` (the headless smoke test): once a track
/// has ended, the item to play next and the index after it, or `None` when
/// the list is done.
pub fn scripted_next(items: &[PlaylistItem], next_index: usize) -> (r: Option<(PlaylistItem, usize)>)
    ensures
        match r {
            Some((item, k)) => next_index < items@.len() && item == items@[next_index as int] && k
                == next_index + 1,
            None => next_index >= items@.len(),
        },
{
    if next_index < items.len() {
        Some((items[next_index].clone(), next_index + 1))
    } else {
        None
    }
}

/// What the emulator reports at the end of an NES frame, as far as the
/// end-of-track decision needs it.
#[derive(Clone, Copy, Debug)]
pub struct PlaybackProgress {
    /// The driver's song position carries an explicit end marker (Cxx).
    pub song_end_marker: bool,
    /// Index of the most recently produced NES frame.
    pub last_frame: u64,
    /// Number of loops the FamiTracker loop detector has seen, if it runs.
    pub loop_count: Option<u32>,
    /// Some channel has sounded since the track started.
    pub note_seen: bool,
    /// Frames since the driver's song-data pointer last moved; `None` when
    /// the driver exposes no pointer.
    pub frames_since_position_moved: Option<u64>,
    /// Consecutive frames, up to now, in which every channel was silent.
    pub silent_frames: u64,
}

/// The song has stopped: once it has sounded, its song-data pointer stayed
/// put for `STALL_FRAMES`, or, with no pointer, all channels stayed silent
/// for `SILENCE_FRAMES`.
pub open spec fn spec_song_stopped(progress: PlaybackProgress) -> bool {
    &&& progress.note_seen
    &&& match progress.frames_since_position_moved {
        Some(f) => f >= STALL_FRAMES,
        None => progress.silent_frames >= SILENCE_FRAMES,
    }
}

/// The track is over: an explicit end marker, a known duration that has
/// passed, (unless the track repeats) one detected loop, or a stopped song.
pub open spec fn spec_track_ended(
    progress: PlaybackProgress,
    duration_frames: Option<u64>,
    repeat_track: bool,
) -> bool {
    ||| progress.song_end_marker
    ||| (duration_frames matches Some(f) && progress.last_frame > f)
    ||| (!repeat_track && (progress.loop_count matches Some(c) && c >= 1))
    ||| spec_song_stopped(progress)
}

/// End-of-track decision. `duration_frames` is the item's duration expressed
/// in NES frames, when the item has one.
pub fn track_ended(progress: &PlaybackProgress, duration_frames: Option<u64>, repeat_track: bool) -> (r:
    bool)
    ensures
        r == spec_track_ended(*progress, duration_frames, repeat_track),
{
    if progress.song_end_marker {
        return true;
    }
    if let Some(frames) = duration_frames {
        if progress.last_frame > frames {
            return true;
        }
    }
    if !repeat_track {
        if let Some(count) = progress.loop_count {
            if count >= 1 {
                return true;
            }
        }
    }
    if progress.note_seen {
        match progress.frames_since_position_moved {
            Some(f) => f >= STALL_FRAMES,
            None => progress.silent_frames >= SILENCE_FRAMES,
        }
    } else {
        false
    }
}

/// Per-track memory of the stall and silence detectors, fed once per NES
/// frame.
#[derive(Clone, Copy, Debug, PartialEq, Eq, Structural)]
pub struct EndWatch {
    /// Some channel has sounded since the track started.
    pub note_seen: bool,
    /// Frames since the song-data pointer last moved; `None` while the
    /// driver exposes no pointer.
    pub still_frames: Option<u64>,
    /// Consecutive silent frames up to now.
    pub silent_frames: u64,
}

/// `n + 1`, held at `u64::MAX`.
pub open spec fn bump(n: u64) -> u64 {
    if n == u64::MAX {
        n
    } else {
        (n + 1) as u64
    }
}

/// The detectors after one more frame, in which the pointer moved
/// (`Some(true)`), stayed (`Some(false)`) or is not available (`None`), and
/// some channel did or did not sound.
pub open spec fn spec_watched(w: EndWatch, position_moved: Option<bool>, audible: bool) -> EndWatch {
    EndWatch {
        note_seen: w.note_seen || audible,
        still_frames: match position_moved {
            None => None,
            Some(true) => Some(0),
            Some(false) => Some(
                bump(
                    match w.still_frames {
                        Some(f) => f,
                        None => 0,
                    },
                ),
            ),
        },
        silent_frames: if audible {
            0
        } else {
            bump(w.silent_frames)
        },
    }
}

/// The end-of-frame report built from detectors `w` and the emulator's own
/// end signals.
pub open spec fn spec_report(
    w: EndWatch,
    song_end_marker: bool,
    last_frame: u64,
    loop_count: Option<u32>,
) -> PlaybackProgress {
    PlaybackProgress {
        song_end_marker,
        last_frame,
        loop_count,
        note_seen: w.note_seen,
        frames_since_position_moved: w.still_frames,
        silent_frames: w.silent_frames,
    }
}

impl EndWatch {
    /// Detectors of a track that has just started.
    pub fn new() -> (r: Self)
        ensures
            r == (EndWatch { note_seen: false, still_frames: None, silent_frames: 0 }),
    {
        EndWatch { note_seen: false, still_frames: None, silent_frames: 0 }
    }

    /// Account for one more frame.
    pub fn observe(&mut self, position_moved: Option<bool>, audible: bool)
        ensures
            *final(self) == spec_watched(*old(self), position_moved, audible),
    {
        self.note_seen = self.note_seen || audible;
        self.still_frames = match position_moved {
            None => None,
            Some(true) => Some(0),
            Some(false) => {
                let f: u64 = match self.still_frames {
                    Some(f) => f,
                    None => 0,
                };
                Some(
                    if f == u64::MAX {
                        f
                    } else {
                        f + 1
                    },
                )
            },
        };
        self.silent_frames = if audible {
            0
        } else if self.silent_frames == u64::MAX {
            self.silent_frames
        } else {
            self.silent_frames + 1
        };
    }

    /// The end-of-frame report with these detectors filled in.
    pub fn progress(&self, song_end_marker: bool, last_frame: u64, loop_count: Option<u32>) -> (r:
        PlaybackProgress)
        ensures
            r == spec_report(*self, song_end_marker, last_frame, loop_count),
    {
        PlaybackProgress {
            song_end_marker,
            last_frame,
            loop_count,
            note_seen: self.note_seen,
            frames_since_position_moved: self.still_frames,
            silent_frames: self.silent_frames,
        }
    }
}

/// The detectors after `n` frames in which nothing sounded and the pointer
/// did as `position_moved` says.
pub open spec fn idle_frames(w: EndWatch, position_moved: Option<bool>, n: nat) -> EndWatch
    decreases n,
{
    if n == 0 {
        w
    } else {
        spec_watched(idle_frames(w, position_moved, (n - 1) as nat), position_moved, false)
    }
}

proof fn lemma_idle_counts(w: EndWatch, position_moved: Option<bool>, n: nat)
    requires
        position_moved != Some(true),
    ensures
        idle_frames(w, position_moved, n).note_seen == w.note_seen,
        idle_frames(w, position_moved, n).silent_frames >= vstd::math::min(n as int, u64::MAX as int),
        position_moved is None && n > 0 ==> idle_frames(w, position_moved, n).still_frames is None,
        position_moved == Some(false) && n > 0 ==> (idle_frames(w, position_moved, n).still_frames
            matches Some(f) && f >= vstd::math::min(n as int, u64::MAX as int)),
    decreases n,
{
    if n > 0 {
        lemma_idle_counts(w, position_moved, (n - 1) as nat);
    }
}

/// The detectors after frames in which the pointer did as `position_moved`
/// says and channels sounded as `audible` says, frame by frame.
pub open spec fn watched_frames(w: EndWatch, position_moved: Option<bool>, audible: Seq<bool>) -> EndWatch
    decreases audible.len(),
{
    if audible.len() == 0 {
        w
    } else {
        spec_watched(watched_frames(w, position_moved, audible.drop_last()), position_moved, audible.last())
    }
}

/// A frame in which the pointer stood still counts toward the stall
/// whether or not anything sounded; a frame that sounded ends any silence;
/// once a note has sounded it stays seen.
pub proof fn stall_counts_regardless_of_sound(w: EndWatch, position_moved: Option<bool>, audible: bool)
    ensures
        spec_watched(w, Some(false), audible).still_frames == Some(
            bump(
                match w.still_frames {
                    Some(f) => f,
                    None => 0,
                },
            ),
        ),
        spec_watched(w, Some(false), true).still_frames == spec_watched(w, Some(false), false).still_frames,
        spec_watched(w, Some(true), audible).still_frames == Some(0u64),
        spec_watched(w, None, audible).still_frames is None,
        spec_watched(w, position_moved, true).silent_frames == 0,
        spec_watched(w, position_moved, true).note_seen,
        w.note_seen ==> spec_watched(w, position_moved, audible).note_seen,
{
}

proof fn lemma_stalled_frames(w: EndWatch, audible: Seq<bool>)
    ensures
        w.note_seen ==> watched_frames(w, Some(false), audible).note_seen,
        audible.len() > 0 ==> (watched_frames(w, Some(false), audible).still_frames matches Some(f) && f
            >= vstd::math::min(audible.len() as int, u64::MAX as int)),
    decreases audible.len(),
{
    if audible.len() > 0 {
        lemma_stalled_frames(w, audible.drop_last());
    }
}

/// Once a song has sounded, `STALL_FRAMES` frames with its song-data pointer
/// standing still end the track, whether or not channels keep sounding
/// meanwhile.
pub proof fn stall_ends_track_while_sounding(
    w: EndWatch,
    audible: Seq<bool>,
    song_end_marker: bool,
    last_frame: u64,
    loop_count: Option<u32>,
    duration_frames: Option<u64>,
    repeat_track: bool,
)
    requires
        w.note_seen,
        audible.len() >= STALL_FRAMES,
    ensures
        spec_track_ended(
            spec_report(watched_frames(w, Some(false), audible), song_end_marker, last_frame, loop_count),
            duration_frames,
            repeat_track,
        ),
{
    lemma_stalled_frames(w, audible);
}

/// Once a song has sounded, `STALL_FRAMES` silent frames with its song-data
/// pointer standing still end the track, whatever the other signals say.
pub proof fn stall_ends_track(
    w: EndWatch,
    n: nat,
    song_end_marker: bool,
    last_frame: u64,
    loop_count: Option<u32>,
    duration_frames: Option<u64>,
    repeat_track: bool,
)
    requires
        w.note_seen,
        n >= STALL_FRAMES,
    ensures
        spec_track_ended(
            spec_report(idle_frames(w, Some(false), n), song_end_marker, last_frame, loop_count),
            duration_frames,
            repeat_track,
        ),
{
    lemma_idle_counts(w, Some(false), n);
}

/// For a driver without a song-data pointer, `SILENCE_FRAMES` frames of
/// silence on every channel end a track that has sounded.
pub proof fn silence_ends_track(
    w: EndWatch,
    n: nat,
    song_end_marker: bool,
    last_frame: u64,
    loop_count: Option<u32>,
    duration_frames: Option<u64>,
    repeat_track: bool,
)
    requires
        w.note_seen,
        n >= SILENCE_FRAMES,
    ensures
        spec_track_ended(
            spec_report(idle_frames(w, None, n), song_end_marker, last_frame, loop_count),
            duration_frames,
            repeat_track,
        ),
{
    lemma_idle_counts(w, None, n);
}

/// A silent intro never ends a track by itself: before any channel has
/// sounded, however long the pointer stalls or the silence lasts, the
/// stall and silence detectors stay quiet.
pub proof fn silent_intro_keeps_playing(position_moved: Option<bool>, n: nat)
    requires
        position_moved != Some(true),
    ensures
        !spec_song_stopped(
            spec_report(
                idle_frames(EndWatch { note_seen: false, still_frames: None, silent_frames: 0 }, position_moved, n),
                false,
                0,
                None,
            ),
        ),
{
    lemma_idle_counts(
        EndWatch { note_seen: false, still_frames: None, silent_frames: 0 },
        position_moved,
        n,
    );
}

/// `a / b` rounded toward zero, as Rust's integer division does.
pub open spec fn div_toward_zero(a: int, b: int) -> int {
    if a >= 0 {
        a / b
    } else {
        -((-a) / b)
    }
}

/// A sample scaled by `volume / 255`, rounded toward zero.
pub open spec fn scaled_sample(s: i16, volume: u8) -> i16 {
    div_toward_zero(s * volume, 255) as i16
}

/// Every sample scaled by the volume, each repeated once per output channel
/// (mono to interleaved multi-channel).
pub open spec fn expanded(samples: Seq<i16>, volume: u8, channels: nat) -> Seq<i16>
    decreases samples.len(),
{
    if samples.len() == 0 {
        Seq::empty()
    } else {
        expanded(samples.drop_last(), volume, channels) + Seq::new(
            channels,
            |c: int| scaled_sample(samples.last(), volume),
        )
    }
}

proof fn lemma_expanded_len(samples: Seq<i16>, volume: u8, channels: nat)
    ensures
        expanded(samples, volume, channels).len() == samples.len() * channels,
    decreases samples.len(),
{
    if samples.len() > 0 {
        lemma_expanded_len(samples.drop_last(), volume, channels);
        assert(samples.len() * channels == (samples.len() - 1) * channels + channels) by (nonlinear_arith);
    }
}

/// Interleaving law: device sample `k * channels + c` is APU sample `k`
/// scaled by the volume, for every channel `c`.
pub proof fn expanded_interleaves(samples: Seq<i16>, volume: u8, channels: nat, k: int, c: int)
    requires
        0 <= k < samples.len(),
        0 <= c < channels,
    ensures
        k * channels + c < expanded(samples, volume, channels).len(),
        expanded(samples, volume, channels)[k * channels + c] == scaled_sample(samples[k], volume),
    decreases samples.len(),
{
    lemma_expanded_len(samples, volume, channels);
    let n = samples.len();
    let front = samples.drop_last();
    lemma_expanded_len(front, volume, channels);
    assert(k * channels + c < n * channels) by (nonlinear_arith)
        requires 0 <= k < n, 0 <= c < channels;
    if k < n - 1 {
        expanded_interleaves(front, volume, channels, k, c);
        assert(k * channels + c < (n - 1) * channels) by (nonlinear_arith)
            requires 0 <= k < n - 1, 0 <= c < channels;
    } else {
        assert(k * channels == (n - 1) * channels);
    }
}

/// Scale one sample by `volume / 255`, rounding toward zero.
pub fn scale_sample(s: i16, volume: u8) -> (r: i16)
    ensures
        r == scaled_sample(s, volume),
        s >= 0 ==> 0 <= r <= s,
        s < 0 ==> s <= r <= 0,
{
    let v: i32 = volume as i32;
    if s >= 0 {
        assert(0 <= s * v <= s * 255 <= 32767 * 255) by (nonlinear_arith)
            requires 0 <= s <= 32767, 0 <= v <= 255;
        let p: i32 = s as i32 * v;
        let q: i32 = p / 255;
        assert(q <= s) by (nonlinear_arith)
            requires q == p / 255, 0 <= p <= s * 255;
        q as i16
    } else {
        let n: i32 = -(s as i32);
        assert(0 <= n * v <= n * 255 <= 32768 * 255) by (nonlinear_arith)
            requires 0 < n <= 32768, 0 <= v <= 255;
        let p: i32 = n * v;
        let q: i32 = p / 255;
        assert(q <= n) by (nonlinear_arith)
            requires q == p / 255, 0 <= p <= n * 255;
        assert(s * v == -p) by (nonlinear_arith)
            requires p == n * v, n == -s;
        (-q) as i16
    }
}

/// The block of interleaved device samples that one frame of mono APU output
/// becomes: each sample scaled by the volume, repeated per channel.
pub fn scale_and_expand(samples: &[i16], volume: u8, channels: u16) -> (out: Vec<i16>)
    requires
        samples@.len() * channels <= usize::MAX,
    ensures
        out@ == expanded(samples@, volume, channels as nat),
        out@.len() == samples@.len() * channels,
{
    let mut out: Vec<i16> = Vec::new();
    let mut i: usize = 0;
    while i < samples.len()
        invariant
            i <= samples@.len(),
            out@ == expanded(samples@.take(i as int), volume, channels as nat),
        decreases samples@.len() - i,
    {
        let x = scale_sample(samples[i], volume);
        let ghost before = out@;
        let mut c: u16 = 0;
        while c < channels
            invariant
                c <= channels,
                out@ == before + Seq::new(c as nat, |j: int| x),
            decreases channels - c,
        {
            out.push(x);
            c = c + 1;
            assert(out@ =~= before + Seq::new(c as nat, |j: int| x));
        }
        assert(samples@.take(i + 1).drop_last() =~= samples@.take(i as int));
        assert(samples@.take(i + 1).last() == samples@[i as int]);
        i = i + 1;
    }
    assert(samples@.take(samples@.len() as int) =~= samples@);
    proof {
        lemma_expanded_len(samples@, volume, channels as nat);
    }
    out
}

/// Ceiling on prefill iterations, so a silent emulator cannot spin forever.
pub const PREFILL_GUARD: u32 = 600;

/// The prefill goes on: fewer than `target` samples are `queued` and the
/// `guard` steps taken so far are below the ceiling.
pub open spec fn spec_prefill_step(queued: usize, target: usize, guard: u32) -> bool {
    guard < PREFILL_GUARD && queued < target
}

/// Whether the prefill runs one more emulator step, given what is queued.
pub fn prefill_step(queued: usize, target: usize, guard: u32) -> (r: bool)
    ensures
        r == spec_prefill_step(queued, target, guard),
{
    guard < PREFILL_GUARD && queued < target
}

/// Milliseconds of audio queued before a newly loaded track starts.
pub const PREFILL_MS: u32 = 150;

/// How many queued device samples the prefill aims for: `target_ms` of audio
/// at the device rate and channel count, but never closer than 64 samples
/// to the ring's capacity.
pub fn prefill_target(sample_rate: u32, channels: u16, target_ms: u32, capacity: usize) -> (r:
    usize)
    requires
        (sample_rate * target_ms / 1000) * channels <= usize::MAX,
    ensures
        r == vstd::math::min(
            (sample_rate * target_ms / 1000) * channels,
            if capacity >= 64 {
                capacity - 64
            } else {
                0
            },
        ),
{
    assert(sample_rate * target_ms <= 0xffff_ffffu64 * 0xffff_ffffu64) by (nonlinear_arith)
        requires sample_rate <= 0xffff_ffffu32, target_ms <= 0xffff_ffffu32;
    let ms: u64 = sample_rate as u64 * target_ms as u64;
    let per_channel: u64 = ms / 1000;
    let target_samples: usize = if channels == 0 {
        0
    } else {
        assert(per_channel <= usize::MAX) by (nonlinear_arith)
            requires per_channel * channels <= usize::MAX, channels >= 1;
        (per_channel as usize) * (channels as usize)
    };
    let room: usize = capacity.saturating_sub(64);
    if target_samples < room {
        target_samples
    } else {
        room
    }
}

/// Visual sub-frames per NES frame (about 240 Hz of screen updates).
pub const SUB_FRAMES_PER_FRAME: u32 = 4;

/// Scanlines emulated in sub-frame `sub_index` of a frame of `total`
/// scanlines: an even share, with the remainder in the last sub-frame.
pub open spec fn spec_subframe_scanlines(total: u32, sub_index: u32) -> int {
    if sub_index == SUB_FRAMES_PER_FRAME - 1 {
        total - (total / SUB_FRAMES_PER_FRAME) * (SUB_FRAMES_PER_FRAME - 1)
    } else {
        (total / SUB_FRAMES_PER_FRAME) as int
    }
}

pub fn subframe_scanlines(total: u32, sub_index: u32) -> (r: u32)
    requires
        sub_index < SUB_FRAMES_PER_FRAME,
    ensures
        r == spec_subframe_scanlines(total, sub_index),
{
    let per: u32 = total / SUB_FRAMES_PER_FRAME;
    if sub_index == SUB_FRAMES_PER_FRAME - 1 {
        total - per * (SUB_FRAMES_PER_FRAME - 1)
    } else {
        per
    }
}

/// The sub-frames of one NES frame together emulate exactly the frame's
/// scanlines.
pub proof fn subframes_cover_frame(total: u32)
    ensures
        spec_subframe_scanlines(total, 0) + spec_subframe_scanlines(total, 1)
            + spec_subframe_scanlines(total, 2) + spec_subframe_scanlines(total, 3) == total,
{
}

/// One step of emulating and showing an NES frame.
#[derive(Clone, Copy, Debug, PartialEq, Eq, Structural)]
pub enum FrameStep {
    /// Wait for the next sub-frame deadline (when pacing).
    Pace,
    /// Emulate this many scanlines.
    Emulate(u32),
    /// Render the picture and hand it to the GUI.
    Publish,
}

/// The steps of one NES frame of `total` scanlines: for each sub-frame in
/// turn, wait for its deadline, emulate its share of scanlines, publish.
pub open spec fn spec_frame_steps(total: u32) -> Seq<FrameStep> {
    Seq::new(
        3 * SUB_FRAMES_PER_FRAME as nat,
        |i: int|
            if i % 3 == 0 {
                FrameStep::Pace
            } else if i % 3 == 1 {
                FrameStep::Emulate(spec_subframe_scanlines(total, (i / 3) as u32) as u32)
            } else {
                FrameStep::Publish
            },
    )
}

/// The steps of one NES frame of `total` scanlines (see `spec_frame_steps`).
pub fn frame_steps(total: u32) -> (r: Vec<FrameStep>)
    ensures
        r@ == spec_frame_steps(total),
{
    let mut r: Vec<FrameStep> = Vec::new();
    let mut sub: u32 = 0;
    while sub < SUB_FRAMES_PER_FRAME
        invariant
            sub <= SUB_FRAMES_PER_FRAME,
            r@ == spec_frame_steps(total).take(3 * sub as int),
        decreases SUB_FRAMES_PER_FRAME - sub,
    {
        let n = subframe_scanlines(total, sub);
        r.push(FrameStep::Pace);
        r.push(FrameStep::Emulate(n));
        r.push(FrameStep::Publish);
        let ghost want = spec_frame_steps(total);
        assert(want[3 * sub as int] == FrameStep::Pace);
        assert(want[3 * sub + 1] == FrameStep::Emulate(n)) by {
            assert((3 * sub + 1) / 3 == sub as int);
        }
        assert(want[3 * sub + 2] == FrameStep::Publish);
        assert(r@ =~= want.take(3 * sub + 3));
        sub = sub + 1;
    }
    assert(spec_frame_steps(total).take(3 * SUB_FRAMES_PER_FRAME as int) =~= spec_frame_steps(total));
    r
}

/// Every NES frame is shown as `SUB_FRAMES_PER_FRAME` pictures: its steps
/// publish once per sub-frame, each right after that sub-frame's share of
/// scanlines, and the shares add up to the whole frame.
pub proof fn frame_publishes_each_subframe(total: u32)
    ensures
        spec_frame_steps(total).len() == 3 * SUB_FRAMES_PER_FRAME,
        forall|sub: int|
            0 <= sub < SUB_FRAMES_PER_FRAME ==> {
                &&& spec_frame_steps(total)[3 * sub] == FrameStep::Pace
                &&& spec_frame_steps(total)[3 * sub + 1] == FrameStep::Emulate(
                    spec_subframe_scanlines(total, sub as u32) as u32,
                )
                &&& #[trigger] spec_frame_steps(total)[3 * sub + 2] == FrameStep::Publish
            },
        spec_subframe_scanlines(total, 0) + spec_subframe_scanlines(total, 1)
            + spec_subframe_scanlines(total, 2) + spec_subframe_scanlines(total, 3) == total,
{
    assert forall|sub: int| 0 <= sub < SUB_FRAMES_PER_FRAME implies {
        &&& spec_frame_steps(total)[3 * sub] == FrameStep::Pace
        &&& spec_frame_steps(total)[3 * sub + 1] == FrameStep::Emulate(
            spec_subframe_scanlines(total, sub as u32) as u32,
        )
        &&& #[trigger] spec_frame_steps(total)[3 * sub + 2] == FrameStep::Publish
    } by {
        assert((3 * sub) / 3 == sub && (3 * sub) % 3 == 0);
        assert((3 * sub + 1) / 3 == sub && (3 * sub + 1) % 3 == 1);
        assert((3 * sub + 2) % 3 == 2);
    }
}

/// One step of waiting for a wall-clock deadline.
#[derive(Clone, Copy, Debug, PartialEq, Eq, Structural)]
pub enum PaceStep {
    /// The deadline has passed.
    Done,
    /// Sleep this many nanoseconds, then look again.
    Sleep(u64),
    /// Busy-wait the last stretch (sleep would overshoot).
    Spin,
}

/// Sleeping granularity: further than 1.5 ms from the deadline, sleep until
/// 1 ms before it; closer, spin.
pub fn pace_step(remaining_ns: u64) -> (r: PaceStep)
    ensures
        remaining_ns == 0 ==> r == PaceStep::Done,
        remaining_ns > 1_500_000 ==> r == PaceStep::Sleep((remaining_ns - 1_000_000) as u64),
        0 < remaining_ns <= 1_500_000 ==> r == PaceStep::Spin,
{
    if remaining_ns == 0 {
        PaceStep::Done
    } else if remaining_ns > 1_500_000 {
        PaceStep::Sleep(remaining_ns - 1_000_000)
    } else {
        PaceStep::Spin
    }
}

/// Deadline of the next sub-frame, in nanoseconds from a fixed origin. One
/// period after the last one, unless the player fell more than eight periods
/// behind (e.g. after a long pause): then one period from now.
pub fn next_subframe_deadline(target_ns: u64, now_ns: u64, period_ns: u64) -> (r: u64)
    requires
        target_ns + 8 * period_ns <= u64::MAX,
        now_ns + period_ns <= u64::MAX,
    ensures
        now_ns > target_ns + 8 * period_ns ==> r == now_ns + period_ns,
        now_ns <= target_ns + 8 * period_ns ==> r == target_ns + period_ns,
{
    if now_ns > target_ns + period_ns * 8 {
        now_ns + period_ns
    } else {
        target_ns + period_ns
    }
}


/// Outside work the player thread performs for the core, in the order given.
#[derive(Debug)]
pub enum PlayerAction {
    /// Load this item into a fresh emulator, then report with
    /// `load_succeeded` or `load_failed`.
    LoadTrack(PlaylistItem),
    /// Configure the loaded emulator's note edges (`true` = crisp, no AA).
    SetDisableAa(bool),
    /// Queue ~150 ms of audio at this volume before playback starts.
    Prefill(u8),
    /// Pace sub-frames from now on.
    RestartPacing,
    /// Forget the pacing deadline.
    StopPacing,
    /// Tell the audio callback whether an empty ring is an underrun.
    AudioExpected(bool),
    /// Send this event to the GUI.
    Emit(PlayerEvent),
}

/// How the player thread waits for the next request.
#[derive(Clone, Copy, Debug, PartialEq, Eq, Structural)]
pub enum ReceiveMode {
    /// Stop draining requests: the thread is shutting down.
    Stop,
    /// Take a request only if one is waiting (a track is playing).
    Poll,
    /// Block until a request arrives (paused, or nothing loaded).
    Block,
}

/// A track load the player thread is carrying out.
#[derive(Debug)]
pub struct PendingLoad {
    pub item: PlaylistItem,
    /// The load was asked for explicitly (`PlayItem`): if it fails, nothing
    /// plays any more. Next/previous failures keep the current track.
    pub replaces_current: bool,
}

/// Decision state of the player thread: everything but the emulator, the
/// audio ring and the clock.
#[derive(Debug)]
pub struct PlayerCore {
    /// The thread's copy of the playlist, for next/previous.
    pub playlist: Vec<PlaylistItem>,
    /// The item that is loaded, if any.
    pub current: Option<PlaylistItem>,
    pub pending: Option<PendingLoad>,
    pub paused: bool,
    pub volume: u8,
    pub anti_aliasing: bool,
    pub repeat_track: bool,
    pub view_mode: ViewMode,
    pub terminating: bool,
}

/// The settings a request leaves alone are those of `a` and `b` alike.
pub open spec fn settings_unchanged(a: PlayerCore, b: PlayerCore) -> bool {
    &&& a.volume == b.volume
    &&& a.anti_aliasing == b.anti_aliasing
    &&& a.repeat_track == b.repeat_track
    &&& a.view_mode == b.view_mode
}

/// How the thread waits, given its state.
pub open spec fn spec_receive_mode(c: PlayerCore) -> ReceiveMode {
    if c.terminating {
        ReceiveMode::Stop
    } else if c.current is Some && !c.paused {
        ReceiveMode::Poll
    } else {
        ReceiveMode::Block
    }
}

/// What "next" (`forward`) or "previous" gives in the thread's playlist
/// from its current item: a possible `nb`, whose load is asked for.
pub open spec fn neighbour_load(o: PlayerCore, forward: bool, n: PlayerCore, a: Seq<PlayerAction>) -> bool {
    exists|nb: Option<PlaylistItem>|
        #[trigger] is_step_from(o.playlist@, o.current, forward, nb) && match nb {
            Some(item) => n.pending == Some(PendingLoad { item, replaces_current: false }) && a
                =~= seq![PlayerAction::LoadTrack(item)],
            None => n.pending is None && a.len() == 0,
        }
}

/// What one request does to the core `o`, giving core `n` and actions `a`.
pub open spec fn request_step(o: PlayerCore, req: PlayerRequest, n: PlayerCore, a: Seq<PlayerAction>) -> bool {
    match req {
        PlayerRequest::PlayItem(item) => {
            &&& n.pending == Some(PendingLoad { item, replaces_current: true })
            &&& a =~= seq![PlayerAction::LoadTrack(item)]
            &&& n.current == o.current
            &&& n.playlist == o.playlist
            &&& n.paused == o.paused
            &&& !n.terminating
            &&& settings_unchanged(n, o)
        },
        PlayerRequest::NextTrack | PlayerRequest::PreviousTrack => {
            &&& neighbour_load(o, req is NextTrack, n, a)
            &&& n.current == o.current
            &&& n.playlist == o.playlist
            &&& n.paused == o.paused
            &&& !n.terminating
            &&& settings_unchanged(n, o)
        },
        PlayerRequest::Pause => {
            &&& n.paused
            &&& spec_receive_mode(n) == ReceiveMode::Block
            &&& a =~= seq![
                PlayerAction::AudioExpected(false),
                PlayerAction::Emit(PlayerEvent::PlaybackPaused),
            ]
            &&& n.current == o.current
            &&& n.playlist == o.playlist
            &&& n.pending is None
            &&& !n.terminating
            &&& settings_unchanged(n, o)
        },
        PlayerRequest::Resume => {
            &&& !n.paused
            &&& spec_receive_mode(n) == if o.current is Some {
                ReceiveMode::Poll
            } else {
                ReceiveMode::Block
            }
            &&& a =~= if o.current is Some {
                seq![
                    PlayerAction::RestartPacing,
                    PlayerAction::AudioExpected(true),
                    PlayerAction::Emit(PlayerEvent::PlaybackResumed),
                ]
            } else {
                seq![PlayerAction::Emit(PlayerEvent::PlaybackResumed)]
            }
            &&& n.current == o.current
            &&& n.playlist == o.playlist
            &&& n.pending is None
            &&& !n.terminating
            &&& settings_unchanged(n, o)
        },
        PlayerRequest::SetVolume(v) => {
            &&& n.volume == v
            &&& a.len() == 0
            &&& n.anti_aliasing == o.anti_aliasing
            &&& n.repeat_track == o.repeat_track
            &&& n.view_mode == o.view_mode
            &&& n.current == o.current
            &&& n.playlist == o.playlist
            &&& n.paused == o.paused
            &&& n.pending is None
            &&& !n.terminating
        },
        PlayerRequest::SetPlaylist(items) => {
            &&& n.playlist@ == items@
            &&& a.len() == 0
            &&& n.current == o.current
            &&& n.paused == o.paused
            &&& n.pending is None
            &&& !n.terminating
            &&& settings_unchanged(n, o)
        },
        PlayerRequest::SetAntiAliasing(on) => {
            &&& n.anti_aliasing == on
            &&& a =~= if o.current is Some {
                seq![PlayerAction::SetDisableAa(!on)]
            } else {
                Seq::<PlayerAction>::empty()
            }
            &&& n.volume == o.volume
            &&& n.repeat_track == o.repeat_track
            &&& n.view_mode == o.view_mode
            &&& n.current == o.current
            &&& n.playlist == o.playlist
            &&& n.paused == o.paused
            &&& n.pending is None
            &&& !n.terminating
        },
        PlayerRequest::SetRepeatTrack(on) => {
            &&& n.repeat_track == on
            &&& a.len() == 0
            &&& n.volume == o.volume
            &&& n.anti_aliasing == o.anti_aliasing
            &&& n.view_mode == o.view_mode
            &&& n.current == o.current
            &&& n.playlist == o.playlist
            &&& n.paused == o.paused
            &&& n.pending is None
            &&& !n.terminating
        },
        PlayerRequest::SetViewMode(m) => {
            &&& n.view_mode == m
            &&& a.len() == 0
            &&& n.volume == o.volume
            &&& n.anti_aliasing == o.anti_aliasing
            &&& n.repeat_track == o.repeat_track
            &&& n.current == o.current
            &&& n.playlist == o.playlist
            &&& n.paused == o.paused
            &&& n.pending is None
            &&& !n.terminating
        },
        PlayerRequest::Terminate => {
            &&& n.terminating
            &&& spec_receive_mode(n) == ReceiveMode::Stop
            &&& a =~= seq![PlayerAction::AudioExpected(false)]
            &&& n.current == o.current
            &&& n.playlist == o.playlist
            &&& n.paused == o.paused
            &&& n.pending is None
            &&& settings_unchanged(n, o)
        },
    }
}

/// Requests that touch no track: pause, resume and the settings.
pub open spec fn is_setting_request(req: PlayerRequest) -> bool {
    ||| req is Pause
    ||| req is Resume
    ||| req is SetVolume
    ||| req is SetAntiAliasing
    ||| req is SetRepeatTrack
    ||| req is SetPlaylist
}

/// The events that a list of actions sends to the GUI, in order.
pub open spec fn emitted(a: Seq<PlayerAction>) -> Seq<PlayerEvent>
    decreases a.len(),
{
    if a.len() == 0 {
        Seq::empty()
    } else {
        emitted(a.drop_last()) + match a.last() {
            PlayerAction::Emit(e) => seq![e],
            _ => Seq::empty(),
        }
    }
}

/// The events sent over a run of requests: each request's, in order.
pub open spec fn emitted_all(acts: Seq<Seq<PlayerAction>>) -> Seq<PlayerEvent>
    decreases acts.len(),
{
    if acts.len() == 0 {
        Seq::empty()
    } else {
        emitted_all(acts.drop_last()) + emitted(acts.last())
    }
}

/// One `PlaybackPaused` per pause and one `PlaybackResumed` per resume, in
/// the order of the requests.
pub open spec fn pause_resume_events(reqs: Seq<PlayerRequest>) -> Seq<PlayerEvent>
    decreases reqs.len(),
{
    if reqs.len() == 0 {
        Seq::empty()
    } else {
        pause_resume_events(reqs.drop_last()) + match reqs.last() {
            PlayerRequest::Pause => seq![PlayerEvent::PlaybackPaused],
            PlayerRequest::Resume => seq![PlayerEvent::PlaybackResumed],
            _ => Seq::empty(),
        }
    }
}

/// With no track loaded, a run of pause, resume and settings requests loads
/// nothing and reports exactly one `PlaybackPaused` per pause and one
/// `PlaybackResumed` per resume, in request order; throughout, the thread
/// stays ready for the next request and waits for it blocking.
pub proof fn idle_requests_report_pauses_and_resumes(
    cores: Seq<PlayerCore>,
    reqs: Seq<PlayerRequest>,
    acts: Seq<Seq<PlayerAction>>,
)
    requires
        cores.len() == reqs.len() + 1,
        acts.len() == reqs.len(),
        cores[0].current is None,
        cores[0].pending is None,
        !cores[0].terminating,
        forall|i: int| 0 <= i < reqs.len() ==> is_setting_request(#[trigger] reqs[i]),
        forall|i: int|
            0 <= i < reqs.len() ==> request_step(cores[i], #[trigger] reqs[i], cores[i + 1], acts[i]),
    ensures
        emitted_all(acts) == pause_resume_events(reqs),
        forall|i: int|
            0 <= i < cores.len() ==> {
                &&& (#[trigger] cores[i]).current is None
                &&& cores[i].pending is None
                &&& !cores[i].terminating
                &&& spec_receive_mode(cores[i]) == ReceiveMode::Block
            },
    decreases reqs.len(),
{
    let n = reqs.len();
    if n > 0 {
        let m = (n - 1) as int;
        let cs = cores.drop_last();
        let rs = reqs.drop_last();
        let as_ = acts.drop_last();
        assert forall|i: int| 0 <= i < rs.len() implies is_setting_request(#[trigger] rs[i]) by {
            assert(rs[i] == reqs[i]);
        }
        assert forall|i: int| 0 <= i < rs.len() implies request_step(
            cs[i],
            #[trigger] rs[i],
            cs[i + 1],
            as_[i],
        ) by {
            assert(rs[i] == reqs[i]);
        }
        idle_requests_report_pauses_and_resumes(cs, rs, as_);
        assert(cs[m] == cores[m]);
        assert(is_setting_request(reqs[m]));
        assert(request_step(cores[m], reqs[m], cores[m + 1], acts[m]));
        let a = acts[m];
        assert(acts.last() == a);
        assert(reqs.last() == reqs[m]);
        reveal_with_fuel(emitted, 3);
        match reqs[m] {
            PlayerRequest::Pause => {
                assert(a.drop_last() =~= seq![PlayerAction::AudioExpected(false)]);
                assert(a.drop_last().drop_last() =~= Seq::<PlayerAction>::empty());
            },
            PlayerRequest::Resume => {
                assert(a.drop_last() =~= Seq::<PlayerAction>::empty());
            },
            _ => {},
        }
        assert forall|i: int| 0 <= i < cores.len() implies {
            &&& (#[trigger] cores[i]).current is None
            &&& cores[i].pending is None
            &&& !cores[i].terminating
            &&& spec_receive_mode(cores[i]) == ReceiveMode::Block
        } by {
            if i < n {
                assert(cs[i] == cores[i]);
            }
        }
    }
}

/// What a successful load does to the core `o`, giving core `n` and actions
/// `a`: the pending item becomes current with the persisted settings, and
/// its start is announced once audio is expected.
pub open spec fn load_started(o: PlayerCore, n: PlayerCore, a: Seq<PlayerAction>) -> bool {
    let item = o.pending->Some_0.item;
    &&& n.current == Some(item)
    &&& a =~= seq![
        PlayerAction::SetDisableAa(!o.anti_aliasing),
        PlayerAction::Prefill(o.volume),
        PlayerAction::RestartPacing,
        PlayerAction::AudioExpected(true),
        PlayerAction::Emit(PlayerEvent::TrackStarted { index_hint: None, item }),
    ]
    &&& n.pending is None
    &&& n.playlist == o.playlist
    &&& n.paused == o.paused
    &&& n.terminating == o.terminating
    &&& settings_unchanged(n, o)
}

/// What a failed load with error text `detail` does to the core `o`: the GUI
/// hears of it first; an explicit `PlayItem` also stops what was playing.
pub open spec fn load_refused(o: PlayerCore, n: PlayerCore, a: Seq<PlayerAction>, detail: Seq<char>) -> bool {
    let msg = PlayerEvent::Error(a[0]->Emit_0->Error_0);
    &&& a.len() > 0
    &&& a[0] is Emit
    &&& a[0]->Emit_0 is Error
    &&& a[0]->Emit_0->Error_0@ == "Failed to load track: "@ + detail
    &&& if o.pending->Some_0.replaces_current {
        &&& n.current is None
        &&& a =~= seq![
            PlayerAction::Emit(msg),
            PlayerAction::StopPacing,
            PlayerAction::AudioExpected(false),
        ]
    } else {
        &&& n.current == o.current
        &&& a =~= seq![PlayerAction::Emit(msg)]
    }
    &&& n.pending is None
    &&& n.playlist == o.playlist
    &&& n.paused == o.paused
    &&& n.terminating == o.terminating
    &&& settings_unchanged(n, o)
}

/// What the end of an NES frame with report `progress` does to the core `o`:
/// a track that is over (see `spec_track_ended`) is dropped and the GUI told.
pub open spec fn frame_ended(
    o: PlayerCore,
    progress: PlaybackProgress,
    duration_frames: Option<u64>,
    n: PlayerCore,
    a: Seq<PlayerAction>,
) -> bool {
    &&& spec_track_ended(progress, duration_frames, o.repeat_track) ==> {
        &&& n.current is None
        &&& a =~= seq![
            PlayerAction::Emit(PlayerEvent::TrackEnded),
            PlayerAction::AudioExpected(false),
        ]
    }
    &&& !spec_track_ended(progress, duration_frames, o.repeat_track) ==> {
        &&& n.current == o.current
        &&& a.len() == 0
    }
    &&& n.pending == o.pending
    &&& n.playlist == o.playlist
    &&& n.paused == o.paused
    &&& n.terminating == o.terminating
    &&& settings_unchanged(n, o)
}

/// One thing the player thread can do with its core `o`, giving core `n` and
/// actions `a`: handle a request, finish a load either way, end a frame, or
/// shut down when the GUI has gone.
#[verifier::opaque]
pub open spec fn core_step(o: PlayerCore, n: PlayerCore, a: Seq<PlayerAction>) -> bool {
    ||| (!o.terminating && o.pending is None && exists|req: PlayerRequest|
        #[trigger] request_step(o, req, n, a))
    ||| (o.pending is Some && load_started(o, n, a))
    ||| (o.pending is Some && exists|d: Seq<char>| #[trigger] load_refused(o, n, a, d))
    ||| (exists|p: PlaybackProgress, f: Option<u64>| #[trigger] frame_ended(o, p, f, n, a))
    ||| (n.terminating && n.current == o.current && a.len() == 0)
}

/// `a` announces the start of `item`: audio is expected, and then the GUI is
/// told the track started.
pub open spec fn announces_start(a: Seq<PlayerAction>, item: PlaylistItem) -> bool {
    exists|k: int|
        0 <= k && k + 1 < a.len() && #[trigger] a[k] == PlayerAction::AudioExpected(true) && a[k
            + 1] == PlayerAction::Emit(PlayerEvent::TrackStarted { index_hint: None, item })
}

/// Step `j` of a run made `item` current, announcing its start, and it has
/// stayed current up to state `i`.
pub open spec fn current_since(
    cores: Seq<PlayerCore>,
    acts: Seq<Seq<PlayerAction>>,
    i: int,
    j: int,
    item: PlaylistItem,
) -> bool {
    &&& 0 <= j < i
    &&& announces_start(acts[j], item)
    &&& forall|m: int| j < m <= i ==> #[trigger] cores[m].current == Some(item)
}

proof fn lemma_new_current_is_announced(o: PlayerCore, n: PlayerCore, a: Seq<PlayerAction>)
    requires
        core_step(o, n, a),
        n.current is Some,
        n.current != o.current,
    ensures
        announces_start(a, n.current->Some_0),
{
    reveal(core_step);
    if o.pending is Some && load_started(o, n, a) {
        assert(a[3] == PlayerAction::AudioExpected(true));
    } else if !o.terminating && o.pending is None && exists|req: PlayerRequest|
        #[trigger] request_step(o, req, n, a) {
        let req = choose|req: PlayerRequest| #[trigger] request_step(o, req, n, a);
        assert(n.current == o.current);
    }
}

proof fn lemma_current_since(cores: Seq<PlayerCore>, acts: Seq<Seq<PlayerAction>>, i: int)
    requires
        cores.len() == acts.len() + 1,
        cores[0].current is None,
        forall|k: int| 0 <= k < acts.len() ==> core_step(cores[k], cores[k + 1], #[trigger] acts[k]),
        0 <= i < cores.len(),
        cores[i].current is Some,
    ensures
        exists|j: int| current_since(cores, acts, i, j, cores[i].current->Some_0),
    decreases i,
{
    let x = cores[i].current->Some_0;
    let p = i - 1;
    assert(core_step(cores[p], cores[p + 1], acts[p]));
    if cores[p].current == cores[i].current {
        lemma_current_since(cores, acts, p);
        let j = choose|j: int| current_since(cores, acts, p, j, x);
        assert forall|m: int| j < m <= i implies #[trigger] cores[m].current == Some(x) by {
            if m < i {
                assert(cores[m].current == Some(x));
            }
        }
        assert(current_since(cores, acts, i, j, x));
    } else {
        lemma_new_current_is_announced(cores[p], cores[i], acts[p]);
        assert(current_since(cores, acts, i, p, x));
    }
}

/// A track is only ever current after the step that made it current said,
/// with audio expected, that it started, and it has stayed current since;
/// frames (which the thread runs only while a track is current) therefore
/// always follow that announcement.
pub proof fn tracks_start_before_their_frames(cores: Seq<PlayerCore>, acts: Seq<Seq<PlayerAction>>)
    requires
        cores.len() == acts.len() + 1,
        cores[0].current is None,
        forall|i: int| 0 <= i < acts.len() ==> core_step(cores[i], cores[i + 1], #[trigger] acts[i]),
    ensures
        forall|i: int|
            0 <= i < cores.len() && (#[trigger] cores[i]).current is Some ==> exists|j: int|
                current_since(cores, acts, i, j, cores[i].current->Some_0),
{
    assert forall|i: int| 0 <= i < cores.len() && (#[trigger] cores[i]).current is Some implies exists|
        j: int,
    | current_since(cores, acts, i, j, cores[i].current->Some_0) by {
        lemma_current_since(cores, acts, i);
    }
}

/// The text of a load error: `"Failed to load track: <detail>"`.
fn load_failure_message(detail: &str) -> (r: String)
    ensures
        r@ == "Failed to load track: "@ + detail@,
{
    let mut msg = String::from_str("Failed to load track: ");
    msg.append(detail);
    msg
}

impl PlayerCore {
    /// Fresh thread state: nothing loaded, full volume, crisp edges, tracks
    /// end after one loop, classic view.
    pub fn new() -> (r: Self)
        ensures
            r.playlist@.len() == 0,
            r.current is None,
            r.pending is None,
            !r.paused,
            r.volume == 255,
            !r.anti_aliasing,
            !r.repeat_track,
            r.view_mode == ViewMode::Classic,
            !r.terminating,
    {
        PlayerCore {
            playlist: Vec::new(),
            current: None,
            pending: None,
            paused: false,
            volume: 255,
            anti_aliasing: false,
            repeat_track: false,
            view_mode: ViewMode::Classic,
            terminating: false,
        }
    }

    /// Whether to stop, poll or block for the next request.
    pub fn receive_mode(&self) -> (r: ReceiveMode)
        ensures
            r == spec_receive_mode(*self),
    {
        if self.terminating {
            ReceiveMode::Stop
        } else if self.current.is_some() && !self.paused {
            ReceiveMode::Poll
        } else {
            ReceiveMode::Block
        }
    }

    /// The request channel was closed by the GUI: shut down.
    pub fn channel_closed(&mut self)
        ensures
            final(self).terminating,
            final(self).current == old(self).current,
            final(self).playlist == old(self).playlist,
            final(self).paused == old(self).paused,
            settings_unchanged(*final(self), *old(self)),
    {
        self.terminating = true;
    }

    fn start_load(&mut self, item: PlaylistItem, replaces_current: bool) -> (r: Vec<PlayerAction>)
        ensures
            final(self).pending == Some(PendingLoad { item, replaces_current }),
            r@ == seq![PlayerAction::LoadTrack(item)],
            final(self).current == old(self).current,
            final(self).playlist == old(self).playlist,
            final(self).paused == old(self).paused,
            final(self).terminating == old(self).terminating,
            settings_unchanged(*final(self), *old(self)),
    {
        let mut r: Vec<PlayerAction> = Vec::new();
        r.push(PlayerAction::LoadTrack(item.clone()));
        self.pending = Some(PendingLoad { item, replaces_current });
        r
    }

    /// Act on one request from the GUI.
    pub fn handle_request(&mut self, req: PlayerRequest) -> (r: Vec<PlayerAction>)
        requires
            !old(self).terminating,
            old(self).pending is None,
        ensures
            request_step(*old(self), req, *final(self), r@),
    {
        match req {
            PlayerRequest::PlayItem(item) => self.start_load(item, true),
            PlayerRequest::NextTrack => {
                let next = next_in_list(self.playlist.as_slice(), self.current.as_ref());
                match next {
                    Some(item) => self.start_load(item, false),
                    None => Vec::new(),
                }
            },
            PlayerRequest::PreviousTrack => {
                let prev = prev_in_list(self.playlist.as_slice(), self.current.as_ref());
                match prev {
                    Some(item) => self.start_load(item, false),
                    None => Vec::new(),
                }
            },
            PlayerRequest::Pause => {
                self.paused = true;
                let mut r: Vec<PlayerAction> = Vec::new();
                r.push(PlayerAction::AudioExpected(false));
                r.push(PlayerAction::Emit(PlayerEvent::PlaybackPaused));
                r
            },
            PlayerRequest::Resume => {
                self.paused = false;
                let mut r: Vec<PlayerAction> = Vec::new();
                if self.current.is_some() {
                    r.push(PlayerAction::RestartPacing);
                    r.push(PlayerAction::AudioExpected(true));
                }
                r.push(PlayerAction::Emit(PlayerEvent::PlaybackResumed));
                r
            },
            PlayerRequest::SetVolume(v) => {
                self.volume = v;
                Vec::new()
            },
            PlayerRequest::SetPlaylist(items) => {
                self.playlist = items;
                Vec::new()
            },
            PlayerRequest::SetAntiAliasing(on) => {
                self.anti_aliasing = on;
                let mut r: Vec<PlayerAction> = Vec::new();
                if self.current.is_some() {
                    r.push(PlayerAction::SetDisableAa(!on));
                }
                r
            },
            PlayerRequest::SetRepeatTrack(on) => {
                self.repeat_track = on;
                Vec::new()
            },
            PlayerRequest::SetViewMode(m) => {
                self.view_mode = m;
                Vec::new()
            },
            PlayerRequest::Terminate => {
                self.terminating = true;
                let mut r: Vec<PlayerAction> = Vec::new();
                r.push(PlayerAction::AudioExpected(false));
                r
            },
        }
    }

    /// The pending load worked: the new track plays with the persisted
    /// anti-aliasing choice and volume, and the GUI hears of it.
    pub fn load_succeeded(&mut self) -> (r: Vec<PlayerAction>)
        requires
            old(self).pending is Some,
        ensures
            load_started(*old(self), *final(self), r@),
    {
        let pending = self.pending.take();
        let item = match pending {
            Some(p) => p.item,
            None => {
                proof {
                    assert(false);
                }
                return Vec::new();
            },
        };
        let mut r: Vec<PlayerAction> = Vec::new();
        r.push(PlayerAction::SetDisableAa(!self.anti_aliasing));
        r.push(PlayerAction::Prefill(self.volume));
        r.push(PlayerAction::RestartPacing);
        r.push(PlayerAction::AudioExpected(true));
        r.push(PlayerAction::Emit(PlayerEvent::TrackStarted { index_hint: None, item: item.clone() }));
        self.current = Some(item);
        r
    }

    /// The pending load failed with `detail`: the GUI gets an error; an
    /// explicit `PlayItem` also stops what was playing.
    pub fn load_failed(&mut self, detail: &str) -> (r: Vec<PlayerAction>)
        requires
            old(self).pending is Some,
        ensures
            load_refused(*old(self), *final(self), r@, detail@),
    {
        let pending = self.pending.take();
        let replaces = match pending {
            Some(p) => p.replaces_current,
            None => {
                proof {
                    assert(false);
                }
                return Vec::new();
            },
        };
        let msg = load_failure_message(detail);
        let mut r: Vec<PlayerAction> = Vec::new();
        r.push(PlayerAction::Emit(PlayerEvent::Error(msg)));
        if replaces {
            self.current = None;
            r.push(PlayerAction::StopPacing);
            r.push(PlayerAction::AudioExpected(false));
        }
        r
    }

    /// Bookkeeping after one NES frame of the current track: when the track
    /// is over (see `spec_track_ended`) it is dropped and the GUI told.
    pub fn frame_finished(&mut self, progress: &PlaybackProgress, duration_frames: Option<u64>) -> (r:
        Vec<PlayerAction>)
        ensures
            frame_ended(*old(self), *progress, duration_frames, *final(self), r@),
    {
        let mut r: Vec<PlayerAction> = Vec::new();
        if track_ended(progress, duration_frames, self.repeat_track) {
            r.push(PlayerAction::Emit(PlayerEvent::TrackEnded));
            r.push(PlayerAction::AudioExpected(false));
            self.current = None;
        }
        r
    }
}

} // verus!
