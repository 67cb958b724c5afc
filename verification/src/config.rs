use vstd::prelude::*;

use crate::player_thread::ViewMode;
use crate::playlist::PlaylistItem;

verus! {

/// Settings kept between launches: the playlist and the UI/playback
/// choices.
#[derive(Clone, Debug)]
pub struct Config {
    pub playlist: Vec<PlaylistItem>,
    /// 0 = classic view, 1 = perspective view.
    pub view_mode: i32,
    /// 0 = scaled, 1 = 1x, 2 = 2x.
    pub scale_mode: i32,
    pub anti_aliasing: bool,
    /// 0..=255.
    pub volume: i32,
    /// Playlist-level repeat.
    pub repeat: bool,
}

impl Default for Config {
    /// First-run settings: empty playlist, classic view, 2x scale, crisp
    /// edges, full volume, no repeat.
    fn default() -> (r: Self)
        ensures
            r.playlist@.len() == 0,
            r.view_mode == 0,
            r.scale_mode == 2,
            !r.anti_aliasing,
            r.volume == 255,
            !r.repeat,
    {
        Config {
            playlist: Vec::new(),
            view_mode: 0,
            scale_mode: 2,
            anti_aliasing: false,
            volume: 255,
            repeat: false,
        }
    }
}

/// `v` clamped to the volume range 0..=255.
pub open spec fn clamp_volume(v: int) -> int {
    if v < 0 {
        0
    } else if v > 255 {
        255
    } else {
        v
    }
}

/// A UI volume value clamped to 0..=255, as the player thread takes it.
pub fn volume_byte(v: i32) -> (r: u8)
    ensures
        r == clamp_volume(v as int),
{
    if v < 0 {
        0
    } else if v > 255 {
        255
    } else {
        v as u8
    }
}

/// The renderer a view-mode index selects: 1 is the perspective view, any
/// other value the classic one.
pub open spec fn spec_view_mode_for(mode: i32) -> ViewMode {
    if mode == 1 {
        ViewMode::Perspective
    } else {
        ViewMode::Classic
    }
}

/// Only setting 1 selects the perspective view; every other value, 0 (the
/// first-run default) included, gives the classic view.
pub proof fn only_one_selects_perspective(mode: i32)
    ensures
        (spec_view_mode_for(mode) == ViewMode::Perspective) <==> mode == 1,
        mode != 1 ==> spec_view_mode_for(mode) == ViewMode::Classic,
{
}

pub fn view_mode_for(mode: i32) -> (r: ViewMode)
    ensures
        r == spec_view_mode_for(mode),
{
    if mode == 1 {
        ViewMode::Perspective
    } else {
        ViewMode::Classic
    }
}

/// Window size (logical pixels) the visualization snaps to when the scale
/// mode changes: 1x is the canvas size, 2x twice it, scaled mode leaves the
/// window alone.
pub open spec fn spec_scale_snap(mode: i32) -> Option<(u32, u32)> {
    if mode == 1 {
        Some((960u32, 540u32))
    } else if mode == 2 {
        Some((1920u32, 1080u32))
    } else {
        None
    }
}

pub fn scale_snap_size(mode: i32) -> (r: Option<(u32, u32)>)
    ensures
        r == spec_scale_snap(mode),
{
    if mode == 1 {
        Some((960, 540))
    } else if mode == 2 {
        Some((1920, 1080))
    } else {
        None
    }
}

/// Size the visualization window opens at: the canvas size for a saved 1x
/// scale, twice the canvas size otherwise.
pub fn initial_viz_size(mode: i32) -> (r: (u32, u32))
    ensures
        mode == 1 ==> r == (960u32, 540u32),
        mode != 1 ==> r == (1920u32, 1080u32),
{
    if mode == 1 {
        (960, 540)
    } else {
        (1920, 1080)
    }
}

} // verus!
