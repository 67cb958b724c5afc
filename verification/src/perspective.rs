use vstd::prelude::*;

use std::collections::HashMap;

use crate::player_thread::{PLAYER_CANVAS_H, PLAYER_CANVAS_W};

verus! {

broadcast use vstd::std_specs::hash::group_hash_axioms;

/// Canvas width in pixels, as a signed coordinate bound.
pub const CANVAS_W_I32: i32 = 960;

/// Canvas height in pixels, as a signed coordinate bound.
pub const CANVAS_H_I32: i32 = 540;

/// Background color of the perspective view.
pub const BACKGROUND: [u8; 4] = [0x10, 0x10, 0x14, 0xFF];

/// Pixel number `q` (counted row by row) lies in the rectangle
/// `[x0, x1) × [y0, y1)` of the 960-pixel-wide canvas.
pub open spec fn in_rect(q: int, x0: int, x1: int, y0: int, y1: int) -> bool {
    &&& x0 <= q % 960 < x1
    &&& y0 <= q / 960 < y1
}

/// `new` is `old` with the pixels of the rectangle `[x0, x1) × [y0, y1)`
/// set to `rgba` (4 bytes per pixel, row after row).
pub open spec fn painted(
    old: Seq<u8>,
    new: Seq<u8>,
    x0: int,
    x1: int,
    y0: int,
    y1: int,
    rgba: [u8; 4],
) -> bool {
    &&& new.len() == old.len()
    &&& forall|i: int|
        0 <= i < new.len() ==> #[trigger] new[i] == if in_rect(i / 4, x0, x1, y0, y1) {
            rgba@[i % 4]
        } else {
            old[i]
        }
}

/// Bytes of one full canvas frame.
pub open spec fn frame_len() -> int {
    960int * 540 * 4
}

/// Pixel `(x, y)` of the canvas is pixel number `y * 960 + x`.
proof fn lemma_pixel_number(q: int, x: int, y: int)
    requires
        0 <= x < 960,
        0 <= y,
        0 <= q,
    ensures
        (q == y * 960 + x) <==> (q % 960 == x && q / 960 == y),
{
    if q == y * 960 + x {
        vstd::arithmetic::div_mod::lemma_fundamental_div_mod_converse(q, 960, y, x);
    }
    if q % 960 == x && q / 960 == y {
        vstd::arithmetic::div_mod::lemma_fundamental_div_mod(q, 960);
    }
}

/// Write the four bytes of pixel number `q`.
fn set_pixel_bytes(buf: &mut [u8], q: usize, rgba: [u8; 4])
    requires
        4 * q + 4 <= old(buf)@.len(),
    ensures
        final(buf)@.len() == old(buf)@.len(),
        forall|i: int|
            0 <= i < final(buf)@.len() ==> #[trigger] final(buf)@[i] == if i / 4 == q {
                rgba@[i % 4]
            } else {
                old(buf)@[i]
            },
{
    let base: usize = 4 * q;
    buf[base] = rgba[0];
    buf[base + 1] = rgba[1];
    buf[base + 2] = rgba[2];
    buf[base + 3] = rgba[3];
}

/// Fill every whole 4-byte pixel of the buffer with one color.
pub fn clear(buf: &mut [u8], rgba: [u8; 4])
    ensures
        final(buf)@.len() == old(buf)@.len(),
        forall|i: int|
            0 <= i < final(buf)@.len() ==> #[trigger] final(buf)@[i] == if i < (old(buf)@.len()
                / 4) * 4 {
                rgba@[i % 4]
            } else {
                old(buf)@[i]
            },
{
    let n: usize = buf.len() / 4;
    let mut q: usize = 0;
    while q < n
        invariant
            q <= n,
            n == old(buf)@.len() / 4,
            buf@.len() == old(buf)@.len(),
            forall|i: int|
                0 <= i < buf@.len() ==> #[trigger] buf@[i] == if i < 4 * q {
                    rgba@[i % 4]
                } else {
                    old(buf)@[i]
                },
        decreases n - q,
    {
        set_pixel_bytes(buf, q, rgba);
        q = q + 1;
    }
}

/// Write one RGBA pixel at `(x, y)`; coordinates off the canvas change
/// nothing.
pub fn put_pixel(buf: &mut [u8], x: i32, y: i32, rgba: [u8; 4])
    requires
        old(buf)@.len() >= frame_len(),
    ensures
        if 0 <= x < 960 && 0 <= y < 540 {
            painted(old(buf)@, final(buf)@, x as int, x + 1, y as int, y + 1, rgba)
        } else {
            final(buf)@ == old(buf)@
        },
{
    if x < 0 || y < 0 {
        return;
    }
    let xu: u32 = x as u32;
    let yu: u32 = y as u32;
    if xu >= PLAYER_CANVAS_W || yu >= PLAYER_CANVAS_H {
        return;
    }
    let q: usize = (yu * PLAYER_CANVAS_W + xu) as usize;
    set_pixel_bytes(buf, q, rgba);
    proof {
        assert forall|i: int| 0 <= i < buf@.len() implies #[trigger] buf@[i] == if in_rect(
            i / 4,
            x as int,
            x + 1,
            y as int,
            y + 1,
        ) {
            rgba@[i % 4]
        } else {
            old(buf)@[i]
        } by {
            lemma_pixel_number(i / 4, x as int, y as int);
        }
    }
}

/// Horizontal span of row `y` from `x0` (inclusive) to `x1` (exclusive),
/// cut to the canvas.
pub fn hline(buf: &mut [u8], y: i32, x0: i32, x1: i32, rgba: [u8; 4])
    requires
        old(buf)@.len() >= frame_len(),
    ensures
        ({
            let lo = vstd::math::max(x0 as int, 0);
            let hi = vstd::math::min(x1 as int, 960);
            if 0 <= y < 540 && lo < hi {
                painted(old(buf)@, final(buf)@, lo, hi, y as int, y + 1, rgba)
            } else {
                final(buf)@ == old(buf)@
            }
        }),
{
    if y < 0 || y >= CANVAS_H_I32 {
        return;
    }
    let lo: i32 = if x0 > 0 {
        x0
    } else {
        0
    };
    let hi: i32 = if x1 < CANVAS_W_I32 {
        x1
    } else {
        CANVAS_W_I32
    };
    if hi <= lo {
        return;
    }
    let mut x: i32 = lo;
    while x < hi
        invariant
            0 <= lo <= x <= hi <= 960,
            0 <= y < 540,
            buf@.len() == old(buf)@.len(),
            buf@.len() >= frame_len(),
            forall|i: int|
                0 <= i < buf@.len() ==> #[trigger] buf@[i] == if in_rect(
                    i / 4,
                    lo as int,
                    x as int,
                    y as int,
                    y + 1,
                ) {
                    rgba@[i % 4]
                } else {
                    old(buf)@[i]
                },
        decreases hi - x,
    {
        let q: usize = (y as u32 * PLAYER_CANVAS_W + x as u32) as usize;
        let ghost before = buf@;
        set_pixel_bytes(buf, q, rgba);
        proof {
            assert forall|i: int| 0 <= i < buf@.len() implies #[trigger] buf@[i] == if in_rect(
                i / 4,
                lo as int,
                x + 1,
                y as int,
                y + 1,
            ) {
                rgba@[i % 4]
            } else {
                old(buf)@[i]
            } by {
                lemma_pixel_number(i / 4, x as int, y as int);
                assert(before[i] == if in_rect(i / 4, lo as int, x as int, y as int, y + 1) {
                    rgba@[i % 4]
                } else {
                    old(buf)@[i]
                });
            }
        }
        x = x + 1;
    }
}

/// Vertical span of column `x` from `y0` (inclusive) to `y1` (exclusive),
/// cut to the canvas.
pub fn vline(buf: &mut [u8], x: i32, y0: i32, y1: i32, rgba: [u8; 4])
    requires
        old(buf)@.len() >= frame_len(),
    ensures
        ({
            let lo = vstd::math::max(y0 as int, 0);
            let hi = vstd::math::min(y1 as int, 540);
            if 0 <= x < 960 && lo < hi {
                painted(old(buf)@, final(buf)@, x as int, x + 1, lo, hi, rgba)
            } else {
                final(buf)@ == old(buf)@
            }
        }),
{
    if x < 0 || x >= CANVAS_W_I32 {
        return;
    }
    let lo: i32 = if y0 > 0 {
        y0
    } else {
        0
    };
    let hi: i32 = if y1 < CANVAS_H_I32 {
        y1
    } else {
        CANVAS_H_I32
    };
    if hi <= lo {
        return;
    }
    let mut y: i32 = lo;
    while y < hi
        invariant
            0 <= lo <= y <= hi <= 540,
            0 <= x < 960,
            buf@.len() == old(buf)@.len(),
            buf@.len() >= frame_len(),
            forall|i: int|
                0 <= i < buf@.len() ==> #[trigger] buf@[i] == if in_rect(
                    i / 4,
                    x as int,
                    x + 1,
                    lo as int,
                    y as int,
                ) {
                    rgba@[i % 4]
                } else {
                    old(buf)@[i]
                },
        decreases hi - y,
    {
        let q: usize = (y as u32 * PLAYER_CANVAS_W + x as u32) as usize;
        let ghost before = buf@;
        set_pixel_bytes(buf, q, rgba);
        proof {
            assert forall|i: int| 0 <= i < buf@.len() implies #[trigger] buf@[i] == if in_rect(
                i / 4,
                x as int,
                x + 1,
                lo as int,
                y + 1,
            ) {
                rgba@[i % 4]
            } else {
                old(buf)@[i]
            } by {
                lemma_pixel_number(i / 4, x as int, y as int);
                assert(before[i] == if in_rect(i / 4, x as int, x + 1, lo as int, y as int) {
                    rgba@[i % 4]
                } else {
                    old(buf)@[i]
                });
            }
        }
        y = y + 1;
    }
}


/// Reusable RGBA frame for the perspective view: one allocation, overwritten
/// every frame.
pub struct PerspectiveRenderer {
    buffer: Vec<u8>,
}

impl View for PerspectiveRenderer {
    type V = Seq<u8>;

    closed spec fn view(&self) -> Seq<u8> {
        self.buffer@
    }
}

impl PerspectiveRenderer {
    /// A renderer whose frame is one canvas of transparent black.
    pub fn new() -> (r: Self)
        ensures
            r@.len() == frame_len(),
            forall|i: int| 0 <= i < r@.len() ==> r@[i] == 0u8,
    {
        let n: usize = (PLAYER_CANVAS_W * PLAYER_CANVAS_H * 4) as usize;
        PerspectiveRenderer { buffer: vec![0u8; n] }
    }

    /// The frame as drawn so far.
    pub fn frame(&self) -> (r: &[u8])
        ensures
            r@ == self@,
    {
        self.buffer.as_slice()
    }

    /// The frame, for the drawing passes.
    pub fn frame_mut(&mut self) -> (r: &mut [u8])
        ensures
            r@ == old(self)@,
            final(self)@ == final(r)@,
    {
        self.buffer.as_mut_slice()
    }

    /// Start a frame: every pixel becomes the background color.
    pub fn clear_background(&mut self)
        ensures
            final(self)@.len() == old(self)@.len(),
            forall|i: int|
                0 <= i < final(self)@.len() ==> #[trigger] final(self)@[i] == if i < (old(
                    self,
                )@.len() / 4) * 4 {
                    BACKGROUND@[i % 4]
                } else {
                    old(self)@[i]
                },
    {
        clear(self.buffer.as_mut_slice(), BACKGROUND);
    }
}

/// y-coordinate (pixels) of the horizon.
pub const HORIZON_Y_PX: usize = 210;

/// y-coordinate (pixels) of the top of the keyboard strip.
pub const KEYBOARD_TOP_Y_PX: usize = 430;

/// How many recent time slices are drawn: enough for the taller of the sky
/// (above the horizon) and the note area (horizon to keyboard).
pub fn depth_capacity() -> (r: usize)
    ensures
        r == vstd::math::max(HORIZON_Y_PX as int, KEYBOARD_TOP_Y_PX - HORIZON_Y_PX),
        r == 220,
{
    let above: usize = HORIZON_Y_PX;
    let below: usize = KEYBOARD_TOP_Y_PX - HORIZON_Y_PX;
    if above > below {
        above
    } else {
        below
    }
}

/// First visible pitch (MIDI-like index, 60 = middle C).
pub const LOWEST_KEY: i32 = 28;

/// Last visible pitch.
pub const HIGHEST_KEY: i32 = 100;

/// Number of visible keys.
pub const KEY_RANGE: i32 = 73;

/// Position of `pitch` within its octave, 0 = C.
pub open spec fn pitch_class(pitch: int) -> int {
    pitch % 12
}

/// Sharps (C#, D#, F#, G#, A#) are the black keys.
pub open spec fn spec_is_black_key(pitch: int) -> bool {
    let c = pitch_class(pitch);
    c == 1 || c == 3 || c == 6 || c == 8 || c == 10
}

/// `pitch` modulo 12, in 0..12 for every pitch, negative ones too.
fn pitch_class_of(pitch: i32) -> (r: i32)
    ensures
        r == pitch_class(pitch as int),
        0 <= r < 12,
{
    let shifted: u64 = (pitch as i64 + 2147483648i64) as u64;
    let m: u64 = shifted % 12;
    ((m + 4) % 12) as i32
}

/// `true` if the key for `pitch` is a sharp (black key).
pub fn is_black_key(pitch: i32) -> (r: bool)
    ensures
        r == spec_is_black_key(pitch as int),
{
    let c = pitch_class_of(pitch);
    c == 1 || c == 3 || c == 6 || c == 8 || c == 10
}

/// Color of lane grid lines.
pub const LANE_COLOR: [u8; 4] = [0x22, 0x22, 0x2c, 0xFF];

/// Color of grid lines on C boundaries.
pub const OCTAVE_COLOR: [u8; 4] = [0x3a, 0x3a, 0x4a, 0xFF];

/// Color of the grid line on key boundary `b` (0 = left edge of the lowest
/// key): octave lines (a C starts there) are brighter.
pub fn grid_line_color(boundary: i32) -> (r: [u8; 4])
    requires
        0 <= boundary <= KEY_RANGE,
    ensures
        r == if pitch_class(LOWEST_KEY + boundary) == 0 {
            OCTAVE_COLOR
        } else {
            LANE_COLOR
        },
{
    if pitch_class_of(LOWEST_KEY + boundary) == 0 {
        OCTAVE_COLOR
    } else {
        LANE_COLOR
    }
}

/// How a white key is drawn: its lower half reaches into a neighbouring
/// lane wherever that neighbour is a black key inside the visible range.
#[derive(Clone, Copy, Debug, PartialEq, Eq, Structural)]
pub struct WhiteKeyShape {
    pub extend_left: bool,
    pub extend_right: bool,
}

pub fn white_key_shape(pitch: i32) -> (r: WhiteKeyShape)
    requires
        LOWEST_KEY <= pitch <= HIGHEST_KEY,
    ensures
        r.extend_left == (pitch > LOWEST_KEY && spec_is_black_key(pitch - 1)),
        r.extend_right == (pitch < HIGHEST_KEY && spec_is_black_key(pitch + 1)),
{
    let extend_left = pitch > LOWEST_KEY && is_black_key(pitch - 1);
    let extend_right = pitch < HIGHEST_KEY && is_black_key(pitch + 1);
    WhiteKeyShape { extend_left, extend_right }
}

/// The border after a white key.
#[derive(Clone, Copy, Debug, PartialEq, Eq, Structural)]
pub enum WhiteKeySeam {
    /// A black key follows: the seam runs down the lower half only, at the
    /// black key's center.
    LowerHalfAtNextCenter,
    /// Two white keys touch (E-F, B-C): a full-height seam at the key's
    /// right edge.
    FullHeightAtRightEdge,
}

/// Which seam closes the white key `pitch`; `None` for black keys and for
/// the highest key.
pub fn white_key_seam(pitch: i32) -> (r: Option<WhiteKeySeam>)
    requires
        LOWEST_KEY <= pitch <= HIGHEST_KEY,
    ensures
        (spec_is_black_key(pitch as int) || pitch == HIGHEST_KEY) ==> r is None,
        (!spec_is_black_key(pitch as int) && pitch < HIGHEST_KEY) ==> r == Some(
            if spec_is_black_key(pitch + 1) {
                WhiteKeySeam::LowerHalfAtNextCenter
            } else {
                WhiteKeySeam::FullHeightAtRightEdge
            },
        ),
{
    if is_black_key(pitch) || pitch >= HIGHEST_KEY {
        return None;
    }
    if is_black_key(pitch + 1) {
        Some(WhiteKeySeam::LowerHalfAtNextCenter)
    } else {
        Some(WhiteKeySeam::FullHeightAtRightEdge)
    }
}

/// Kind of a piano-roll note.
#[derive(Clone, Copy, Debug, PartialEq, Eq, Structural)]
pub enum NoteKind {
    /// A pitched note.
    Frequency,
    /// One of the 16 noise "strings".
    Noise,
    /// Sampled (DPCM) audio.
    Waveform,
}

/// One channel's entry in the newest piano-roll time slice.
#[derive(Clone, Copy, Debug)]
pub struct ChannelNote {
    pub visible: bool,
    pub kind: NoteKind,
    /// The slice's key position rounded to the nearest key, relative to the
    /// piano roll's lowest key.
    pub key_offset: i32,
    pub color: [u8; 4],
}

/// The note lights a key: visible, pitched, and inside the visible range.
pub open spec fn lights_key(lowest_index: int, n: ChannelNote) -> bool {
    &&& n.visible
    &&& n.kind == NoteKind::Frequency
    &&& LOWEST_KEY <= lowest_index + n.key_offset <= HIGHEST_KEY
}

/// Color `pitch` is lit with: the last channel of the slice playing it wins.
pub open spec fn active_color(lowest_index: int, notes: Seq<ChannelNote>, pitch: int) -> Option<
    [u8; 4],
>
    decreases notes.len(),
{
    if notes.len() == 0 {
        None
    } else {
        let n = notes.last();
        if lights_key(lowest_index, n) && lowest_index + n.key_offset == pitch {
            Some(n.color)
        } else {
            active_color(lowest_index, notes.drop_last(), pitch)
        }
    }
}

/// Only visible tone notes light keys: a lit key's color is that of a
/// visible `Frequency` note of the slice at that pitch, and adding a noise or
/// waveform (DPCM) note, or a hidden one, changes no key.
pub proof fn only_tone_notes_light_keys(lowest_index: int, notes: Seq<ChannelNote>, pitch: int, n: ChannelNote)
    ensures
        active_color(lowest_index, notes, pitch) matches Some(c) ==> exists|k: int|
            0 <= k < notes.len() && #[trigger] notes[k].color == c && notes[k].visible
                && notes[k].kind == NoteKind::Frequency && lowest_index + notes[k].key_offset == pitch,
        !(n.visible && n.kind == NoteKind::Frequency) ==> active_color(lowest_index, notes.push(n), pitch)
            == active_color(lowest_index, notes, pitch),
    decreases notes.len(),
{
    assert(notes.push(n).drop_last() =~= notes);
    if notes.len() > 0 {
        only_tone_notes_light_keys(lowest_index, notes.drop_last(), pitch, n);
        let m = notes.last();
        if !(lights_key(lowest_index, m) && lowest_index + m.key_offset == pitch) {
            match active_color(lowest_index, notes, pitch) {
                Some(c) => {
                    let k = choose|k: int|
                        0 <= k < notes.drop_last().len() && #[trigger] notes.drop_last()[k].color == c
                            && notes.drop_last()[k].visible && notes.drop_last()[k].kind
                            == NoteKind::Frequency && lowest_index + notes.drop_last()[k].key_offset
                            == pitch;
                    assert(notes[k] == notes.drop_last()[k]);
                },
                None => {},
            }
        } else {
            assert(notes[notes.len() - 1] == m);
        }
    }
}

/// Pitch to channel color for the keys sounding in the newest time slice.
pub struct ActiveKeys {
    by_pitch: HashMap<i32, [u8; 4]>,
}

impl View for ActiveKeys {
    type V = Map<i32, [u8; 4]>;

    closed spec fn view(&self) -> Map<i32, [u8; 4]> {
        self.by_pitch@
    }
}

impl ActiveKeys {
    /// The color `pitch` is lit with, if it is lit.
    pub fn get_color(&self, pitch: i32) -> (r: Option<[u8; 4]>)
        ensures
            r == if self@.contains_key(pitch) {
                Some(self@[pitch])
            } else {
                None::<[u8; 4]>
            },
    {
        match self.by_pitch.get(&pitch) {
            Some(c) => Some(*c),
            None => None,
        }
    }
}

/// The keys lit by the newest time slice, from its channels in slice order
/// (later channels overwrite earlier ones at the same pitch).
pub fn active_keys(lowest_index: i32, notes: &[ChannelNote]) -> (r: ActiveKeys)
    requires
        forall|k: int|
            0 <= k < notes@.len() ==> i32::MIN <= lowest_index + #[trigger] notes@[k].key_offset
                <= i32::MAX,
    ensures
        forall|p: i32| #[trigger]
            r@.contains_key(p) <==> active_color(lowest_index as int, notes@, p as int) is Some,
        forall|p: i32|
            #[trigger] r@.contains_key(p) ==> active_color(lowest_index as int, notes@, p as int)
                == Some(r@[p]),
{
    let mut by_pitch: HashMap<i32, [u8; 4]> = HashMap::new();
    let mut i: usize = 0;
    while i < notes.len()
        invariant
            i <= notes@.len(),
            forall|k: int|
                0 <= k < notes@.len() ==> i32::MIN <= lowest_index + #[trigger] notes@[k].key_offset
                    <= i32::MAX,
            forall|p: i32| #[trigger]
                by_pitch@.contains_key(p) <==> active_color(
                    lowest_index as int,
                    notes@.take(i as int),
                    p as int,
                ) is Some,
            forall|p: i32|
                #[trigger] by_pitch@.contains_key(p) ==> active_color(
                    lowest_index as int,
                    notes@.take(i as int),
                    p as int,
                ) == Some(by_pitch@[p]),
        decreases notes@.len() - i,
    {
        let n = notes[i];
        assert(notes@.take(i + 1).drop_last() =~= notes@.take(i as int));
        assert(notes@.take(i + 1).last() == n);
        if n.visible {
            match n.kind {
                NoteKind::Frequency => {
                    let pitch: i32 = lowest_index + n.key_offset;
                    if LOWEST_KEY <= pitch && pitch <= HIGHEST_KEY {
                        by_pitch.insert(pitch, n.color);
                    }
                },
                _ => {},
            }
        }
        i = i + 1;
    }
    assert(notes@.take(notes@.len() as int) =~= notes@);
    ActiveKeys { by_pitch }
}


/// Position `k` steps back from `start` in a ring of `len` slots.
pub open spec fn ring_back(start: int, k: int, len: int) -> int {
    (start - k) % len
}

/// The first of the `limit` positions scanned backward from `start` (from
/// step `k` on) whose recorded edge is non-zero.
pub open spec fn edge_scan(edges: Seq<i16>, start: int, limit: int, k: int) -> Option<int>
    decreases limit - k,
{
    if k >= limit {
        None
    } else if edges[ring_back(start, k, edges.len() as int)] != 0 {
        Some(ring_back(start, k, edges.len() as int))
    } else {
        edge_scan(edges, start, limit, k + 1)
    }
}

/// Start of the oscilloscope window in a ring of samples: scanning back from
/// `window` samples before the write position, the first recorded
/// zero-crossing, moved back by half a window; without one, the plain
/// window start.
pub open spec fn spec_find_edge(edges: Seq<i16>, write_idx: int, window: int) -> int {
    let len = edges.len() as int;
    if len == 0 {
        0
    } else {
        let win = vstd::math::min(window, len);
        let start = (write_idx + len - win) % len;
        let limit = vstd::math::min(window * 4, len);
        match edge_scan(edges, start, limit, 0) {
            Some(p) => (p + len - win / 2) % len,
            None => start,
        }
    }
}

proof fn lemma_ring_step(start: int, k: int, len: int)
    requires
        len > 0,
    ensures
        (ring_back(start, k, len) + len - 1) % len == ring_back(start, k + 1, len),
        0 <= ring_back(start, k, len) < len,
{
    let a = start - k;
    vstd::arithmetic::div_mod::lemma_fundamental_div_mod(a, len);
    vstd::arithmetic::div_mod::lemma_mod_bound(a, len);
    let r = a % len;
    let q = a / len;
    assert(len * (q - 1) == len * q - len) by (nonlinear_arith);
    assert(a - 1 == len * (q - 1) + (r + len - 1));
    vstd::arithmetic::div_mod::lemma_mod_multiples_vanish(q - 1, r + len - 1, len);
}

/// Stable start point for drawing a channel's waveform (see
/// `spec_find_edge`).
pub fn find_edge(edges: &[i16], write_idx: usize, window_size: usize) -> (r: usize)
    requires
        write_idx + edges@.len() <= usize::MAX,
        window_size * 4 <= usize::MAX,
        2 * edges@.len() <= usize::MAX,
    ensures
        r == spec_find_edge(edges@, write_idx as int, window_size as int),
        edges@.len() > 0 ==> r < edges@.len(),
{
    let len: usize = edges.len();
    if len == 0 {
        return 0;
    }
    let win: usize = if window_size < len {
        window_size
    } else {
        len
    };
    let initial: usize = (write_idx + len - win) % len;
    let mut current: usize = initial;
    let search_limit: usize = if window_size * 4 < len {
        window_size * 4
    } else {
        len
    };
    let mut k: usize = 0;
    proof {
        vstd::arithmetic::div_mod::lemma_small_mod(initial as nat, len as nat);
    }
    while k < search_limit
        invariant
            current < len,
            win <= len,
            win == vstd::math::min(window_size as int, len as int),
            initial == (write_idx + len - win) % (len as int),
            search_limit == vstd::math::min(window_size * 4, len as int),
            len == edges@.len(),
            len > 0,
            2 * len <= usize::MAX,
            k <= search_limit <= len,
            initial < len,
            current == ring_back(initial as int, k as int, len as int),
            edge_scan(edges@, initial as int, search_limit as int, 0) == edge_scan(
                edges@,
                initial as int,
                search_limit as int,
                k as int,
            ),
        decreases search_limit - k,
    {
        proof {
            lemma_ring_step(initial as int, k as int, len as int);
        }
        if edges[current] != 0 {
            return (current + len - (win / 2)) % len;
        }
        current = (current + len - 1) % len;
        k = k + 1;
    }
    initial
}

/// Horizontal extent `(x, width)` of cell `i` when `count` channel cells
/// share a strip `width` pixels wide: equal cells, the last one taking the
/// leftover pixels.
pub open spec fn cell_span(width: int, count: int, i: int) -> (int, int) {
    let w = width / count;
    if i == count - 1 {
        (i * w, width - i * w)
    } else {
        (i * w, w)
    }
}

/// The channel cells of the oscilloscope strip, left to right (see
/// `cell_span`).
pub fn channel_cells(width: u32, count: usize) -> (r: Vec<(u32, u32)>)
    requires
        0 < count <= u32::MAX,
    ensures
        r@.len() == count,
        forall|i: int|
            0 <= i < count ==> (#[trigger] r@[i]).0 == cell_span(width as int, count as int, i).0
                && r@[i].1 == cell_span(width as int, count as int, i).1,
{
    let n: u32 = count as u32;
    let cell_w: u32 = width / n;
    let mut cells: Vec<(u32, u32)> = Vec::new();
    let mut cell_x: u32 = 0;
    let mut i: u32 = 0;
    while i < n
        invariant
            n == count,
            cell_w == (width as int) / (count as int),
            i <= n,
            cells@.len() == i,
            i < n ==> cell_x == i * cell_w,
            i < n ==> cell_x <= width - cell_w,
            forall|j: int|
                0 <= j < i ==> (#[trigger] cells@[j]).0 == cell_span(
                    width as int,
                    count as int,
                    j,
                ).0 && cells@[j].1 == cell_span(width as int, count as int, j).1,
        decreases n - i,
    {
        let cell_width: u32 = if i + 1 == n {
            width - cell_x
        } else {
            cell_w
        };
        cells.push((cell_x, cell_width));
        if i + 1 < n {
            proof {
                assert((i + 2) * cell_w <= width) by (nonlinear_arith)
                    requires i + 2 <= n, cell_w == (width as int) / (n as int), n > 0;
                assert(cell_x + cell_w == (i + 1) * cell_w) by (nonlinear_arith)
                    requires cell_x == i * cell_w;
                assert((i + 2) * cell_w == (i + 1) * cell_w + cell_w) by (nonlinear_arith);
            }
            cell_x = cell_x + cell_width;
        }
        i = i + 1;
    }
    cells
}

/// Consecutive cells touch and together cover the whole strip.
pub proof fn channel_cells_tile(width: int, count: int)
    requires
        0 <= width,
        0 < count,
    ensures
        cell_span(width, count, 0).0 == 0,
        forall|i: int|
            0 <= i < count - 1 ==> #[trigger] cell_span(width, count, i).0 + cell_span(
                width,
                count,
                i,
            ).1 == cell_span(width, count, i + 1).0,
        cell_span(width, count, count - 1).0 + cell_span(width, count, count - 1).1 == width,
        forall|i: int| 0 <= i < count ==> #[trigger] cell_span(width, count, i).1 >= 0,
{
    assert forall|i: int| 0 <= i < count - 1 implies #[trigger] cell_span(width, count, i).0
        + cell_span(width, count, i).1 == cell_span(width, count, i + 1).0 by {
        assert(i * (width / count) + width / count == (i + 1) * (width / count)) by (nonlinear_arith);
    }
    assert forall|i: int| 0 <= i < count implies #[trigger] cell_span(width, count, i).1 >= 0 by {
        assert(0 <= width / count) by (nonlinear_arith)
            requires 0 <= width, 0 < count;
        assert(i * (width / count) <= (count - 1) * (width / count)) by (nonlinear_arith)
            requires i <= count - 1, 0 <= width / count;
        assert((count - 1) * (width / count) <= width) by (nonlinear_arith)
            requires 0 <= width, 0 < count;
    }
}

/// Width in pixels of the fading divider at each edge of a channel cell.
pub const DIVIDER_WIDTH: u32 = 5;

/// Opacity of divider column `dx` (0 = the cell edge): a quadratic fade from
/// opaque at the edge to transparent.
pub open spec fn spec_divider_alpha(dx: int) -> int {
    let g = (255 * (5 - dx)) / 5;
    (g * g) / 255
}

pub fn divider_alpha(dx: u32) -> (r: u8)
    requires
        dx < DIVIDER_WIDTH,
    ensures
        r == spec_divider_alpha(dx as int),
{
    let gradient_index: u32 = (255 * (DIVIDER_WIDTH - dx)) / DIVIDER_WIDTH;
    assert(gradient_index <= 255);
    assert(gradient_index * gradient_index <= 255 * 255) by (nonlinear_arith)
        requires gradient_index <= 255;
    let weight: u32 = (gradient_index * gradient_index) / 255;
    assert(weight <= 255) by (nonlinear_arith)
        requires weight == (gradient_index * gradient_index) / 255, gradient_index * gradient_index
            <= 255 * 255;
    weight as u8
}

/// Width in pixels of a label of `name_len` 8-pixel glyphs with its
/// 4-pixel margin.
pub open spec fn label_box_w(name_len: int) -> int {
    4 + 8 * name_len
}

/// Where a cell's labels go: the chip name at `(x + 4, y + 2)`; the channel
/// name with its right margin against the cell's right edge and its glyph
/// row 2 pixels above the bottom, each coordinate held at the cell's
/// left or top edge when the cell is too small.
pub open spec fn spec_label_origins(x: int, y: int, width: int, height: int, name_len: int) -> (
    (int, int),
    (int, int),
) {
    (
        (x + 4, y + 2),
        (x + vstd::math::max(width - label_box_w(name_len), 0), y + vstd::math::max(height - 10, 0)),
    )
}

pub fn label_origins(x: u32, y: u32, width: u32, height: u32, name_len: usize) -> (r: (
    (u32, u32),
    (u32, u32),
))
    requires
        x + width + 4 <= u32::MAX,
        y + height + 2 <= u32::MAX,
        4 + name_len * 8 <= u32::MAX,
    ensures
        r.0.0 == spec_label_origins(x as int, y as int, width as int, height as int, name_len as int).0.0,
        r.0.1 == spec_label_origins(x as int, y as int, width as int, height as int, name_len as int).0.1,
        r.1.0 == spec_label_origins(x as int, y as int, width as int, height as int, name_len as int).1.0,
        r.1.1 == spec_label_origins(x as int, y as int, width as int, height as int, name_len as int).1.1,
{
    let name_w: u32 = (name_len as u32) * 8;
    let label_x: u32 = x + width.saturating_sub(4 + name_w);
    let label_y: u32 = y + height.saturating_sub(2 + 8);
    ((x + 4, y + 2), (label_x, label_y))
}


/// Byte `i` of a destination whose rows are `dst_row_bytes` long lies in
/// the copied region: rows `[dst_y, end_row)`, first `copy_bytes` bytes.
pub open spec fn in_blit(i: int, dst_row_bytes: int, dst_y: int, end_row: int, copy_bytes: int) -> bool {
    &&& dst_y <= i / dst_row_bytes < end_row
    &&& i % dst_row_bytes < copy_bytes
}

/// The source byte that lands on destination byte `i`.
pub open spec fn blit_source(i: int, dst_row_bytes: int, dst_y: int, src_row_bytes: int) -> int {
    (i / dst_row_bytes - dst_y) * src_row_bytes + i % dst_row_bytes
}

/// Rows of the destination the strip reaches: from `dst_y`, as many as the
/// strip has, but not past the canvas bottom.
pub open spec fn blit_end_row(dst_y: int, src_h: int, canvas_h: int) -> int {
    vstd::math::max(dst_y, vstd::math::min(dst_y + src_h, canvas_h))
}

/// Byte-exact copy of the strip's rows that fit into the canvas.
pub open spec fn blitted(
    old: Seq<u8>,
    new: Seq<u8>,
    src: Seq<u8>,
    src_w: int,
    src_h: int,
    canvas_w: int,
    canvas_h: int,
    dst_y: int,
) -> bool {
    let end = blit_end_row(dst_y, src_h, canvas_h);
    let copy = vstd::math::min(src_w, canvas_w) * 4;
    &&& new.len() == old.len()
    &&& forall|i: int|
        0 <= i < new.len() ==> #[trigger] new[i] == if in_blit(i, canvas_w * 4, dst_y, end, copy) {
            src[blit_source(i, canvas_w * 4, dst_y, src_w * 4)]
        } else {
            old[i]
        }
}

proof fn lemma_row_byte(d: int, row_bytes: int, r: int, c: int)
    requires
        row_bytes > 0,
        0 <= c < row_bytes,
        d == r * row_bytes + c,
    ensures
        d / row_bytes == r,
        d % row_bytes == c,
{
    vstd::arithmetic::div_mod::lemma_fundamental_div_mod_converse(d, row_bytes, r, c);
}

/// Copy the oscilloscope strip (`src_w` × `src_h` RGBA pixels) into the
/// canvas starting at row `dst_y`; rows below the canvas are dropped and
/// each row is cut to the canvas width.
pub fn blit_to_dst(
    src: &[u8],
    src_w: u32,
    src_h: u32,
    dst: &mut [u8],
    canvas_w: i32,
    canvas_h: i32,
    dst_y: u32,
)
    requires
        canvas_w > 0,
        canvas_h >= 0,
        (src_h as int) * (src_w as int) * 4 <= usize::MAX,
        (canvas_h as int) * (canvas_w as int) * 4 <= usize::MAX,
        dst_y + src_h <= usize::MAX,
        src@.len() >= (src_h as int) * (src_w as int) * 4,
        blit_end_row(dst_y as int, src_h as int, canvas_h as int) > dst_y ==> old(dst)@.len()
            >= blit_end_row(dst_y as int, src_h as int, canvas_h as int) * (canvas_w as int) * 4,
    ensures
        blitted(
            old(dst)@,
            final(dst)@,
            src@,
            src_w as int,
            src_h as int,
            canvas_w as int,
            canvas_h as int,
            dst_y as int,
        ),
{
    let w: usize = src_w as usize;
    let h: usize = src_h as usize;
    let cw: usize = canvas_w as usize;
    let ch: usize = canvas_h as usize;
    let copy_w: usize = if w < cw {
        w
    } else {
        cw
    };
    let ghost end = blit_end_row(dst_y as int, src_h as int, canvas_h as int);
    let ghost cw4 = (cw * 4) as int;
    let ghost copy4 = (copy_w * 4) as int;
    let mut row: usize = 0;
    while row < h
        invariant
            w == src_w,
            h == src_h,
            cw == canvas_w,
            ch == canvas_h,
            cw > 0,
            copy_w == vstd::math::min(w as int, cw as int),
            cw4 == cw * 4,
            copy4 == copy_w * 4,
            end == blit_end_row(dst_y as int, h as int, ch as int),
            (h as int) * (w as int) * 4 <= usize::MAX,
            (ch as int) * (cw as int) * 4 <= usize::MAX,
            dst_y + h <= usize::MAX,
            src@.len() >= (h as int) * (w as int) * 4,
            end > dst_y ==> dst@.len() >= end * (cw as int) * 4,
            row <= h,
            dst_y + row <= end || row == 0,
            dst_y + row <= end,
            dst@.len() == old(dst)@.len(),
            forall|i: int|
                0 <= i < dst@.len() ==> #[trigger] dst@[i] == if in_blit(
                    i,
                    cw4,
                    dst_y as int,
                    dst_y + row,
                    copy4,
                ) {
                    src@[blit_source(i, cw4, dst_y as int, (w * 4) as int)]
                } else {
                    old(dst)@[i]
                },
        ensures
            forall|i: int|
                0 <= i < dst@.len() ==> #[trigger] dst@[i] == if in_blit(
                    i,
                    cw4,
                    dst_y as int,
                    end,
                    copy4,
                ) {
                    src@[blit_source(i, cw4, dst_y as int, (w * 4) as int)]
                } else {
                    old(dst)@[i]
                },
            dst@.len() == old(dst)@.len(),
        decreases h - row,
    {
        let dst_row: usize = dst_y as usize + row;
        if dst_row >= ch {
            break;
        }
        assert(dst_row < end);
        assert((row as int) * (w as int) * 4 + copy_w * 4 <= (h as int) * (w as int) * 4) by (nonlinear_arith)
            requires row < h, copy_w <= w;
        assert((dst_row as int) * (cw as int) * 4 + copy_w * 4 <= end * (cw as int) * 4) by (nonlinear_arith)
            requires dst_row < end, copy_w <= cw;
        assert(end * (cw as int) * 4 <= (ch as int) * (cw as int) * 4) by (nonlinear_arith)
            requires end <= ch, cw > 0;
        let src_start: usize = row * w * 4;
        let dst_start: usize = dst_row * cw * 4;
        let n: usize = copy_w * 4;
        assert(dst_start == (dst_row as int) * cw4) by (nonlinear_arith)
            requires dst_start == (dst_row as int) * (cw as int) * 4, cw4 == cw * 4;
        assert(src_start == (row as int) * ((w * 4) as int)) by (nonlinear_arith)
            requires src_start == (row as int) * (w as int) * 4;
        let ghost before_row = dst@;
        let src_len: usize = src.len();
        let dst_len: usize = dst.len();
        let mut j: usize = 0;
        while j < n
            invariant
                j <= n,
                n == copy4,
                copy4 <= cw4,
                cw4 == cw * 4,
                cw4 > 0,
                src_start == (row as int) * ((w * 4) as int),
                dst_start == (dst_row as int) * cw4,
                src_start + n <= src@.len(),
                dst_start + n <= dst@.len(),
                src_len == src@.len(),
                dst_len == dst@.len(),
                dst_row == dst_y + row,
                dst@.len() == old(dst)@.len(),
                forall|i: int|
                    0 <= i < dst@.len() ==> #[trigger] dst@[i] == if (i / cw4 == dst_row && i % cw4
                        < j) {
                        src@[blit_source(i, cw4, dst_y as int, (w * 4) as int)]
                    } else {
                        before_row[i]
                    },
            decreases n - j,
        {
            let b = src[src_start + j];
            let ghost prev = dst@;
            dst[dst_start + j] = b;
            proof {
                lemma_row_byte((dst_start + j) as int, cw4, dst_row as int, j as int);
                assert forall|i: int| 0 <= i < dst@.len() implies #[trigger] dst@[i] == if (i / cw4
                    == dst_row && i % cw4 < j + 1) {
                    src@[blit_source(i, cw4, dst_y as int, (w * 4) as int)]
                } else {
                    before_row[i]
                } by {
                    assert(prev[i] == if (i / cw4 == dst_row && i % cw4 < j) {
                        src@[blit_source(i, cw4, dst_y as int, (w * 4) as int)]
                    } else {
                        before_row[i]
                    });
                    if i / cw4 == dst_row && i % cw4 == j {
                        vstd::arithmetic::div_mod::lemma_fundamental_div_mod(i, cw4);
                        assert(i == dst_start + j) by (nonlinear_arith)
                            requires i == cw4 * (i / cw4) + i % cw4, i / cw4 == dst_row, i % cw4 == j,
                            dst_start == dst_row * cw4;
                    }
                }
            }
            j = j + 1;
        }
        proof {
            assert forall|i: int| 0 <= i < dst@.len() implies #[trigger] dst@[i] == if in_blit(
                i,
                cw4,
                dst_y as int,
                dst_y + row + 1,
                copy4,
            ) {
                src@[blit_source(i, cw4, dst_y as int, (w * 4) as int)]
            } else {
                old(dst)@[i]
            } by {
                assert(before_row[i] == if in_blit(i, cw4, dst_y as int, dst_y + row, copy4) {
                    src@[blit_source(i, cw4, dst_y as int, (w * 4) as int)]
                } else {
                    old(dst)@[i]
                });
            }
        }
        row = row + 1;
    }
}

} // verus!
