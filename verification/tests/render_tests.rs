use nsf_player::perspective::{
    active_keys, blit_to_dst, channel_cells, clear, depth_capacity, divider_alpha, find_edge,
    grid_line_color, hline, is_black_key, label_origins, put_pixel, vline, white_key_seam,
    white_key_shape, ChannelNote, NoteKind, PerspectiveRenderer, WhiteKeySeam, BACKGROUND,
    LANE_COLOR, OCTAVE_COLOR,
};

const W: usize = 960;
const H: usize = 540;

fn canvas() -> Vec<u8> {
    vec![0u8; W * H * 4]
}

fn px(buf: &[u8], x: usize, y: usize) -> [u8; 4] {
    let i = (y * W + x) * 4;
    [buf[i], buf[i + 1], buf[i + 2], buf[i + 3]]
}

const RED: [u8; 4] = [255, 0, 0, 255];

#[test]
fn renderer_starts_blank_and_clears_to_background() {
    let mut r = PerspectiveRenderer::new();
    assert_eq!(r.frame().len(), W * H * 4);
    assert!(r.frame().iter().all(|&b| b == 0));
    r.clear_background();
    assert_eq!(px(r.frame(), 0, 0), BACKGROUND);
    assert_eq!(px(r.frame(), W - 1, H - 1), BACKGROUND);
    put_pixel(r.frame_mut(), 3, 4, RED);
    assert_eq!(px(r.frame(), 3, 4), RED);
}

#[test]
fn clear_leaves_partial_pixel_alone() {
    let mut b = vec![9u8; 10];
    clear(&mut b, [1, 2, 3, 4]);
    assert_eq!(b, vec![1, 2, 3, 4, 1, 2, 3, 4, 9, 9]);
}

#[test]
fn put_pixel_writes_one_pixel_and_ignores_off_canvas() {
    let mut b = canvas();
    put_pixel(&mut b, 959, 539, RED);
    assert_eq!(px(&b, 959, 539), RED);
    assert_eq!(px(&b, 958, 539), [0; 4]);
    let before = b.clone();
    put_pixel(&mut b, -1, 0, RED);
    put_pixel(&mut b, 960, 0, RED);
    put_pixel(&mut b, 0, 540, RED);
    assert_eq!(b, before);
}

#[test]
fn hline_is_half_open_and_clipped() {
    let mut b = canvas();
    hline(&mut b, 10, -5, 3, RED);
    assert_eq!(px(&b, 0, 10), RED);
    assert_eq!(px(&b, 2, 10), RED);
    assert_eq!(px(&b, 3, 10), [0; 4]);
    hline(&mut b, 11, 950, 2000, RED);
    assert_eq!(px(&b, 959, 11), RED);
    assert_eq!(px(&b, 949, 11), [0; 4]);
    let before = b.clone();
    hline(&mut b, 600, 0, 10, RED);
    hline(&mut b, 12, 5, 5, RED);
    assert_eq!(b, before);
}

#[test]
fn vline_is_half_open_and_clipped() {
    let mut b = canvas();
    vline(&mut b, 7, 530, 600, RED);
    assert_eq!(px(&b, 7, 530), RED);
    assert_eq!(px(&b, 7, 539), RED);
    assert_eq!(px(&b, 7, 529), [0; 4]);
    assert_eq!(px(&b, 8, 535), [0; 4]);
    let before = b.clone();
    vline(&mut b, 960, 0, 10, RED);
    assert_eq!(b, before);
}

#[test]
fn black_keys_are_the_sharps() {
    let blacks: Vec<i32> = (60..72).filter(|&p| is_black_key(p)).collect();
    assert_eq!(blacks, vec![61, 63, 66, 68, 70]);
    assert!(is_black_key(-11));
    assert!(!is_black_key(-12));
    assert!(is_black_key(i32::MIN + 2));
}

#[test]
fn grid_octave_lines() {
    // Key 28 is E; the first C boundary is 36 = 28 + 8.
    assert_eq!(grid_line_color(8), OCTAVE_COLOR);
    assert_eq!(grid_line_color(0), LANE_COLOR);
    assert_eq!(grid_line_color(20), OCTAVE_COLOR);
}

#[test]
fn keyboard_shapes() {
    // E (28): lowest key, F follows -> no extension either side.
    let e = white_key_shape(28);
    assert!(!e.extend_left && !e.extend_right);
    // D (62): C# on the left, D# on the right.
    let d = white_key_shape(62);
    assert!(d.extend_left && d.extend_right);
    assert_eq!(white_key_seam(28), Some(WhiteKeySeam::FullHeightAtRightEdge));
    assert_eq!(white_key_seam(60), Some(WhiteKeySeam::LowerHalfAtNextCenter));
    assert_eq!(white_key_seam(61), None);
    assert_eq!(white_key_seam(100), None);
}

#[test]
fn active_keys_last_channel_wins() {
    let n = |visible, kind, off, c: u8| ChannelNote { visible, kind, key_offset: off, color: [c, c, c, 255] };
    let notes = vec![
        n(true, NoteKind::Frequency, 30, 1),
        n(true, NoteKind::Frequency, 30, 2),
        n(false, NoteKind::Frequency, 31, 3),
        n(true, NoteKind::Noise, 32, 4),
        n(true, NoteKind::Frequency, 90, 5),
        n(true, NoteKind::Frequency, 5, 6),
    ];
    let keys = active_keys(24, &notes);
    assert_eq!(keys.get_color(54), Some([2, 2, 2, 255]));
    assert_eq!(keys.get_color(55), None);
    assert_eq!(keys.get_color(56), None);
    assert_eq!(keys.get_color(114), None);
    assert_eq!(keys.get_color(29), Some([6, 6, 6, 255]));
}

#[test]
fn depth_capacity_is_220() {
    assert_eq!(depth_capacity(), 220);
}

#[test]
fn find_edge_cases() {
    assert_eq!(find_edge(&[], 3, 4), 0);
    // No edge: the window start.
    assert_eq!(find_edge(&[0, 0, 0, 0], 1, 2), 3);
    // Edge found two steps back from the start, moved back half a window.
    assert_eq!(find_edge(&[0, 0, 5, 0], 1, 2), 1);
    // Window larger than the ring.
    assert_eq!(find_edge(&[0, 7, 0], 0, 10), 0);
}

#[test]
fn channel_cells_tile_the_strip() {
    let cells = channel_cells(960, 7);
    assert_eq!(cells.len(), 7);
    assert_eq!(cells[0], (0, 137));
    assert_eq!(cells[6], (822, 138));
    let total: u32 = cells.iter().map(|c| c.1).sum();
    assert_eq!(total, 960);
    for k in 1..cells.len() {
        assert_eq!(cells[k].0, cells[k - 1].0 + cells[k - 1].1);
    }
    assert_eq!(channel_cells(10, 1), vec![(0, 10)]);
}

#[test]
fn divider_fade() {
    let a: Vec<u8> = (0..5).map(divider_alpha).collect();
    assert_eq!(a, vec![255, 163, 91, 40, 10]);
}

#[test]
fn label_positions() {
    assert_eq!(label_origins(100, 0, 137, 70, 6), ((104, 2), (100 + 137 - 52, 60)));
    // A name wider than the cell is pinned to the cell's left edge.
    assert_eq!(label_origins(10, 5, 20, 4, 6), ((14, 7), (10, 5)));
}

#[test]
fn blit_copies_rows_into_canvas() {
    let src: Vec<u8> = (0..(2 * 3 * 4)).map(|v| v as u8).collect();
    let mut dst = vec![0u8; 4 * 2 * 4];
    blit_to_dst(&src, 3, 2, &mut dst, 2, 4, 1);
    assert_eq!(&dst[0..8], &[0u8; 8]);
    assert_eq!(&dst[8..16], &src[0..8]);
    assert_eq!(&dst[16..24], &src[12..20]);
    assert_eq!(&dst[24..32], &[0u8; 8]);
    let mut dst2 = vec![0u8; 4 * 2 * 4];
    blit_to_dst(&src, 3, 2, &mut dst2, 2, 4, 3);
    assert_eq!(&dst2[24..32], &src[0..8]);
    assert_eq!(&dst2[0..24], &[0u8; 24]);
}
