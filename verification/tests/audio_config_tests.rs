use nsf_player::audio::{
    fill_buffer_i16, open_sample_ring, queue_silence, ring_capacity, silence_prefill_len,
};
use nsf_player::config::{initial_viz_size, scale_snap_size, view_mode_for, volume_byte, Config};
use nsf_player::player_thread::ViewMode;

#[test]
fn ring_sizes() {
    assert_eq!(ring_capacity(48000, 2), 19200);
    assert_eq!(ring_capacity(8000, 1), 4096);
    assert_eq!(silence_prefill_len(44100, 2), 8820);
}

#[test]
fn opened_ring_starts_with_silence_then_real_samples() {
    // 8000 Hz mono: a 4096-slot ring with 800 samples of silence queued.
    let (mut prod, mut cons) = open_sample_ring(8000, 1);
    assert_eq!(prod.prefill_goal(8000, 1, 150), 1200);
    assert!(prod.needs_prefill(1200, 0));
    assert!(!prod.needs_prefill(800, 0));
    assert!(!prod.needs_prefill(1200, 600));
    assert_eq!(prod.push_from(&[1, 2, 3], 0), 3);
    let mut out = vec![9i16; 805];
    let r = fill_buffer_i16(&mut out, &mut cons, true);
    assert_eq!(r.filled, 803);
    assert!(r.underrun);
    assert!(out[..800].iter().all(|&s| s == 0));
    assert_eq!(&out[800..], &[1, 2, 3, 0, 0]);
    let mut out = [9i16; 2];
    let r = fill_buffer_i16(&mut out, &mut cons, false);
    assert_eq!(r.filled, 0);
    assert!(!r.underrun);
    assert_eq!(out, [0, 0]);
}

#[test]
fn prefill_goal_follows_ring_capacity() {
    // 16000 Hz stereo: ring of 6400 slots, so 150 ms (4800 samples) fits.
    let (prod, _cons) = open_sample_ring(16000, 2);
    assert_eq!(prod.prefill_goal(16000, 2, 150), 4800);
    // 8000 Hz mono: ring of 4096 slots caps a 1 s goal at 4032.
    let (prod, _cons) = open_sample_ring(8000, 1);
    assert_eq!(prod.prefill_goal(8000, 1, 1000), 4032);
}

#[test]
fn full_ring_takes_nothing_more_until_drained() {
    let (mut prod, mut cons) = open_sample_ring(8000, 1);
    let big = vec![5i16; 4000];
    assert_eq!(prod.push_from(&big, 0), 3296);
    assert_eq!(prod.push_from(&big, 3296), 3296);
    assert_eq!(prod.push_from(&[1, 2], 1), 1);
    queue_silence(&mut prod, 10);
    assert!(!prod.needs_prefill(4096, 0));
    assert!(prod.needs_prefill(4097, 0));
    let mut head = [7i16; 10];
    assert_eq!(cons.drain_into(&mut head), 10);
    assert_eq!(head, [0i16; 10]);
    assert_eq!(prod.push_from(&[1, 2], 0), 2);
    let mut all = vec![7i16; 5000];
    assert_eq!(cons.drain_into(&mut all), 4088);
    assert_eq!(all[789], 0);
    assert_eq!(all[790], 5);
    assert_eq!(&all[4086..4088], &[1, 2]);
    assert_eq!(all[4088], 7);
}

#[test]
fn config_defaults_and_helpers() {
    let c = Config::default();
    assert!(c.playlist.is_empty());
    assert_eq!(c.view_mode, 0);
    assert_eq!(c.scale_mode, 2);
    assert!(!c.anti_aliasing);
    assert_eq!(c.volume, 255);
    assert!(!c.repeat);
    assert_eq!(volume_byte(-4), 0);
    assert_eq!(volume_byte(300), 255);
    assert_eq!(volume_byte(77), 77);
    assert_eq!(view_mode_for(1), ViewMode::Perspective);
    assert_eq!(view_mode_for(2), ViewMode::Classic);
    assert_eq!(scale_snap_size(1), Some((960, 540)));
    assert_eq!(scale_snap_size(2), Some((1920, 1080)));
    assert_eq!(scale_snap_size(0), None);
    assert_eq!(initial_viz_size(1), (960, 540));
    assert_eq!(initial_viz_size(0), (1920, 1080));
}

#[test]
fn paused_callback_leaves_queued_audio_alone() {
    let (mut prod, mut cons) = open_sample_ring(8000, 1);
    assert_eq!(prod.push_from(&[4, 5, 6], 0), 3);
    let mut out = [9i16; 4];
    let r = fill_buffer_i16(&mut out, &mut cons, false);
    assert_eq!(r.filled, 0);
    assert!(!r.underrun);
    assert_eq!(out, [0, 0, 0, 0]);
    let mut out = vec![9i16; 804];
    let r = fill_buffer_i16(&mut out, &mut cons, true);
    assert_eq!(r.filled, 803);
    assert!(r.underrun);
    assert_eq!(&out[800..], &[4, 5, 6, 0]);
}
