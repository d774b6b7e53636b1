use minau::control::{SeekError, Span, VolumeChange};
use minau::play::Action;
use minau::remote::{UrlPlayer, STREAM_HEADROOM};
use minau::source::Selection;

fn blend(a: f32, b: f32, weight: u32, rate: u32) -> f32 {
    a + (b - a) * (weight as f64 / rate as f64) as f32
}

fn gain(sample: f32, volume: u8) -> f32 {
    sample * (volume as f32 / 100.0)
}

fn stream(rate: u32, channels: u16, device: u32, total: Option<u64>) -> UrlPlayer<f32> {
    UrlPlayer::new(Selection { track_id: 1, sample_rate: rate, channels }, device, 80, total)
}

#[test]
fn fresh_stream_session() {
    let p = stream(44100, 2, 48000, None);
    assert_eq!(p.sample_rate(), 44100);
    assert_eq!(p.channels(), 2);
    assert_eq!(p.get_volume(), 80);
    assert!(!p.is_paused());
    assert!(!p.is_empty());
    assert!(p.resamples());
    assert!(!stream(48000, 2, 48000, None).resamples());
    assert_eq!(p.get_total_bytes(), None);
    assert_eq!(p.get_downloaded_bytes(), 0);
    assert_eq!(p.get_download_progress(), None);
    assert_eq!(p.next_action(), Action::Decode);
    assert!(p.accepts(1));
    assert!(!p.accepts(0));
    assert!(!p.control().is_seekable());
    assert_eq!(STREAM_HEADROOM, 4096);
}

#[test]
fn progress_is_counted_in_thousandths() {
    let mut p = stream(44100, 2, 48000, Some(3000));
    p.record_chunk(1000);
    assert_eq!(p.get_download_progress(), Some(333));
    p.record_chunk(500);
    assert_eq!(p.get_download_progress(), Some(500));
    p.record_chunk(1500);
    assert_eq!(p.get_download_progress(), Some(1000));
    p.record_chunk(3000);
    assert_eq!(p.get_download_progress(), Some(2000));
    // an announced length of zero counts as all there
    assert_eq!(stream(44100, 2, 48000, Some(0)).get_download_progress(), Some(1000));
}

#[test]
fn download_count_stops_at_the_top() {
    let mut p = stream(44100, 2, 48000, Some(1));
    p.record_chunk(usize::MAX);
    p.record_chunk(usize::MAX);
    assert_eq!(p.get_downloaded_bytes(), u64::MAX);
    assert_eq!(p.get_download_progress(), Some(u64::MAX as u128 * 1000));
}

#[test]
fn equal_rates_put_out_as_many_samples_as_came_in() {
    let mut p = stream(48000, 2, 48000, None);
    let samples: Vec<f32> = (0..4000).map(|i| i as f32).collect();
    p.on_decoded(samples.clone(), &blend);
    assert_eq!(p.next_action(), Action::Push);
    p.pump();
    assert_eq!(p.next_action(), Action::Decode);
    let mut out = vec![0.0f32; 5000];
    assert_eq!(p.render(&mut out, 0.0, &|v: f32, _: u8| v), 4000);
    assert_eq!(&out[..4000], &samples[..]);
}

#[test]
fn stream_at_44100_on_a_device_at_48000_is_converted() {
    let mut p = stream(44100, 2, 48000, None);
    let frames = 441usize;
    let samples: Vec<f32> = (0..frames * 2).map(|i| (i / 2) as f32).collect();
    let mut out = vec![-1.0f32; 2000];
    let mut taken = 0;
    // in three packets
    for packet in samples.chunks(300) {
        p.on_decoded(packet.to_vec(), &blend);
        p.pump();
        taken += p.render(&mut out[taken..], 0.0, &|v: f32, _: u8| v);
    }
    p.on_end_of_stream();
    assert!(!p.is_empty());
    p.pump();
    assert!(p.is_empty());
    taken += p.render(&mut out[taken..], 0.0, &|v: f32, _: u8| v);
    assert_eq!(taken, 480 * 2);
    // both channels carry the frame number, stretched by 147/160, with no seam
    for frame in 0..480usize {
        let expected = (frame as f64 * 44100.0 / 48000.0).min(440.0) as f32;
        assert!((out[frame * 2] - expected).abs() < 1e-3, "frame {}", frame);
        assert_eq!(out[frame * 2], out[frame * 2 + 1]);
    }
}

#[test]
fn ring_of_a_stream_holds_two_seconds_less_the_headroom() {
    let mut p = stream(8000, 1, 8000, None);
    p.on_decoded(vec![1.0; 20000], &blend);
    p.pump();
    assert_eq!(p.next_action(), Action::Rest);
    let mut out = vec![0.0f32; 20000];
    assert_eq!(p.render(&mut out, 0.0, &gain), 16000 - 4096);
    assert_eq!(out[0], 0.8);
}

#[test]
fn paused_stream_is_silent() {
    let mut p = stream(8000, 1, 8000, None);
    p.on_decoded(vec![1.0; 100], &blend);
    p.pump();
    p.pause();
    assert!(p.is_paused());
    let mut out = [5.0f32; 10];
    assert_eq!(p.render(&mut out, 0.0, &gain), 0);
    assert_eq!(out, [0.0; 10]);
    p.resume();
    assert_eq!(p.render(&mut out, 0.0, &gain), 10);
    assert_eq!(out, [0.8; 10]);
}

#[test]
fn stream_volume_is_held_in_range() {
    let mut p = stream(8000, 1, 8000, None);
    p.set_volume(150);
    assert_eq!(p.get_volume(), 100);
    p.set_volume(-20);
    assert_eq!(p.get_volume(), 0);
    assert_eq!(p.adjust_volume(5), VolumeChange::Changed(5));
    assert_eq!(p.adjust_volume(-5), VolumeChange::Changed(0));
    assert_eq!(p.adjust_volume(-5), VolumeChange::AtMinimum);
}

#[test]
fn a_stream_refuses_every_seek() {
    let mut p = stream(8000, 1, 8000, None);
    assert_eq!(p.seek(Span::from_secs(10)), Err(SeekError::SeekUnsupported));
    assert_eq!(p.control().get_pos(), 0);
    assert_eq!(p.next_action(), Action::Decode);
}

#[test]
fn end_of_stream_lets_the_stream_play_out() {
    let mut p = stream(8000, 1, 8000, None);
    p.on_decoded(vec![1.0; 10], &blend);
    p.on_end_of_stream();
    assert!(!p.is_empty());
    assert_eq!(p.next_action(), Action::Push);
    p.pump();
    assert!(p.is_empty());
    assert_eq!(p.next_action(), Action::Stop);
    let mut out = [0.0f32; 4];
    assert_eq!(p.render(&mut out, 0.0, &gain), 4);
    let mut fresh = stream(8000, 1, 8000, None);
    fresh.on_end_of_stream();
    assert!(fresh.is_empty());
    let mut stopped = stream(8000, 1, 8000, None);
    stopped.on_decoded(vec![1.0; 10], &blend);
    stopped.stop();
    assert!(stopped.is_empty());
}
