use minau::linear::LinearResampler;

fn blend(a: f32, b: f32, weight: u32, rate: u32) -> f32 {
    a + (b - a) * (weight as f64 / rate as f64) as f32
}

fn mid(a: i64, b: i64, weight: u32, rate: u32) -> i64 {
    a + (b - a) * weight as i64 / rate as i64
}

fn whole(input: &[i64], from: u32, to: u32, channels: usize) -> Vec<i64> {
    let mut c = LinearResampler::new(from, to, channels).unwrap();
    let mut out = c.resample_linear(input, &mid);
    out.extend(c.finish());
    out
}

fn in_pieces(pieces: &[&[i64]], from: u32, to: u32, channels: usize) -> Vec<i64> {
    let mut c = LinearResampler::new(from, to, channels).unwrap();
    let mut out = Vec::new();
    for piece in pieces {
        out.extend(c.resample_linear(piece, &mid));
    }
    out.extend(c.finish());
    out
}

#[test]
fn conversion_needs_rates_and_channels() {
    assert!(LinearResampler::<i64>::new(0, 48000, 2).is_none());
    assert!(LinearResampler::<i64>::new(44100, 0, 2).is_none());
    assert!(LinearResampler::<i64>::new(44100, 48000, 0).is_none());
    assert_eq!(LinearResampler::<i64>::new(44100, 48000, 2).unwrap().to_rate(), 48000);
}

#[test]
fn equal_rates_need_nothing() {
    for (rate, channels) in [(44100u32, 2usize), (44100, 0), (0, 2), (0, 0)] {
        let mut c = LinearResampler::new(rate, rate, channels).unwrap();
        assert_eq!(c.to_rate(), rate);
        assert_eq!(c.resample_linear(&[1i64, 2, 3], &mid), vec![1, 2, 3]);
        assert_eq!(c.finish(), Vec::<i64>::new());
    }
}

#[test]
fn packets_join_without_a_seam() {
    // frames 0 and 10, mono, doubled in rate
    assert_eq!(whole(&[0, 10], 1, 2, 1), vec![0, 5, 10, 10]);
    assert_eq!(in_pieces(&[&[0], &[10]], 1, 2, 1), vec![0, 5, 10, 10]);
}

#[test]
fn first_packet_waits_for_the_frame_behind_it() {
    let mut c = LinearResampler::new(1, 2, 1).unwrap();
    assert_eq!(c.resample_linear(&[0i64], &mid), Vec::<i64>::new());
    assert_eq!(c.resample_linear(&[10], &mid), vec![0, 5]);
    assert_eq!(c.resample_linear(&[], &mid), Vec::<i64>::new());
    assert_eq!(c.resample_linear(&[20, 40], &mid), vec![10, 15, 20, 30]);
    assert_eq!(c.finish(), vec![40, 40]);
    // ready for another stream
    assert_eq!(c.resample_linear(&[7, 9], &mid), vec![7, 8]);
    assert_eq!(c.finish(), vec![9, 9]);
    assert_eq!(c.finish(), Vec::<i64>::new());
}

#[test]
fn output_does_not_depend_on_where_packets_are_cut() {
    let input: Vec<i64> = (0..200).map(|i| (i * i) % 1000).collect();
    for (from, to) in [(44100u32, 48000u32), (48000, 44100), (1, 3), (3, 1), (7, 5), (2, 2)] {
        for channels in [1usize, 2, 4] {
            let all = whole(&input, from, to, channels);
            for cut in [0usize, 1, 2, 3, 50, 199, 200] {
                let cut = cut / channels * channels;
                let got = in_pieces(&[&input[..cut], &input[cut..]], from, to, channels);
                assert_eq!(got, all, "{}->{} x{} cut {}", from, to, channels, cut);
            }
            let frames: Vec<&[i64]> = input.chunks(channels).collect();
            assert_eq!(in_pieces(&frames, from, to, channels), all);
        }
    }
}

#[test]
fn whole_stream_has_the_frames_of_the_quotient_rounded_up() {
    for (frames, from, to) in [
        (441usize, 44100u32, 48000u32),
        (100, 44100, 48000),
        (100, 48000, 44100),
        (1, 1, 3),
        (10, 3, 1),
        (0, 44100, 48000),
        (5, 7, 7),
    ] {
        let input: Vec<i64> = (0..frames as i64 * 2).collect();
        let expected =
            (frames as u64 * to as u64 + from as u64 - 1) / from as u64;
        assert_eq!(whole(&input, from, to, 2).len() as u64, expected * 2, "{} {} {}", frames, from, to);
    }
    // 441 frames at 44.1 kHz are 480 frames at 48 kHz
    let input: Vec<i64> = (0..882).collect();
    assert_eq!(whole(&input, 44100, 48000, 2).len(), 960);
}

#[test]
fn stereo_44100_to_48000_stays_between_its_neighbours() {
    let frames = 4410usize;
    let input: Vec<f32> = (0..frames * 2).map(|i| (i as f32 * 0.01).sin()).collect();
    let mut c = LinearResampler::new(44100, 48000, 2).unwrap();
    let mut output = Vec::new();
    for packet in input.chunks(1152 * 2) {
        output.extend(c.resample_linear(packet, &blend));
    }
    output.extend(c.finish());
    assert_eq!(output.len(), 4800 * 2);
    assert_eq!(output[0], input[0]);
    assert_eq!(output[1], input[1]);
    for (k, sample) in output.iter().enumerate() {
        let at = (k / 2) * 44100 / 48000;
        let lo = input[at * 2 + k % 2];
        let hi = input[(at + 1).min(frames - 1) * 2 + k % 2];
        assert!(*sample >= lo.min(hi) - 1e-6 && *sample <= lo.max(hi) + 1e-6);
    }
}

#[test]
fn downsampling_by_two_takes_every_other_frame() {
    let input = [1i64, 2, 3, 4, 5, 6, 7, 8];
    assert_eq!(whole(&input, 2, 1, 2), vec![1, 2, 5, 6]);
    assert_eq!(in_pieces(&[&input[..2], &input[2..6], &input[6..]], 2, 1, 2), vec![1, 2, 5, 6]);
}

#[test]
fn samples_behind_the_last_whole_frame_are_passed_over_in_a_conversion() {
    let mut c = LinearResampler::new(1, 2, 2).unwrap();
    assert_eq!(c.resample_linear(&[1i64, 2, 3, 4, 5], &mid), vec![1, 2, 2, 3]);
    assert_eq!(c.finish(), vec![3, 4, 3, 4]);
}

fn never(_: f32, _: f32, _: u32, _: u32) -> f32 {
    panic!("no sample is blended between equal rates");
}

#[test]
fn equal_rates_give_the_packet_back_as_it_came() {
    let mut c = LinearResampler::new(44100, 44100, 2).unwrap();
    // three samples of a two-channel stream
    assert_eq!(c.resample_linear(&[0.25f32, -0.5, 0.75], &never), vec![0.25, -0.5, 0.75]);
    assert_eq!(c.finish(), Vec::<f32>::new());
    // one sample, and none
    assert_eq!(c.resample_linear(&[1.5f32], &never), vec![1.5]);
    assert_eq!(c.resample_linear(&[], &never), Vec::<f32>::new());
    assert_eq!(c.finish(), Vec::<f32>::new());
    let long: Vec<f32> = (0..1001).map(|i| i as f32).collect();
    assert_eq!(c.resample_linear(&long, &never), long);
    assert_eq!(c.finish(), Vec::<f32>::new());
}

#[test]
fn equal_rates_keep_every_packet_whatever_its_length() {
    for channels in [1usize, 2, 3, 5] {
        for len in 0..12usize {
            let input: Vec<i64> = (0..len as i64).collect();
            let mut c = LinearResampler::new(7, 7, channels).unwrap();
            assert_eq!(c.resample_linear(&input, &mid), input);
            assert_eq!(c.resample_linear(&input, &mid), input);
            assert_eq!(c.finish(), Vec::<i64>::new());
        }
    }
}
