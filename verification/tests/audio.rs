use voices3r::audio::{
    bytes_of, fill_mono, fill_samples, frame_peak, peak_with, sample_of, silence, stereo_chunk,
    stereo_wanted, to_stereo, Beep,
};

fn pcm(samples: &[i16]) -> Vec<u8> {
    samples.iter().flat_map(|s| s.to_le_bytes()).collect()
}

#[test]
fn samples_and_bytes() {
    for s in [0i16, 1, -1, 255, 256, -256, 7000, -7000, i16::MAX, i16::MIN] {
        let le = s.to_le_bytes();
        assert_eq!(bytes_of(s), (le[0], le[1]));
        assert_eq!(sample_of(le[0], le[1]), s);
    }
}

#[test]
fn peak_of_a_frame() {
    assert_eq!(frame_peak(&[]), 0);
    assert_eq!(frame_peak(&[9]), 0);
    assert_eq!(frame_peak(&pcm(&[0, 3, -7, 5])), 7);
    assert_eq!(frame_peak(&pcm(&[i16::MIN, i16::MAX])), 32768);
    let mut odd = pcm(&[10]);
    odd.push(0xff);
    assert_eq!(frame_peak(&odd), 10);
}

#[test]
fn mono_goes_to_both_channels() {
    let mono = pcm(&[1, -2, 300]);
    let st = to_stereo(&mono, 0, mono.len());
    assert_eq!(st, pcm(&[1, 1, -2, -2, 300, 300]));
    assert_eq!(to_stereo(&mono, 2, 4), pcm(&[-2, -2]));
    assert_eq!(to_stereo(&[1, 2, 3], 0, 3), vec![1, 2, 1, 2]);
}

#[test]
fn what_is_played_is_heard_back() {
    let mono = pcm(&[5, -6, 7, i16::MIN]);
    let st = to_stereo(&mono, 0, mono.len());
    let mut out = vec![0xaa; 12];
    assert_eq!(fill_mono(&st, &mut out), 8);
    assert_eq!(&out[..8], &mono[..]);
    assert_eq!(&out[8..], &[0xaa; 4]);
    assert_eq!(fill_mono(&st[..7], &mut out), 2);
}

#[test]
fn chunks_join_without_seams() {
    for n in [0usize, 1, 2, 1023, 1024, 1025, 2048, 3000] {
        let mono: Vec<u8> = (0..n).map(|i| (i % 251) as u8).collect();
        let mut all = Vec::new();
        let mut k = 0;
        while let Some(c) = stereo_chunk(&mono, k) {
            assert!(c.len() <= 2048);
            all.extend(c);
            k += 1;
        }
        assert_eq!(k, n.div_ceil(1024));
        assert_eq!(all, to_stereo(&mono, 0, n));
    }
    assert!(stereo_chunk(&[1, 2], usize::MAX).is_none());
}

#[test]
fn silence_is_one_stereo_chunk() {
    assert_eq!(silence(), vec![0u8; 2048]);
}

#[test]
fn capture_reads_no_more_than_a_chunk() {
    assert_eq!(stereo_wanted(0), 0);
    assert_eq!(stereo_wanted(100), 200);
    assert_eq!(stereo_wanted(1024), 2048);
    assert_eq!(stereo_wanted(usize::MAX), 2048);
}

#[test]
fn frames_are_filled_in_parts() {
    let mut out = vec![0i16; 5];
    let done = fill_samples(&pcm(&[1, 2, 3]), &mut out, 0);
    assert_eq!(done, 3);
    let done = fill_samples(&pcm(&[4, -5, 6, 7]), &mut out, done);
    assert_eq!(done, 5);
    assert_eq!(out, vec![1, 2, 3, 4, -5]);
    assert_eq!(fill_samples(&pcm(&[9]), &mut out, 5), 5);
    assert_eq!(out, vec![1, 2, 3, 4, -5]);
}

#[test]
fn peak_of_the_left_channel() {
    let st = pcm(&[10, 999, -20, 999]);
    assert_eq!(peak_with(0, &st), 20);
    assert_eq!(peak_with(50, &st), 50);
    assert_eq!(peak_with(0, &[]), 0);
    assert_eq!(peak_with(0, &st[..7]), 10);
}

#[test]
fn a_beep_is_a_square_wave() {
    let mut b = Beep::new(1000, 250);
    assert_eq!(b.total, 4000);
    assert_eq!(b.half_period, 8);
    let mut all = Vec::new();
    let mut sizes = Vec::new();
    while let Some(c) = b.next_chunk() {
        sizes.push(c.len());
        all.extend(c);
    }
    assert_eq!(sizes.len(), 8);
    assert_eq!(sizes[0], 2048);
    assert_eq!(sizes[7], 4 * (4000 - 7 * 512));
    assert_eq!(all.len(), 16000);
    for k in 0..4000 {
        let want: i16 = if (k / 8) % 2 == 0 { 7000 } else { -7000 };
        assert_eq!(all[4 * k..4 * k + 4], pcm(&[want, want])[..]);
    }
    assert!(b.next_chunk().is_none());
}

#[test]
fn beeps_at_the_edges() {
    assert_eq!(Beep::new(0, 1).half_period, 8000);
    assert_eq!(Beep::new(1, 1).half_period, 8000);
    assert_eq!(Beep::new(16000, 1).half_period, 1);
    assert_eq!(Beep::new(u32::MAX, 1).half_period, 1);
    assert_eq!(Beep::new(1200, 60).total, 960);
    assert_eq!(Beep::new(1200, 60).half_period, 6);
    assert!(Beep::new(440, 0).next_chunk().is_none());
}
