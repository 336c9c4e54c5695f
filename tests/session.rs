use audio_reactive_led_strip::config::{Args, Config};
use audio_reactive_led_strip::frame::{frame_duration_nanos, FrameClock, RenderSession};
use audio_reactive_led_strip::history::RollingHistory;
use audio_reactive_led_strip::layout::{correlate_1d_single, mirror_concat, tail_from};
use audio_reactive_led_strip::led::Rgb;
use audio_reactive_led_strip::preset::{clamp_slider_values, DisplayMode, Preset, SliderSide};

#[test]
fn default_config_values() {
    let c = Config::default();
    assert_eq!(c.device_ip, "192.168.0.150");
    assert_eq!(c.device_port, 7777);
    assert_eq!(c.n_points, 255);
    assert_eq!(c.mic_rate, 44100);
    assert_eq!(c.fps, 60);
    assert_eq!(c.min_frequency, 200);
    assert_eq!(c.max_frequency, 12000);
    assert_eq!(c.n_fft_bins, 24);
    assert_eq!(c.n_rolling_history, 2);
    assert!(c.software_gamma_correction);
    assert!(!c.use_gui);
    assert!(c.is_valid());
}

#[test]
fn config_validity() {
    let mut c = Config::default();
    c.max_frequency = 22050;
    assert!(c.is_valid());
    c.max_frequency = 22051;
    assert!(!c.is_valid());
    let mut c = Config::default();
    c.min_frequency = 12000;
    assert!(!c.is_valid());
    let mut c = Config::default();
    c.n_fft_bins = 0;
    assert!(!c.is_valid());
    let mut c = Config::default();
    c.n_points = 0;
    assert!(!c.is_valid());
}

#[test]
fn merge_with_args_overrides_given_fields() {
    let mut c = Config::default();
    c.merge_with_args(Args { device_ip: None, device_port: None, use_gui: false });
    assert_eq!(c.device_ip, "192.168.0.150");
    assert_eq!(c.device_port, 7777);
    assert!(!c.use_gui);
    c.merge_with_args(Args {
        device_ip: Some(String::from("10.0.0.2")),
        device_port: Some(4242),
        use_gui: true,
    });
    assert_eq!(c.device_ip, "10.0.0.2");
    assert_eq!(c.device_port, 4242);
    assert!(c.use_gui);
    c.merge_with_args(Args { device_ip: None, device_port: None, use_gui: false });
    assert!(c.use_gui);
    assert_eq!(c.n_points, 255);
}

#[test]
fn display_modes_and_presets() {
    let all = DisplayMode::all();
    assert_eq!(all, vec![DisplayMode::Rolling, DisplayMode::Power, DisplayMode::Frequency]);
    let labels: Vec<&str> = all.iter().map(|m| m.label()).collect();
    assert_eq!(labels, vec!["Rolling", "Power", "Frequency"]);
    assert_eq!(DisplayMode::Rolling.preset(), Preset::Scroll);
    assert_eq!(DisplayMode::Power.preset(), Preset::Power);
    assert_eq!(DisplayMode::Frequency.preset(), Preset::Spectrum);
    assert_ne!(SliderSide::Left, SliderSide::Right);
}

#[test]
fn slider_values_are_clamped_and_ordered() {
    assert_eq!(clamp_slider_values(200, 12000, 200, 20000), (200, 12000));
    assert_eq!(clamp_slider_values(200, 12000, 100, 500), (200, 500));
    assert_eq!(clamp_slider_values(200, 12000, 900, 500), (500, 500));
    assert_eq!(clamp_slider_values(200, 12000, 30000, 30000), (12000, 12000));
}

#[test]
fn rolling_history_keeps_most_recent_samples() {
    let mut h = RollingHistory::new(4, 0.0f64);
    assert_eq!(h.samples(), &vec![0.0; 4]);
    h.push(&[1.0, 2.0]);
    assert_eq!(h.samples(), &vec![0.0, 0.0, 1.0, 2.0]);
    h.push(&[]);
    assert_eq!(h.samples(), &vec![0.0, 0.0, 1.0, 2.0]);
    h.push(&[3.0, 4.0, 5.0, 6.0]);
    assert_eq!(h.samples(), &vec![3.0, 4.0, 5.0, 6.0]);
    h.push(&[7.0, 8.0, 9.0, 10.0, 11.0, 12.0]);
    assert_eq!(h.samples(), &vec![9.0, 10.0, 11.0, 12.0]);
    assert_eq!(h.capacity(), 4);
}

#[test]
fn frame_clock_renders_once_per_period() {
    assert_eq!(frame_duration_nanos(60), 16_666_666);
    assert_eq!(frame_duration_nanos(1), 1_000_000_000);
    let mut clock = FrameClock::new(60);
    assert!(clock.tick(5));
    assert_eq!(clock.last_render, Some(5));
    assert!(!clock.tick(5 + 16_666_666));
    assert!(clock.tick(5 + 16_666_667));
    assert_eq!(clock.last_render, Some(16_666_672));
    assert!(!clock.tick(3));
}

#[test]
fn session_updates_history_always_and_sends_only_on_frames() {
    let mut s = RenderSession::new(4, 3, 60, false, 0.0f64);
    assert_eq!(s.send_buffer, vec![Rgb { r: 0, g: 0, b: 0 }; 4]);
    assert_eq!(s.preset, Preset::Scroll);
    assert!(s.on_audio(&[0.5], 1000));
    assert!(!s.on_audio(&[0.25, 0.125], 2000));
    assert_eq!(s.history.samples(), &vec![0.5, 0.25, 0.125]);
    let frame = vec![
        Rgb { r: 0, g: 0, b: 0 },
        Rgb { r: 9, g: 8, b: 7 },
        Rgb { r: 9, g: 8, b: 7 },
        Rgb { r: 0, g: 0, b: 0 },
    ];
    let packets = s.commit_frame(frame.clone());
    assert_eq!(packets, vec![vec![1, 9, 8, 7, 2, 9, 8, 7]]);
    assert_eq!(s.send_buffer, frame);
    assert!(s.commit_frame(frame).is_empty());
    s.set_preset(Preset::Power);
    assert_eq!(s.preset, Preset::Power);
}

fn run_pipeline(chunks: &[Vec<f64>]) -> Vec<Vec<u8>> {
    let mut s = RenderSession::new(6, 8, 60, true, 0.0f64);
    let kern = vec![0.25, 0.5, 0.25];
    let mut sent = Vec::new();
    for (t, chunk) in chunks.iter().enumerate() {
        if s.on_audio(chunk, (t as u64) * 20_000_000) {
            let smooth = correlate_1d_single(s.history.samples(), &kern, |w: &Vec<f64>, k: &Vec<f64>| {
                w.iter().zip(k.iter()).map(|(a, b)| a * b).sum()
            });
            let half = tail_from(&smooth, smooth.len() - 3);
            let full = mirror_concat(&half, 0);
            let frame: Vec<Rgb> = full
                .iter()
                .map(|v| {
                    let b = (v.abs() * 255.0).min(255.0) as u8;
                    Rgb { r: b, g: b / 2, b: 255 - b }
                })
                .collect();
            sent.push(s.commit_frame(frame).concat());
        }
    }
    sent
}

#[test]
fn same_audio_gives_same_datagrams() {
    let chunks: Vec<Vec<f64>> = (0..12)
        .map(|t| (0..5).map(|i| ((t * 5 + i) as f64 * 0.7).sin()).collect())
        .collect();
    let a = run_pipeline(&chunks);
    let b = run_pipeline(&chunks);
    assert_eq!(a.len(), 12);
    assert_eq!(a, b);
}

#[test]
fn window_does_not_depend_on_chunking() {
    let mut once = RollingHistory::new(5, 0u32);
    let mut twice = RollingHistory::new(5, 0u32);
    let a = [1, 2, 3];
    let b = [4, 5, 6, 7];
    twice.push(&a);
    twice.push(&b);
    let joined: Vec<u32> = a.iter().chain(b.iter()).copied().collect();
    once.push(&joined);
    assert_eq!(once.samples(), twice.samples());
    assert_eq!(once.samples(), &vec![3, 4, 5, 6, 7]);
}
