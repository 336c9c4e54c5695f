//! Render-session parameters, their defaults, and command-line overrides.
use vstd::prelude::*;

verus! {

/// Command-line overrides of the configuration.
#[derive(Clone, Debug)]
pub struct Args {
    pub device_ip: Option<String>,
    pub device_port: Option<u32>,
    pub use_gui: bool,
}

/// The parameters of a render session; read-only once the session starts.
#[derive(Clone, Debug)]
pub struct Config {
    /// Address of the LED controller.
    pub device_ip: String,
    /// UDP port of the LED controller.
    pub device_port: u32,
    pub use_gui: bool,
    /// Remap channel bytes through the gamma curve before sending.
    pub software_gamma_correction: bool,
    /// Number of LEDs on the strip.
    pub n_points: u8,
    /// Microphone sample rate, in Hz.
    pub mic_rate: u32,
    /// Target frames per second.
    pub fps: u32,
    /// Lower edge of the mel band range, in Hz.
    pub min_frequency: u32,
    /// Upper edge of the mel band range, in Hz.
    pub max_frequency: u32,
    /// Samples per FFT, and length of the rolling history.
    pub n_fft_bins: u32,
    /// Number of mel filterbank outputs.
    pub n_mel_bands: u32,
    pub n_rolling_history: u32,
    pub left_slider_start: u32,
    pub right_slider_start: u32,
}

impl Config {
    /// The frequency range fits below the Nyquist frequency, and the FFT and
    /// the strip are not empty.
    pub open spec fn valid(&self) -> bool {
        &&& self.min_frequency < self.max_frequency
        &&& self.max_frequency <= self.mic_rate / 2
        &&& self.n_fft_bins > 0
        &&& self.n_points > 0
    }

    /// Whether the configuration meets its invariant.
    pub fn is_valid(&self) -> (r: bool)
        ensures
            r == self.valid(),
    {
        self.min_frequency < self.max_frequency && self.max_frequency <= self.mic_rate / 2
            && self.n_fft_bins > 0 && self.n_points > 0
    }

    /// Applies the command-line overrides: the GUI flag is or-ed in, an
    /// address or port that was given replaces the configured one.
    pub fn merge_with_args(&mut self, args: Args)
        ensures
            final(self).use_gui == (old(self).use_gui || args.use_gui),
            final(self).device_ip == (match args.device_ip {
                Some(ip) => ip,
                None => old(self).device_ip,
            }),
            final(self).device_port == (match args.device_port {
                Some(port) => port,
                None => old(self).device_port,
            }),
            final(self).software_gamma_correction == old(self).software_gamma_correction,
            final(self).n_points == old(self).n_points,
            final(self).mic_rate == old(self).mic_rate,
            final(self).fps == old(self).fps,
            final(self).min_frequency == old(self).min_frequency,
            final(self).max_frequency == old(self).max_frequency,
            final(self).n_fft_bins == old(self).n_fft_bins,
            final(self).n_mel_bands == old(self).n_mel_bands,
            final(self).n_rolling_history == old(self).n_rolling_history,
            final(self).left_slider_start == old(self).left_slider_start,
            final(self).right_slider_start == old(self).right_slider_start,
    {
        self.use_gui = self.use_gui || args.use_gui;
        match args.device_ip {
            Some(ip) => {
                self.device_ip = ip;
            },
            None => {},
        }
        match args.device_port {
            Some(port) => {
                self.device_port = port;
            },
            None => {},
        }
    }
}

impl Default for Config {
    fn default() -> (r: Config)
        ensures
            r.device_ip@ == "192.168.0.150"@,
            r.device_port == 7777,
            !r.use_gui,
            r.software_gamma_correction,
            r.n_points == 255,
            r.mic_rate == 44100,
            r.fps == 60,
            r.min_frequency == 200,
            r.max_frequency == 12000,
            r.n_fft_bins == 24,
            r.n_mel_bands == 24,
            r.n_rolling_history == 2,
            r.left_slider_start == 200,
            r.right_slider_start == 20000,
            r.valid(),
    {
        Config {
            device_ip: String::from_str("192.168.0.150"),
            device_port: 7777,
            use_gui: false,
            software_gamma_correction: true,
            n_points: 255,
            mic_rate: 44100,
            fps: 60,
            min_frequency: 200,
            max_frequency: 12000,
            n_fft_bins: 24,
            n_mel_bands: 24,
            n_rolling_history: 2,
            left_slider_start: 200,
            right_slider_start: 20000,
        }
    }
}

} // verus!
