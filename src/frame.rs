//! The decisions of the render loop: when a frame is due, and what carries
//! over from one frame to the next.
use vstd::prelude::*;
use crate::history::{last_n, RollingHistory};
use crate::led::{diff_records, is_split_of, LedEncoder, Rgb};
use crate::preset::Preset;

verus! {

/// Nanoseconds in one second.
pub const NANOS_PER_SEC: u64 = 1_000_000_000;

/// The period of one frame at `fps` frames per second, in nanoseconds.
pub fn frame_duration_nanos(fps: u32) -> (r: u64)
    requires
        fps > 0,
    ensures
        r == NANOS_PER_SEC as int / fps as int,
{
    NANOS_PER_SEC / fps as u64
}

/// Tracks when the last frame was rendered.
pub struct FrameClock {
    /// Period of one frame, in nanoseconds.
    pub frame_nanos: u64,
    /// Time of the last render, in nanoseconds on a monotonic clock; none
    /// before the first.
    pub last_render: Option<u64>,
}

impl FrameClock {
    /// A frame is due at `now` when none was rendered yet, or when more than
    /// one frame period has elapsed since the last one.
    pub open spec fn due(&self, now: u64) -> bool {
        match self.last_render {
            None => true,
            Some(t) => now > t && now - t > self.frame_nanos,
        }
    }

    /// A clock for `fps` frames per second on which the first frame is due at
    /// once.
    pub fn new(fps: u32) -> (r: FrameClock)
        requires
            fps > 0,
        ensures
            r.frame_nanos == NANOS_PER_SEC as int / fps as int,
            r.last_render is None,
    {
        FrameClock { frame_nanos: frame_duration_nanos(fps), last_render: None }
    }

    /// Whether a frame is due at `now`; if so, `now` becomes the time of the
    /// last render.
    pub fn tick(&mut self, now: u64) -> (r: bool)
        ensures
            r == old(self).due(now),
            final(self).frame_nanos == old(self).frame_nanos,
            final(self).last_render == (if r {
                Some(now)
            } else {
                old(self).last_render
            }),
    {
        let due = match self.last_render {
            None => true,
            Some(t) => now > t && now - t > self.frame_nanos,
        };
        if due {
            self.last_render = Some(now);
        }
        due
    }
}

/// The state that a render session carries across audio callbacks: the
/// rolling history of samples, the frame clock, the preset, and the pixels
/// last sent.
pub struct RenderSession<T> {
    pub history: RollingHistory<T>,
    pub clock: FrameClock,
    pub preset: Preset,
    pub encoder: LedEncoder,
    /// The frame last sent, as sent (after gamma correction).
    pub send_buffer: Vec<Rgb>,
}

impl<T: Copy> RenderSession<T> {
    /// The encoder is well formed and the strip has at most 256 pixels, one
    /// index byte each.
    pub open spec fn wf(&self) -> bool {
        &&& self.encoder.wf()
        &&& self.send_buffer.len() <= 256
    }

    /// A session for a strip of `n_points` pixels, all off, with `n_fft_bins`
    /// samples of history equal to `silence`, at `fps` frames per second.
    pub fn new(
        n_points: u8,
        n_fft_bins: u32,
        fps: u32,
        software_gamma_correction: bool,
        silence: T,
    ) -> (r: RenderSession<T>)
        requires
            fps > 0,
        ensures
            r.wf(),
            r.history.view() == Seq::new(n_fft_bins as nat, |i: int| silence),
            r.clock.frame_nanos == NANOS_PER_SEC as int / fps as int,
            r.clock.last_render is None,
            r.preset == Preset::Scroll,
            r.encoder.gamma_table is Some == software_gamma_correction,
            r.send_buffer@ == Seq::new(n_points as nat, |i: int| Rgb { r: 0, g: 0, b: 0 }),
    {
        let mut send_buffer: Vec<Rgb> = Vec::new();
        let mut i: u8 = 0;
        while i < n_points
            invariant
                i <= n_points,
                send_buffer@ == Seq::new(i as nat, |j: int| Rgb { r: 0, g: 0, b: 0 }),
            decreases n_points - i,
        {
            send_buffer.push(Rgb { r: 0, g: 0, b: 0 });
            proof {
                assert(send_buffer@ =~= Seq::new((i + 1) as nat, |j: int| Rgb { r: 0, g: 0, b: 0 }));
            }
            i = i + 1;
        }
        RenderSession {
            history: RollingHistory::new(n_fft_bins as usize, silence),
            clock: FrameClock::new(fps),
            preset: Preset::Scroll,
            encoder: LedEncoder::new(software_gamma_correction),
            send_buffer,
        }
    }

    /// Selects the transform for the following frames.
    pub fn set_preset(&mut self, preset: Preset)
        ensures
            final(self).preset == preset,
            final(self).history.view() == old(self).history.view(),
            final(self).clock == old(self).clock,
            final(self).encoder == old(self).encoder,
            final(self).send_buffer == old(self).send_buffer,
    {
        self.preset = preset;
    }

    /// One audio callback: the samples of `chunk` always enter the history;
    /// the result says whether a frame is due at `now`, in which case the
    /// clock restarts from `now`. Nothing else changes.
    pub fn on_audio(&mut self, chunk: &[T], now: u64) -> (r: bool)
        ensures
            final(self).history.view() == last_n(
                old(self).history.view() + chunk@,
                old(self).history.view().len(),
            ),
            r == old(self).clock.due(now),
            final(self).clock.frame_nanos == old(self).clock.frame_nanos,
            final(self).clock.last_render == (if r {
                Some(now)
            } else {
                old(self).clock.last_render
            }),
            final(self).preset == old(self).preset,
            final(self).encoder == old(self).encoder,
            final(self).send_buffer == old(self).send_buffer,
    {
        self.history.push(chunk);
        self.clock.tick(now)
    }

    /// Sends a rendered frame: gamma-corrects `frame`, returns the datagrams
    /// of the rows that differ from the frame last sent, and keeps the
    /// corrected frame as the one last sent.
    pub fn commit_frame(&mut self, frame: Vec<Rgb>) -> (r: Vec<Vec<u8>>)
        requires
            old(self).wf(),
            frame.len() == old(self).send_buffer.len(),
        ensures
            final(self).wf(),
            final(self).send_buffer@ == old(self).encoder.corrected(frame@),
            is_split_of(r@, diff_records(final(self).send_buffer@, old(self).send_buffer@)),
            final(self).history.view() == old(self).history.view(),
            final(self).clock == old(self).clock,
            final(self).preset == old(self).preset,
            final(self).encoder == old(self).encoder,
    {
        let mut frame = frame;
        let packets = self.encoder.encode(&mut frame, &self.send_buffer);
        self.send_buffer = frame;
        packets
    }
}

} // verus!
