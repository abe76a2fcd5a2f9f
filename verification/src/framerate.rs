//! Frame pacing bookkeeping.
//!
//! The manager decides, from timestamps the caller supplies in
//! microseconds, how long a frame should still wait to hold the configured
//! frame rate, and keeps a frames-per-second figure updated once per
//! second. Reading the clock and sleeping are the caller's.

use vstd::prelude::*;

verus! {

/// Number of microseconds in one second.
pub const MICROS_PER_SECOND: u64 = 1000000;

/// Frame pacing state, all times in microseconds.
pub struct FramerateManager {
    /// Shortest allowed frame duration; zero means unlimited.
    pub min_frame_time: u64,
    /// Timestamp of the last frame.
    pub last_frame: u64,
    /// Frames counted since the last figure update.
    pub fps_counter: u32,
    /// Timestamp of the last figure update.
    pub last_fps_check: u64,
    /// Frames per second, updated once per second.
    pub current_fps: u32,
}

impl FramerateManager {
    /// A manager with no frame-rate cap and no frames counted.
    pub fn new() -> (r: FramerateManager)
        ensures
            r.min_frame_time == 0,
            r.last_frame == 0,
            r.fps_counter == 0,
            r.current_fps == 0,
    {
        FramerateManager {
            min_frame_time: 0,
            last_frame: 0,
            fps_counter: 0,
            last_fps_check: 0,
            current_fps: 0,
        }
    }

    /// Caps the frame rate: a frame may not end sooner than one `fps`-th of
    /// a second after the previous one.
    pub fn set_max_fps(&mut self, fps: u64)
        requires
            fps >= 1,
        ensures
            final(self).min_frame_time == MICROS_PER_SECOND / fps,
            final(self).last_frame == old(self).last_frame,
            final(self).fps_counter == old(self).fps_counter,
            final(self).last_fps_check == old(self).last_fps_check,
            final(self).current_fps == old(self).current_fps,
    {
        self.min_frame_time = MICROS_PER_SECOND / fps;
    }

    /// How long the current frame must still wait, given the time now: the
    /// rest of the minimum frame duration, or nothing once it has passed.
    pub fn sleep_time(&self, now: u64) -> (r: u64)
        requires
            now >= self.last_frame,
        ensures
            r == if now - self.last_frame < self.min_frame_time {
                self.min_frame_time - (now - self.last_frame)
            } else {
                0
            },
    {
        let elapsed = now - self.last_frame;
        if elapsed < self.min_frame_time {
            self.min_frame_time - elapsed
        } else {
            0
        }
    }

    /// Ends the current frame at the time now, after any waiting: counts
    /// the frame, refreshes the per-second figure once a second has passed
    /// since the last refresh, and returns the frame's duration.
    pub fn tick(&mut self, now: u64) -> (dt: u64)
        requires
            now >= old(self).last_frame,
            old(self).fps_counter < u32::MAX,
        ensures
            dt == now - old(self).last_frame,
            final(self).last_frame == now,
            final(self).min_frame_time == old(self).min_frame_time,
            ({
                let refreshed = now - old(self).last_fps_check >= MICROS_PER_SECOND;
                &&& final(self).current_fps == if refreshed {
                    old(self).fps_counter
                } else {
                    old(self).current_fps
                }
                &&& final(self).last_fps_check == if refreshed {
                    now
                } else {
                    old(self).last_fps_check
                }
                &&& final(self).fps_counter == if refreshed {
                    1int
                } else {
                    old(self).fps_counter + 1
                }
            }),
    {
        let dt = now - self.last_frame;
        self.last_frame = now;
        if now >= self.last_fps_check && now - self.last_fps_check >= MICROS_PER_SECOND {
            self.current_fps = self.fps_counter;
            self.fps_counter = 0;
            self.last_fps_check = now;
        }
        self.fps_counter = self.fps_counter + 1;
        dt
    }
}

} // verus!
