//! Frame-rate reporting: frames are counted, and once a reporting interval
//! has passed the count is handed out and started again.

use vstd::prelude::*;

verus! {

/// Counts frames between frame-rate reports.
pub struct FpsLogger {
    label: String,
    interval_nanos: u128,
    frames: u32,
}

impl FpsLogger {
    pub closed spec fn spec_label(&self) -> Seq<char> {
        self.label@
    }

    pub closed spec fn spec_interval(&self) -> u128 {
        self.interval_nanos
    }

    pub closed spec fn spec_frames(&self) -> u32 {
        self.frames
    }

    /// A counter labelled `label` that reports every `interval_nanos`
    /// nanoseconds.
    pub fn new(label: String, interval_nanos: u128) -> (r: Self)
        ensures
            r.spec_label() == label@,
            r.spec_interval() == interval_nanos,
            r.spec_frames() == 0,
    {
        FpsLogger { label, interval_nanos, frames: 0 }
    }

    /// The label of the reports.
    pub fn label(&self) -> (r: &str)
        ensures
            r@ == self.spec_label(),
    {
        self.label.as_str()
    }

    /// The frames counted since the last report.
    pub fn frames(&self) -> (r: u32)
        ensures
            r == self.spec_frames(),
    {
        self.frames
    }

    /// Counts a frame drawn `elapsed_nanos` nanoseconds after the last report.
    /// Once the interval has passed, returns the frames counted, this one
    /// included, and starts counting again from zero.
    pub fn tick(&mut self, elapsed_nanos: u128) -> (r: Option<u32>)
        requires
            old(self).spec_frames() < u32::MAX,
        ensures
            final(self).spec_label() == old(self).spec_label(),
            final(self).spec_interval() == old(self).spec_interval(),
            elapsed_nanos >= old(self).spec_interval() ==> r == Some((old(self).spec_frames() + 1) as u32)
                && final(self).spec_frames() == 0,
            elapsed_nanos < old(self).spec_interval() ==> r is None && final(self).spec_frames()
                == old(self).spec_frames() + 1,
    {
        self.frames = self.frames + 1;
        if elapsed_nanos >= self.interval_nanos {
            let frames = self.frames;
            self.frames = 0;
            Some(frames)
        } else {
            None
        }
    }
}

} // verus!
