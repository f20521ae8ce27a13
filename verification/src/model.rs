use vstd::prelude::*;

use crate::bitmap::Bitmap;

verus! {

/// One frame of an animation: a bitmap and how long it stays on screen.
pub struct Frame {
    pub bitmap: Bitmap,
    pub delay_ms: u64,
}

impl Frame {
    pub open spec fn wf(&self) -> bool {
        self.bitmap.wf()
    }
}

/// The unified decode result every adapter converges to: either a single
/// still bitmap or a non-empty ordered frame sequence. A decode that would
/// yield zero frames is a decode failure, never an empty sequence.
pub enum LoadedImage {
    Still(Bitmap),
    Animation(Vec<Frame>),
}

impl LoadedImage {
    pub open spec fn wf(&self) -> bool {
        match self {
            LoadedImage::Still(b) => b.wf(),
            LoadedImage::Animation(frames) => frames@.len() > 0 && forall|i: int|
                0 <= i < frames@.len() ==> (#[trigger] frames@[i]).wf(),
        }
    }

    /// How many frames the image cycles through; a still image counts as one.
    pub open spec fn spec_frame_count(&self) -> nat {
        match self {
            LoadedImage::Still(_) => 1,
            LoadedImage::Animation(frames) => frames@.len(),
        }
    }

    pub fn frame_count(&self) -> (n: usize)
        ensures
            n == self.spec_frame_count(),
    {
        match self {
            LoadedImage::Still(_) => 1,
            LoadedImage::Animation(frames) => frames.len(),
        }
    }
}

/// The currently displayed image plus animation playback state: which frame
/// is showing and how much wall-clock time has accumulated toward its delay.
pub struct ImageModel {
    pub image: LoadedImage,
    pub current_frame: usize,
    pub elapsed_ms: u64,
}

impl ImageModel {
    pub open spec fn wf(&self) -> bool {
        &&& self.image.wf()
        &&& (self.current_frame as nat) < self.image.spec_frame_count()
    }

    /// The bitmap of frame `i`, as the display sees it.
    pub open spec fn spec_frame_bitmap(&self, i: int) -> Bitmap {
        match self.image {
            LoadedImage::Still(b) => b,
            LoadedImage::Animation(frames) => frames@[i].bitmap,
        }
    }

    /// The display size of the image: a still bitmap's own size, or the
    /// first frame's size for an animation.
    pub open spec fn spec_width(&self) -> int {
        self.spec_frame_bitmap(0).width as int
    }

    pub open spec fn spec_height(&self) -> int {
        self.spec_frame_bitmap(0).height as int
    }

    /// Wrap a decode result; playback starts at frame zero.
    pub fn new(image: LoadedImage) -> (m: ImageModel)
        requires
            image.wf(),
        ensures
            m.wf(),
            m.image == image,
            m.current_frame == 0,
            m.elapsed_ms == 0,
    {
        ImageModel { image, current_frame: 0, elapsed_ms: 0 }
    }

    /// The width of the displayed image in pixels.
    pub fn width(&self) -> (w: usize)
        requires
            self.wf(),
        ensures
            w == self.spec_width(),
    {
        match &self.image {
            LoadedImage::Still(b) => b.width,
            LoadedImage::Animation(frames) => frames[0].bitmap.width,
        }
    }

    /// The height of the displayed image in pixels.
    pub fn height(&self) -> (h: usize)
        requires
            self.wf(),
        ensures
            h == self.spec_height(),
    {
        match &self.image {
            LoadedImage::Still(b) => b.height,
            LoadedImage::Animation(frames) => frames[0].bitmap.height,
        }
    }

    /// Pixel-level read access to the frame being shown right now, as the
    /// clipboard export needs it.
    pub fn current_bitmap(&self) -> (b: &Bitmap)
        requires
            self.wf(),
        ensures
            *b == self.spec_frame_bitmap(self.current_frame as int),
            b.wf(),
    {
        match &self.image {
            LoadedImage::Still(b) => b,
            LoadedImage::Animation(frames) => &frames[self.current_frame].bitmap,
        }
    }

    /// Feed `dt_ms` milliseconds of wall-clock time into the animation
    /// accumulator; when it reaches the showing frame's delay, the remainder
    /// is kept and the next frame is selected, wrapping to frame zero after
    /// the last. Still images never change.
    pub fn advance_animation(&mut self, dt_ms: u64)
        requires
            old(self).wf(),
        ensures
            final(self).wf(),
            final(self).image == old(self).image,
            match old(self).image {
                LoadedImage::Still(_) => *final(self) == *old(self),
                LoadedImage::Animation(frames) => {
                    let acc = if old(self).elapsed_ms + dt_ms <= u64::MAX {
                        old(self).elapsed_ms + dt_ms
                    } else {
                        u64::MAX as int
                    };
                    let delay = frames@[old(self).current_frame as int].delay_ms as int;
                    if acc >= delay {
                        &&& final(self).elapsed_ms == acc - delay
                        &&& final(self).current_frame as int == (old(self).current_frame + 1) % (
                        frames@.len() as int)
                    } else {
                        &&& final(self).elapsed_ms == acc
                        &&& final(self).current_frame == old(self).current_frame
                    }
                },
            },
    {
        match &self.image {
            LoadedImage::Still(_) => {},
            LoadedImage::Animation(frames) => {
                let acc = if dt_ms <= u64::MAX - self.elapsed_ms {
                    self.elapsed_ms + dt_ms
                } else {
                    u64::MAX
                };
                let n = frames.len();
                let cf = self.current_frame;
                let delay = frames[cf].delay_ms;
                if acc >= delay {
                    self.elapsed_ms = acc - delay;
                    self.current_frame = (cf + 1) % n;
                } else {
                    self.elapsed_ms = acc;
                }
            },
        }
    }
}

} // verus!
