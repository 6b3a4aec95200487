//! The frame production side of the encoding pipeline: replays render
//! points through the emulator, renders each resulting screen snapshot,
//! and hands out `(index, image, time)` frames strictly in order, one
//! per render point.

use vstd::prelude::*;

use crate::frames::RenderPoint;
use crate::image::Image;
use crate::renderer::{RenderError, Renderer};
use crate::term::{convert_grid, vt_cursor, vt_feed_str, vt_grid, vt_new};

verus! {

/// One frame handed to the encoder: its 0-based position in the render
/// point sequence, its image, and the render point's time.
pub struct Frame {
    pub index: usize,
    pub image: Image,
    pub time_us: u64,
}

/// The producer state: the emulator, the chosen rendering strategy, the
/// render points, and the position of the next frame to produce.
pub struct Pipeline<R: Renderer> {
    pub vt: avt::Vt,
    pub renderer: R,
    pub points: Vec<RenderPoint>,
    pub next: usize,
}

impl<R: Renderer> Pipeline<R> {
    /// The renderer's invariant holds and the position is inside (or
    /// just past) the render point sequence.
    pub open spec fn wf(&self) -> bool {
        &&& self.renderer.wf()
        &&& self.next <= self.points@.len()
    }

    /// Starts a run: a fresh emulator of the given size, at the first
    /// render point.
    pub fn new(cols: usize, rows: usize, renderer: R, points: Vec<RenderPoint>) -> (p: Self)
        requires
            cols >= 1,
            rows >= 1,
            renderer.wf(),
        ensures
            p.wf(),
            p.next == 0,
            p.points@ == points@,
            p.renderer == renderer,
    {
        Pipeline { vt: vt_new(cols, rows), renderer, points, next: 0 }
    }

    /// Produces the next frame: feeds the pending render point's payload
    /// to the emulator, reads the grid and cursor back, renders, and
    /// advances. Returns `None` when every render point has been
    /// consumed; any failure aborts the run.
    pub fn next_frame(&mut self) -> (r: Result<Option<Frame>, RenderError>)
        requires
            old(self).wf(),
        ensures
            final (self).wf(),
            final (self).points@ == old(self).points@,
            final (self).renderer.spec_pixel_width() == old(self).renderer.spec_pixel_width(),
            final (self).renderer.spec_pixel_height() == old(self).renderer.spec_pixel_height(),
            r matches Ok(f) ==> (f is Some <==> old(self).next < old(self).points@.len()),
            r matches Ok(Some(f)) ==> f.index == old(self).next && f.time_us == old(
                self,
            ).points@[old(self).next as int].time_us && final (self).next == old(self).next + 1
                && f.image.wf() && f.image.width == old(self).renderer.spec_pixel_width()
                && f.image.height == old(self).renderer.spec_pixel_height(),
            r matches Ok(None) ==> final (self).next == old(self).next,
            r matches Err(e) ==> e == RenderError::ShapeMismatch || e == RenderError::Rasterize,
    {
        if self.next >= self.points.len() {
            return Ok(None);
        }
        let idx = self.next;
        vt_feed_str(&mut self.vt, self.points[idx].data.as_str());
        let raw = vt_grid(&self.vt);
        let grid = convert_grid(&raw);
        let cursor = vt_cursor(&self.vt);
        match self.renderer.render(grid, cursor) {
            Err(e) => Err(e),
            Ok(image) => {
                self.next = idx + 1;
                Ok(Some(Frame { index: idx, image, time_us: self.points[idx].time_us }))
            },
        }
    }

    /// Law: a full run submits exactly one image per render point, with
    /// indices exactly `0 .. N-1` in increasing order, each frame
    /// carrying its render point's time and an image of the renderer's
    /// fixed pixel size.
    pub fn collect_frames(&mut self) -> (r: Result<Vec<Frame>, RenderError>)
        requires
            old(self).wf(),
            old(self).next == 0,
        ensures
            final (self).wf(),
            r matches Ok(frames) ==> frames@.len() == old(self).points@.len() && forall|k: int|
                0 <= k < frames@.len() ==> (#[trigger] frames@[k]).index == k
                    && frames@[k].time_us == old(self).points@[k].time_us && frames@[k].image.wf()
                    && frames@[k].image.width == old(self).renderer.spec_pixel_width()
                    && frames@[k].image.height == old(self).renderer.spec_pixel_height(),
            r matches Err(e) ==> e == RenderError::ShapeMismatch || e == RenderError::Rasterize,
    {
        let mut frames: Vec<Frame> = Vec::new();
        while self.next < self.points.len()
            invariant
                self.wf(),
                self.points@ == old(self).points@,
                self.renderer.spec_pixel_width() == old(self).renderer.spec_pixel_width(),
                self.renderer.spec_pixel_height() == old(self).renderer.spec_pixel_height(),
                frames@.len() == self.next,
                forall|k: int|
                    0 <= k < frames@.len() ==> (#[trigger] frames@[k]).index == k
                        && frames@[k].time_us == old(self).points@[k].time_us
                        && frames@[k].image.wf() && frames@[k].image.width == old(
                        self,
                    ).renderer.spec_pixel_width() && frames@[k].image.height == old(
                        self,
                    ).renderer.spec_pixel_height(),
            decreases self.points@.len() - self.next,
        {
            match self.next_frame() {
                Err(e) => {
                    return Err(e);
                },
                Ok(None) => {
                    proof {
                        assert(false);
                    }
                },
                Ok(Some(f)) => {
                    frames.push(f);
                },
            }
        }
        Ok(frames)
    }
}

} // verus!
