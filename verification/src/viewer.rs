//! The viewing component: one gallery, the zoom level of the image on
//! show, its source and display sizes, and the accumulated pan offset.
//! Every operation that a zoom or navigation command cannot carry out — an
//! empty or one-member gallery, an image that failed to decode, a zoom
//! request that would leave the scale band — degrades to a silent no-op
//! with the state left exactly as it was.

use vstd::prelude::*;
use crate::gallery::Gallery;
use crate::gallery::next_index;
use crate::gallery::prev_index;
use crate::zoom::ZOOM_MAX;
use crate::zoom::ZOOM_MIN;
use crate::zoom::sat_add;
use crate::zoom::sat_add_i64;
use crate::zoom::scale_in_band;
use crate::zoom::scale_num;
use crate::zoom::scale_den;
use crate::zoom::scale_parts;
use crate::zoom::scaled_len;
use crate::zoom::view_len;
use crate::zoom::zoom_in_delta;
use crate::zoom::zoom_in_delta_exec;
use crate::zoom::zoom_out_delta;
use crate::zoom::zoom_out_delta_exec;
use crate::zoom::lemma_band_range;
use crate::zoom::lemma_view_len_neutral;

verus! {

/// The viewing state. An image whose decoding failed, or none yet, carries
/// the sentinel source size 0 by 0 and is not valid; operations on it
/// change nothing.
pub struct Viewer {
    gallery: Gallery,
    zoom_level: i32,
    source_w: u32,
    source_h: u32,
    view_w: u64,
    view_h: u64,
    pan_x: i64,
    pan_y: i64,
}

impl Viewer {
    /// The zoom level: inward steps taken from the native size, counted
    /// negatively for outward steps.
    pub closed spec fn zoom(self) -> int {
        self.zoom_level as int
    }

    /// Source size of the image on show, as the decoder gave it.
    pub closed spec fn source(self) -> (int, int) {
        (self.source_w as int, self.source_h as int)
    }

    /// Size at which the image is to be displayed.
    pub closed spec fn view(self) -> (int, int) {
        (self.view_w as int, self.view_h as int)
    }

    /// Pan offset accumulated over the zoom operations so far.
    pub closed spec fn pan(self) -> (int, int) {
        (self.pan_x as int, self.pan_y as int)
    }

    /// The gallery navigated over.
    pub closed spec fn spec_gallery(self) -> Gallery {
        self.gallery
    }

    /// The image on show decoded to something: its size is not the
    /// sentinel 0 by 0.
    pub open spec fn valid(self) -> bool {
        self.source().0 != 0 && self.source().1 != 0
    }

    /// The zoom level stays within the scale band and the display size is
    /// always the source size scaled by the current factor.
    pub open spec fn wf(self) -> bool {
        &&& self.spec_gallery().wf()
        &&& ZOOM_MIN <= self.zoom() <= ZOOM_MAX
        &&& self.view().0 == view_len(self.source().0, self.zoom())
        &&& self.view().1 == view_len(self.source().1, self.zoom())
    }

    /// A fresh viewer over `gallery`: neutral zoom, nothing loaded yet, no
    /// pan.
    pub fn new(gallery: Gallery) -> (v: Viewer)
        requires
            gallery.wf(),
        ensures
            v.wf(),
            v.spec_gallery() == gallery,
            v.zoom() == 0,
            v.source() == (0int, 0int),
            v.view() == (0int, 0int),
            v.pan() == (0int, 0int),
    {
        proof {
            lemma_view_len_neutral(0);
        }
        Viewer {
            gallery,
            zoom_level: 0,
            source_w: 0,
            source_h: 0,
            view_w: 0,
            view_h: 0,
            pan_x: 0,
            pan_y: 0,
        }
    }

    /// Takes the source size of a newly decoded image (the sentinel 0 by 0
    /// for one that failed) and recomputes the display size under the
    /// current zoom level, which persists across navigation.
    pub fn load(&mut self, w: u32, h: u32)
        requires
            old(self).wf(),
        ensures
            final(self).wf(),
            final(self).spec_gallery() == old(self).spec_gallery(),
            final(self).zoom() == old(self).zoom(),
            final(self).pan() == old(self).pan(),
            final(self).source() == (w as int, h as int),
            final(self).view().0 == view_len(w as int, old(self).zoom()),
            final(self).view().1 == view_len(h as int, old(self).zoom()),
    {
        self.source_w = w;
        self.source_h = h;
        self.view_w = scaled_len(w, self.zoom_level);
        self.view_h = scaled_len(h, self.zoom_level);
    }

    /// One inward zoom step, anchored at viewport point (`px`, `py`) in a
    /// viewport of `vw` by `vh` pixels. Rejected outright — state exactly
    /// unchanged, nothing returned — when the image is not valid or the
    /// resulting scale factor would leave the band. Otherwise returns the
    /// pan correction that keeps the anchor still, which is also added to
    /// the accumulated pan offset.
    pub fn zoom_in(&mut self, px: u32, py: u32, vw: u32, vh: u32) -> (r: Option<(i64, i64)>)
        requires
            old(self).wf(),
        ensures
            final(self).wf(),
            !(old(self).valid() && scale_in_band(old(self).zoom() + 1)) ==> *final(self) == *old(
                self,
            ) && r is None,
            old(self).valid() && scale_in_band(old(self).zoom() + 1) ==> {
                &&& final(self).zoom() == old(self).zoom() + 1
                &&& final(self).spec_gallery() == old(self).spec_gallery()
                &&& final(self).source() == old(self).source()
                &&& final(self).view().0 == view_len(old(self).source().0, old(self).zoom() + 1)
                &&& final(self).view().1 == view_len(old(self).source().1, old(self).zoom() + 1)
                &&& r == Some(
                    (
                        zoom_in_delta(px as int, vw as int) as i64,
                        zoom_in_delta(py as int, vh as int) as i64,
                    ),
                )
                &&& final(self).pan().0 == sat_add_i64(
                    old(self).pan().0,
                    zoom_in_delta(px as int, vw as int),
                )
                &&& final(self).pan().1 == sat_add_i64(
                    old(self).pan().1,
                    zoom_in_delta(py as int, vh as int),
                )
            },
    {
        if self.source_w == 0 || self.source_h == 0 {
            return None;
        }
        proof {
            lemma_band_range(self.zoom_level + 1);
        }
        if self.zoom_level >= ZOOM_MAX {
            return None;
        }
        self.zoom_level = self.zoom_level + 1;
        self.view_w = scaled_len(self.source_w, self.zoom_level);
        self.view_h = scaled_len(self.source_h, self.zoom_level);
        let dx = zoom_in_delta_exec(px, vw);
        let dy = zoom_in_delta_exec(py, vh);
        self.pan_x = sat_add(self.pan_x, dx);
        self.pan_y = sat_add(self.pan_y, dy);
        Some((dx, dy))
    }

    /// One outward zoom step, anchored at viewport point (`px`, `py`) in a
    /// viewport of `vw` by `vh` pixels. Rejected outright — state exactly
    /// unchanged, nothing returned — when the image is not valid or the
    /// resulting scale factor would leave the band. Otherwise returns the
    /// never-positive pan correction, which is also added to the
    /// accumulated pan offset.
    pub fn zoom_out(&mut self, px: u32, py: u32, vw: u32, vh: u32) -> (r: Option<(i64, i64)>)
        requires
            old(self).wf(),
        ensures
            final(self).wf(),
            !(old(self).valid() && scale_in_band(old(self).zoom() - 1)) ==> *final(self) == *old(
                self,
            ) && r is None,
            old(self).valid() && scale_in_band(old(self).zoom() - 1) ==> {
                &&& final(self).zoom() == old(self).zoom() - 1
                &&& final(self).spec_gallery() == old(self).spec_gallery()
                &&& final(self).source() == old(self).source()
                &&& final(self).view().0 == view_len(old(self).source().0, old(self).zoom() - 1)
                &&& final(self).view().1 == view_len(old(self).source().1, old(self).zoom() - 1)
                &&& r == Some(
                    (
                        zoom_out_delta(px as int, vw as int) as i64,
                        zoom_out_delta(py as int, vh as int) as i64,
                    ),
                )
                &&& final(self).pan().0 == sat_add_i64(
                    old(self).pan().0,
                    zoom_out_delta(px as int, vw as int),
                )
                &&& final(self).pan().1 == sat_add_i64(
                    old(self).pan().1,
                    zoom_out_delta(py as int, vh as int),
                )
            },
    {
        if self.source_w == 0 || self.source_h == 0 {
            return None;
        }
        proof {
            lemma_band_range(self.zoom_level - 1);
        }
        if self.zoom_level <= ZOOM_MIN {
            return None;
        }
        self.zoom_level = self.zoom_level - 1;
        self.view_w = scaled_len(self.source_w, self.zoom_level);
        self.view_h = scaled_len(self.source_h, self.zoom_level);
        let dx = zoom_out_delta_exec(px, vw);
        let dy = zoom_out_delta_exec(py, vh);
        self.pan_x = sat_add(self.pan_x, dx);
        self.pan_y = sat_add(self.pan_y, dy);
        Some((dx, dy))
    }

    /// Returns to the neutral zoom level, displaying the image at its
    /// native size. A no-op when the image is not valid, and exactly a
    /// no-op when the zoom level is already neutral. The pan offset is kept.
    pub fn reset(&mut self)
        requires
            old(self).wf(),
        ensures
            final(self).wf(),
            !old(self).valid() ==> *final(self) == *old(self),
            old(self).valid() ==> {
                &&& final(self).zoom() == 0
                &&& final(self).view() == old(self).source()
                &&& final(self).source() == old(self).source()
                &&& final(self).spec_gallery() == old(self).spec_gallery()
                &&& final(self).pan() == old(self).pan()
            },
            old(self).zoom() == 0 ==> *final(self) == *old(self),
    {
        proof {
            lemma_view_len_neutral(self.source_w as int);
            lemma_view_len_neutral(self.source_h as int);
        }
        if self.source_w == 0 || self.source_h == 0 {
            return ;
        }
        self.zoom_level = 0;
        self.view_w = self.source_w as u64;
        self.view_h = self.source_h as u64;
    }

    /// Advances the gallery cursor and returns the path now to be shown;
    /// the host should load it and hand its size to `load`. Never moves a
    /// gallery of one member or none. The zoom state is untouched.
    pub fn next(&mut self) -> (r: Option<String>)
        requires
            old(self).wf(),
        ensures
            final(self).wf(),
            old(self).spec_gallery().spec_len() <= 1 ==> *final(self) == *old(self) && r is None,
            old(self).spec_gallery().spec_len() > 1 ==> {
                &&& final(self).spec_gallery().paths() == old(self).spec_gallery().paths()
                &&& final(self).spec_gallery().cursor() == next_index(
                    old(self).spec_gallery().spec_len(),
                    old(self).spec_gallery().cursor(),
                )
                &&& r is Some
                &&& r.unwrap()@ == final(self).spec_gallery().current()
                &&& final(self).zoom() == old(self).zoom()
                &&& final(self).source() == old(self).source()
                &&& final(self).view() == old(self).view()
                &&& final(self).pan() == old(self).pan()
            },
    {
        if self.gallery.size() <= 1 {
            return None;
        }
        self.gallery.next()
    }

    /// Retreats the gallery cursor and returns the path now to be shown;
    /// the host should load it and hand its size to `load`. Never moves a
    /// gallery of one member or none. The zoom state is untouched.
    pub fn prev(&mut self) -> (r: Option<String>)
        requires
            old(self).wf(),
        ensures
            final(self).wf(),
            old(self).spec_gallery().spec_len() <= 1 ==> *final(self) == *old(self) && r is None,
            old(self).spec_gallery().spec_len() > 1 ==> {
                &&& final(self).spec_gallery().paths() == old(self).spec_gallery().paths()
                &&& final(self).spec_gallery().cursor() == prev_index(
                    old(self).spec_gallery().spec_len(),
                    old(self).spec_gallery().cursor(),
                )
                &&& r is Some
                &&& r.unwrap()@ == final(self).spec_gallery().current()
                &&& final(self).zoom() == old(self).zoom()
                &&& final(self).source() == old(self).source()
                &&& final(self).view() == old(self).view()
                &&& final(self).pan() == old(self).pan()
            },
    {
        if self.gallery.size() <= 1 {
            return None;
        }
        self.gallery.prev()
    }

    /// The gallery navigated over.
    pub fn gallery(&self) -> (r: &Gallery)
        ensures
            *r == self.spec_gallery(),
    {
        &self.gallery
    }

    /// The zoom level.
    pub fn zoom_level(&self) -> (r: i32)
        ensures
            r == self.zoom(),
    {
        self.zoom_level
    }

    /// The size at which the image is to be displayed.
    pub fn dimensions(&self) -> (r: (u64, u64))
        ensures
            r.0 == self.view().0,
            r.1 == self.view().1,
    {
        (self.view_w, self.view_h)
    }

    /// The source size of the image on show.
    pub fn source_dimensions(&self) -> (r: (u32, u32))
        ensures
            r.0 == self.source().0,
            r.1 == self.source().1,
    {
        (self.source_w, self.source_h)
    }

    /// The accumulated pan offset.
    pub fn pan_offset(&self) -> (r: (i64, i64))
        ensures
            r.0 == self.pan().0,
            r.1 == self.pan().1,
    {
        (self.pan_x, self.pan_y)
    }

    /// Whether the image on show decoded to something.
    pub fn is_valid(&self) -> (r: bool)
        ensures
            r == self.valid(),
    {
        self.source_w != 0 && self.source_h != 0
    }

    /// The scale factor, as the exact rational numerator and denominator
    /// taking displayed pixels to source pixels.
    pub fn scale_factor(&self) -> (r: (u128, u128))
        requires
            self.wf(),
        ensures
            r.0 == scale_num(self.zoom()),
            r.1 == scale_den(self.zoom()),
    {
        scale_parts(self.zoom_level)
    }
}

/// A well-formed viewer's scale factor always lies within the band: above
/// 1/256 and at most 32. Zoom requests that would leave the band are
/// rejected with the state unchanged, so the invariant never breaks.
pub proof fn lemma_wf_scale_in_band(v: Viewer)
    requires
        v.wf(),
    ensures
        scale_in_band(v.zoom()),
{
    lemma_band_range(v.zoom());
}

/// One inward zoom step immediately followed by an outward one restores
/// the zoom level — and with it the scale factor — and the display size
/// exactly: for any three states linked as an applied `zoom_in` and a
/// following `zoom_out` leave them, the outward step is not rejected and
/// the last state shows what the first did. The pan offset may
/// legitimately move. Stated for every valid viewer whose inward step is
/// itself not rejected; at the innermost zoom level the inward step is a
/// no-op and the pair does not cancel out.
pub proof fn lemma_zoom_round_trip(v0: Viewer, v1: Viewer, v2: Viewer)
    requires
        v0.wf(),
        v0.valid(),
        scale_in_band(v0.zoom() + 1),
        v1.zoom() == v0.zoom() + 1,
        v1.source() == v0.source(),
        v2.zoom() == v1.zoom() - 1,
        v2.source() == v1.source(),
        v2.view().0 == view_len(v1.source().0, v1.zoom() - 1),
        v2.view().1 == view_len(v1.source().1, v1.zoom() - 1),
    ensures
        v1.valid() && scale_in_band(v1.zoom() - 1),
        v2.zoom() == v0.zoom(),
        v2.view() == v0.view(),
        scale_num(v2.zoom()) == scale_num(v0.zoom()),
        scale_den(v2.zoom()) == scale_den(v0.zoom()),
{
    lemma_band_range(v0.zoom());
}

} // verus!

