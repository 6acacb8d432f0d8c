//! Configuring a [`Screen`] piece by piece: the glyph map, the cursor-motion profile, the line
//! shaping and terminal caps, the SGR engine's caps and palette, and the update flags.

use vstd::prelude::*;
use super::{acsc_from, identity_acsc_v, screen_wf, to_vec, Screen, ScreenV, TermV};
use crate::cursor::Caps;
use crate::vid::VidV;

verus! {

impl Screen {
    /// Replace the glyph map for alternate-charset cells: `pairs` alternates an ACS character and
    /// the terminal's byte for it; characters not listed map to themselves.
    pub fn set_acsc(&mut self, pairs: &[u8])
        requires
            old(self).wf(),
        ensures
            final(self).wf(),
            final(self)@ == (ScreenV {
                term: TermV { acsc: acsc_from(identity_acsc_v(), pairs@, 0), ..old(self)@.term },
                ..old(self)@
            }),
    {
        let m = super::setup::acsc_map(pairs);
        self.t.acsc = m;
        proof {
            assert(self@ =~= (ScreenV {
                term: TermV { acsc: acsc_from(identity_acsc_v(), pairs@, 0), ..old(self)@.term },
                ..old(self)@
            }));
        }
    }

    /// Use another cursor-motion profile.
    pub fn set_caps(&mut self, caps: Caps)
        requires
            old(self).wf(),
            caps@.cols >= i32::MIN + 8,
        ensures
            final(self).wf(),
            final(self)@ == (ScreenV { caps: caps@, ..old(self)@ }),
    {
        self.caps = caps;
        proof {
            assert(self@ =~= (ScreenV { caps: caps@, ..old(self)@ }));
        }
    }

    /// Set the line-shaping caps: the `clr_eol` / `clr_bol` costs and whether `erase_chars` and
    /// character insert/delete exist.
    pub fn set_shape_caps(&mut self, el_cost: i32, el1_cost: i32, has_ech: bool, has_idc: bool)
        requires
            old(self).wf(),
        ensures
            final(self).wf(),
            final(self)@ == (ScreenV {
                term: TermV { el_cost, el1_cost, has_ech, has_idc, ..old(self)@.term },
                ..old(self)@
            }),
    {
        self.t.el_cost = el_cost;
        self.t.el1_cost = el1_cost;
        self.t.has_ech = has_ech;
        self.t.has_idc = has_idc;
        proof {
            assert(self@ =~= (ScreenV {
                term: TermV { el_cost, el1_cost, has_ech, has_idc, ..old(self)@.term },
                ..old(self)@
            }));
        }
    }

    /// Set the `clear_screen` bytes and whether `repeat_char` exists.
    pub fn set_term_caps(&mut self, clear_seq: &[u8], has_rep: bool)
        requires
            old(self).wf(),
        ensures
            final(self).wf(),
            final(self)@ == (ScreenV {
                term: TermV { clear_seq: clear_seq@, has_rep, ..old(self)@.term },
                ..old(self)@
            }),
    {
        self.t.clear_seq = to_vec(clear_seq);
        self.t.has_rep = has_rep;
        proof {
            assert(self@ =~= (ScreenV {
                term: TermV { clear_seq: clear_seq@, has_rep, ..old(self)@.term },
                ..old(self)@
            }));
        }
    }

    /// Set the attribute caps (`sgr`, `sgr0`, `rmacs`) of the SGR engine.
    pub fn set_attr_caps(&mut self, sgr: &[u8], sgr0: &[u8], rmacs: &[u8])
        requires
            old(self).wf(),
        ensures
            final(self).wf(),
            final(self)@ == (ScreenV {
                vid: VidV { sgr: sgr@, sgr0: sgr0@, rmacs: rmacs@, ..old(self)@.vid },
                ..old(self)@
            }),
    {
        self.vid.set_attr_caps(sgr, sgr0, rmacs);
        proof {
            assert(self@ =~= (ScreenV {
                vid: VidV { sgr: sgr@, sgr0: sgr0@, rmacs: rmacs@, ..old(self)@.vid },
                ..old(self)@
            }));
        }
    }

    /// Set the individual mode caps of the SGR engine (see [`Vid::set_mode_caps`]).
    pub fn set_mode_caps(
        &mut self,
        has_sgr: bool,
        enter: [Option<&[u8]>; 9],
        rmul: Option<&[u8]>,
        rmso: Option<&[u8]>,
        xon: bool,
        pad_char: u8,
    )
        requires
            old(self).wf(),
        ensures
            final(self).wf(),
            final(self)@ == (ScreenV {
                vid: VidV {
                    has_sgr,
                    smacs: crate::vid::or_empty_v(enter[0]),
                    e_blink: crate::vid::or_empty_v(enter[1]),
                    e_bold: crate::vid::or_empty_v(enter[2]),
                    e_dim: crate::vid::or_empty_v(enter[3]),
                    e_rev: crate::vid::or_empty_v(enter[4]),
                    smso: crate::vid::or_empty_v(enter[5]),
                    e_prot: crate::vid::or_empty_v(enter[6]),
                    e_invis: crate::vid::or_empty_v(enter[7]),
                    smul: crate::vid::or_empty_v(enter[8]),
                    rmul: crate::vid::or_empty_v(rmul),
                    rmso: crate::vid::or_empty_v(rmso),
                    use_rmul: crate::vid::differs(crate::vid::or_empty_v(rmul), old(self)@.vid.sgr0),
                    use_rmso: crate::vid::differs(crate::vid::or_empty_v(rmso), old(self)@.vid.sgr0),
                    xon,
                    pad_char,
                    ..old(self)@.vid
                },
                ..old(self)@
            }),
    {
        self.vid.set_mode_caps(has_sgr, enter, rmul, rmso, xon, pad_char);
        proof {
            assert(self@.vid == final(self)@.vid);
            assert(self@ =~= (ScreenV { vid: self@.vid, ..old(self)@ }));
        }
    }

    /// Set the `no_color_video` mask of the SGR engine.
    pub fn set_ncv(&mut self, ncv: u32)
        requires
            old(self).wf(),
        ensures
            final(self).wf(),
            final(self)@ == (ScreenV { vid: VidV { ncv, ..old(self)@.vid }, ..old(self)@ }),
    {
        self.vid.set_ncv(ncv);
        proof {
            assert(self@ =~= (ScreenV { vid: VidV { ncv, ..old(self)@.vid }, ..old(self)@ }));
        }
    }

    /// Set the colour caps of the SGR engine (see [`Vid::set_color_caps`]).
    pub fn set_color_caps(
        &mut self,
        setaf: Option<&[u8]>,
        setab: Option<&[u8]>,
        scp: Option<&[u8]>,
        op: Option<&[u8]>,
        toggled: bool,
        has_color: bool,
    )
        requires
            old(self).wf(),
        ensures
            final(self).wf(),
            final(self)@ == (ScreenV {
                vid: VidV {
                    setaf: match setaf { Some(s) => Some(s@), None => None },
                    setab: match setab { Some(s) => Some(s@), None => None },
                    scp: match scp { Some(s) => Some(s@), None => None },
                    op: match op { Some(s) => s@, None => Seq::empty() },
                    color_toggled: toggled,
                    has_color,
                    ..old(self)@.vid
                },
                ..old(self)@
            }),
    {
        self.vid.set_color_caps(setaf, setab, scp, op, toggled, has_color);
        proof {
            assert(self@ =~= (ScreenV { vid: self@.vid, ..old(self)@ }));
        }
    }

    /// `init_pair(pair, fg, bg)` on the SGR engine's palette; refused for `pair < 1`.
    pub fn init_pair(&mut self, pair: i16, fg: i16, bg: i16) -> (ok: bool)
        requires
            old(self).wf(),
        ensures
            final(self).wf(),
            ok == (pair >= 1),
            ok ==> final(self)@ == (ScreenV {
                vid: VidV { palette: old(self)@.vid.palette.insert(pair, (fg, bg)), ..old(self)@.vid },
                ..old(self)@
            }),
            !ok ==> final(self)@ == old(self)@,
    {
        let ok = self.vid.init_pair(pair, fg, bg);
        proof {
            assert(self@ =~= (ScreenV { vid: self@.vid, ..old(self)@ }));
        }
        ok
    }

    /// `start_color()`: enable colour on the SGR engine.
    pub fn start_color(&mut self)
        requires
            old(self).wf(),
        ensures
            final(self).wf(),
            final(self)@ == (ScreenV { vid: VidV { coloron: true, ..old(self)@.vid }, ..old(self)@ }),
    {
        self.vid.start_color();
        proof {
            assert(self@ =~= (ScreenV { vid: self@.vid, ..old(self)@ }));
        }
    }

    /// `clearok`: the next update clears the screen and repaints every line.
    pub fn clearok(&mut self)
        requires
            old(self).wf(),
        ensures
            final(self).wf(),
            final(self)@ == (ScreenV { cleared: true, ..old(self)@ }),
    {
        self.cleared = true;
        proof {
            assert(self@ =~= (ScreenV { cleared: true, ..old(self)@ }));
        }
    }

    /// `leaveok`: when on, an update leaves the cursor where its last output put it instead of
    /// parking it.
    pub fn set_leaveok(&mut self, on: bool)
        requires
            old(self).wf(),
        ensures
            final(self).wf(),
            final(self)@ == (ScreenV { leaveok: on, ..old(self)@ }),
    {
        self.leaveok = on;
        proof {
            assert(self@ =~= (ScreenV { leaveok: on, ..old(self)@ }));
        }
    }
}

} // verus!
