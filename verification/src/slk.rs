//! Soft function-key labels (`curs_slk`): the label registry (`slk_set` / `slk_label`).
//!
//! The standard layout has 8 labels of width 8 (the label width at 80 columns).

use vstd::prelude::*;

verus! {

/// The standard soft-label set: 8 labels, each read back truncated to [`SoftLabels::WIDTH`]
/// characters.
#[derive(Debug, Clone, PartialEq, Eq)]
pub struct SoftLabels {
    labels: Vec<String>,
    width: usize,
}

impl View for SoftLabels {
    type V = Seq<Seq<char>>;

    /// The stored text of labels 1..=8 (index 0 is label 1).
    closed spec fn view(&self) -> Seq<Seq<char>> {
        self.labels@.map_values(|s: String| s@)
    }
}

impl Default for SoftLabels {
    fn default() -> (s: SoftLabels)
        ensures
            s.wf(),
            s@ == Seq::new(8, |_i: int| Seq::<char>::empty()),
    {
        SoftLabels::new()
    }
}

impl SoftLabels {
    /// The label width for the standard 8-label layout at 80 columns.
    pub const WIDTH: usize = 8;

    /// Eight labels, each read back with at most 8 characters.
    pub closed spec fn wf(&self) -> bool {
        self.labels@.len() == 8 && self.width == 8
    }

    /// A fresh, empty soft-label set (as after `slk_init` + `initscr`).
    pub fn new() -> (s: SoftLabels)
        ensures
            s.wf(),
            s@ == Seq::new(8, |_i: int| Seq::<char>::empty()),
    {
        let mut labels: Vec<String> = Vec::new();
        let mut k: usize = 0;
        while k < 8
            invariant
                k <= 8,
                labels@.len() == k,
                forall|i: int| 0 <= i < k ==> (#[trigger] labels@[i])@ == Seq::<char>::empty(),
            decreases 8 - k,
        {
            labels.push(String::new());
            k = k + 1;
        }
        let s = SoftLabels { labels, width: 8 };
        assert(s@ =~= Seq::new(8, |_i: int| Seq::<char>::empty()));
        s
    }

    /// `slk_set(labnum, label)` -- store `label` for `labnum` (1..=8); false (and no change) for
    /// any other number.
    pub fn set(&mut self, labnum: i32, label: &str) -> (ok: bool)
        requires
            old(self).wf(),
        ensures
            final(self).wf(),
            ok == (1 <= labnum <= 8),
            ok ==> final(self)@ == old(self)@.update(labnum - 1, label@),
            !ok ==> final(self)@ == old(self)@,
    {
        if labnum < 1 || labnum > 8 {
            return false;
        }
        let idx = (labnum - 1) as usize;
        self.labels.set(idx, label.to_owned());
        assert(self@ =~= old(self)@.update(labnum - 1, label@));
        true
    }

    /// `slk_label(labnum)` -- the stored label truncated to 8 characters; `None` for an
    /// out-of-range `labnum`.
    pub fn label(&self, labnum: i32) -> (r: Option<String>)
        requires
            self.wf(),
        ensures
            !(1 <= labnum <= 8) ==> r is None,
            (1 <= labnum <= 8) ==> r is Some && r->0@ == {
                let s = self@[labnum - 1];
                if s.len() <= 8 {
                    s
                } else {
                    s.take(8)
                }
            },
    {
        if labnum < 1 || labnum > 8 {
            return None;
        }
        let s: &str = self.labels[(labnum - 1) as usize].as_str();
        let n = s.unicode_len();
        let take = if n < self.width {
            n
        } else {
            self.width
        };
        let t = s.substring_char(0, take);
        proof {
            if s@.len() <= 8 {
                assert(s@.subrange(0, take as int) =~= s@);
            }
        }
        Some(t.to_owned())
    }
}

} // verus!
