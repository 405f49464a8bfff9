//! Hands out the colours of compounds, each at most once.

use crate::game_board::board_tile::Color;
use crate::laws::lemma_remove_distinct;
use crate::random::random_below;
use vstd::prelude::*;

verus! {

/// The twenty colours a fresh picker holds, all different.
pub open spec fn palette() -> Seq<Color> {
    seq![
        (76u8, 156u8, 228u8),
        (125u8, 218u8, 88u8),
        (0u8, 128u8, 128u8),
        (0u8, 255u8, 255u8),
        (0u8, 100u8, 0u8),
        (0u8, 0u8, 255u8),
        (0u8, 255u8, 127u8),
        (0u8, 0u8, 139u8),
        (0u8, 206u8, 209u8),
        (0u8, 191u8, 255u8),
        (0u8, 250u8, 154u8),
        (0u8, 128u8, 0u8),
        (0u8, 255u8, 0u8),
        (0u8, 139u8, 139u8),
        (64u8, 224u8, 208u8),
        (0u8, 0u8, 128u8),
        (70u8, 130u8, 180u8),
        (46u8, 139u8, 87u8),
        (65u8, 105u8, 225u8),
        (60u8, 179u8, 113u8),
    ]
}

/// The colours that are still to be had.
pub struct ColorPicker {
    colors: Vec<Color>,
    size: usize,
}

impl View for ColorPicker {
    type V = Seq<Color>;

    closed spec fn view(&self) -> Seq<Color> {
        self.colors@
    }
}

impl ColorPicker {
    /// The picker counts its colours rightly and holds none twice.
    pub closed spec fn wf(&self) -> bool {
        &&& self.size == self.colors.len()
        &&& self.colors@.no_duplicates()
    }

    /// A well-formed picker holds no colour twice.
    pub proof fn lemma_distinct(&self)
        requires
            self.wf(),
        ensures
            self@.no_duplicates(),
    {
    }

    /// How many colours are left.
    pub fn Remaining(&self) -> (left: usize)
        requires
            self.wf(),
        ensures
            left == self@.len(),
    {
        self.size
    }

    /// Removes the colour at `index` and returns it.
    pub fn TakeColor(&mut self, index: usize) -> (color: Color)
        requires
            old(self).wf(),
            index < old(self)@.len(),
        ensures
            final(self).wf(),
            color == old(self)@[index as int],
            final(self)@ == old(self)@.remove(index as int),
            !final(self)@.contains(color),
    {
        let color = self.colors.remove(index);
        self.size = self.size - 1;
        proof {
            lemma_remove_distinct(old(self)@, index as int);
            old(self)@.remove_ensures(index as int);
        }
        color
    }

    /// Removes one of the remaining colours, chosen at random, and returns
    /// it. The picker must not be exhausted.
    pub fn GetColor(&mut self) -> (color: Color)
        requires
            old(self).wf(),
            old(self)@.len() > 0,
        ensures
            final(self).wf(),
            exists|index: int|
                0 <= index < old(self)@.len() && color == old(self)@[index] && final(self)@
                    == old(self)@.remove(index),
            !final(self)@.contains(color),
    {
        let index = random_below(self.size);
        self.TakeColor(index)
    }
}

impl Default for ColorPicker {
    fn default() -> (picker: Self)
        ensures
            picker.wf(),
            picker@ == palette(),
    {
        let colors: Vec<Color> = vec![
            (76, 156, 228),
            (125, 218, 88),
            (0, 128, 128),
            (0, 255, 255),
            (0, 100, 0),
            (0, 0, 255),
            (0, 255, 127),
            (0, 0, 139),
            (0, 206, 209),
            (0, 191, 255),
            (0, 250, 154),
            (0, 128, 0),
            (0, 255, 0),
            (0, 139, 139),
            (64, 224, 208),
            (0, 0, 128),
            (70, 130, 180),
            (46, 139, 87),
            (65, 105, 225),
            (60, 179, 113),
        ];
        assert(colors@ =~= palette());
        ColorPicker { colors, size: 20 }
    }
}

} // verus!
