//! The t-shirt images of every shirt colour, generic over the image type.
use vstd::prelude::*;

verus! {

#[derive(Debug, Clone, Copy, PartialEq, Eq, Structural)]
pub enum TShirtColors {
    Red,
    DRed,
    Green,
    DGreen,
    Blue,
    DBlue,
}

pub struct TShirtStorage<I> {
    blue_t_shirt: I,
    red_t_shirt: I,
    dgreen_t_shirt: I,
    burg_t_shirt: I,
    dblue_t_shirt: I,
    ddgreen_t_shirt: I,
}

impl<I> TShirtStorage<I> {
    /// The image of the shirt of a colour.
    pub closed spec fn shirt(&self, color: TShirtColors) -> I {
        match color {
            TShirtColors::Red => self.red_t_shirt,
            TShirtColors::DRed => self.burg_t_shirt,
            TShirtColors::Green => self.dgreen_t_shirt,
            TShirtColors::DGreen => self.ddgreen_t_shirt,
            TShirtColors::Blue => self.blue_t_shirt,
            TShirtColors::DBlue => self.dblue_t_shirt,
        }
    }

    /// Storage for the blue shirt and the shirts recoloured from it.
    pub fn new(
        blue_t_shirt: I,
        red_t_shirt: I,
        dgreen_t_shirt: I,
        burg_t_shirt: I,
        dblue_t_shirt: I,
        ddgreen_t_shirt: I,
    ) -> (s: Self)
        ensures
            s.shirt(TShirtColors::Blue) == blue_t_shirt,
            s.shirt(TShirtColors::Red) == red_t_shirt,
            s.shirt(TShirtColors::Green) == dgreen_t_shirt,
            s.shirt(TShirtColors::DRed) == burg_t_shirt,
            s.shirt(TShirtColors::DBlue) == dblue_t_shirt,
            s.shirt(TShirtColors::DGreen) == ddgreen_t_shirt,
    {
        TShirtStorage {
            blue_t_shirt,
            red_t_shirt,
            dgreen_t_shirt,
            burg_t_shirt,
            dblue_t_shirt,
            ddgreen_t_shirt,
        }
    }

    pub fn tshirt_enum_to_image(&self, color: TShirtColors) -> (img: &I)
        ensures
            *img == self.shirt(color),
    {
        match color {
            TShirtColors::Red => &self.red_t_shirt,
            TShirtColors::DRed => &self.burg_t_shirt,
            TShirtColors::Green => &self.dgreen_t_shirt,
            TShirtColors::DGreen => &self.ddgreen_t_shirt,
            TShirtColors::Blue => &self.blue_t_shirt,
            TShirtColors::DBlue => &self.dblue_t_shirt,
        }
    }
}

} // verus!
