//! Artwork slots and the analysis data that depends on each artwork.
//!
//! The types are generic over the image type `I`, so that the data can be
//! kept with whatever handle the display uses for an image.
use vstd::prelude::*;
use crate::image_utils::{
    HotSpot, ceil_div, compute_bad_tpixels, compute_percent_opaque, correct_alpha_for_tshirt,
    count_partially_transparent, count_visible, flag_alpha_for_shirt, hot_spots_from_heat_map,
    spec_correct_alpha, spec_flag_alpha, spec_hot_spots,
};
use crate::loaded_image::{
    PixelImage, grey, has_detail, heat_height, heat_level, heat_map_from_image, heat_width,
    image_heat_sums,
};
use crate::rgba::Rgba;

verus! {

/// Artwork slot - one of three.
#[derive(Debug, Clone, Copy, PartialEq, Eq, Structural)]
pub enum ArtEnum {
    Artwork0,
    Artwork1,
    Artwork2,
}

/// Analysis data that depends on the t-shirt artwork.
pub struct ArtworkDependentData<I> {
    // Data for the DPI tool
    dpi_top_hot_spots: Vec<HotSpot>,
    // Data for the partial transparency report and tool
    partial_transparency_percent: u32,
    partial_transparency_problems: I,
    partial_transparency_fixed: I,
    // Data for the bib report and tool
    bib_opaque_percent: u32,
    bib_opaque_mask: I,
    // Data for the thin line report and tool
    thin_line_percent: u32,
    thin_line_problems: I,
}

impl<I> ArtworkDependentData<I> {
    pub closed spec fn spec_dpi_top_hot_spots(&self) -> Seq<HotSpot> {
        self.dpi_top_hot_spots@
    }

    pub closed spec fn spec_partial_transparency_percent(&self) -> u32 {
        self.partial_transparency_percent
    }

    pub closed spec fn spec_partial_transparency_problems(&self) -> I {
        self.partial_transparency_problems
    }

    pub closed spec fn spec_partial_transparency_fixed(&self) -> I {
        self.partial_transparency_fixed
    }

    pub closed spec fn spec_bib_opaque_percent(&self) -> u32 {
        self.bib_opaque_percent
    }

    pub closed spec fn spec_bib_opaque_mask(&self) -> I {
        self.bib_opaque_mask
    }

    pub closed spec fn spec_thin_line_percent(&self) -> u32 {
        self.thin_line_percent
    }

    pub closed spec fn spec_thin_line_problems(&self) -> I {
        self.thin_line_problems
    }

    /// Bundles the analysis results computed for one artwork.
    pub fn new(
        dpi_top_hot_spots: Vec<HotSpot>,
        partial_transparency_percent: u32,
        partial_transparency_problems: I,
        partial_transparency_fixed: I,
        bib_opaque_percent: u32,
        bib_opaque_mask: I,
        thin_line_percent: u32,
        thin_line_problems: I,
    ) -> (d: Self)
        ensures
            d.spec_dpi_top_hot_spots() == dpi_top_hot_spots@,
            d.spec_partial_transparency_percent() == partial_transparency_percent,
            d.spec_partial_transparency_problems() == partial_transparency_problems,
            d.spec_partial_transparency_fixed() == partial_transparency_fixed,
            d.spec_bib_opaque_percent() == bib_opaque_percent,
            d.spec_bib_opaque_mask() == bib_opaque_mask,
            d.spec_thin_line_percent() == thin_line_percent,
            d.spec_thin_line_problems() == thin_line_problems,
    {
        ArtworkDependentData {
            dpi_top_hot_spots,
            partial_transparency_percent,
            partial_transparency_problems,
            partial_transparency_fixed,
            bib_opaque_percent,
            bib_opaque_mask,
            thin_line_percent,
            thin_line_problems,
        }
    }

    pub fn dpi_top_hot_spots(&self) -> (r: &Vec<HotSpot>)
        ensures
            r@ == self.spec_dpi_top_hot_spots(),
    {
        &self.dpi_top_hot_spots
    }

    pub fn partial_transparency_percent(&self) -> (r: u32)
        ensures
            r == self.spec_partial_transparency_percent(),
    {
        self.partial_transparency_percent
    }

    pub fn partial_transparency_problems(&self) -> (r: &I)
        ensures
            *r == self.spec_partial_transparency_problems(),
    {
        &self.partial_transparency_problems
    }

    pub fn partial_transparency_fixed(&self) -> (r: &I)
        ensures
            *r == self.spec_partial_transparency_fixed(),
    {
        &self.partial_transparency_fixed
    }

    pub fn bib_opaque_percent(&self) -> (r: u32)
        ensures
            r == self.spec_bib_opaque_percent(),
    {
        self.bib_opaque_percent
    }

    pub fn bib_opaque_mask(&self) -> (r: &I)
        ensures
            *r == self.spec_bib_opaque_mask(),
    {
        &self.bib_opaque_mask
    }

    pub fn thin_line_percent(&self) -> (r: u32)
        ensures
            r == self.spec_thin_line_percent(),
    {
        self.thin_line_percent
    }

    pub fn thin_line_problems(&self) -> (r: &I)
        ensures
            *r == self.spec_thin_line_problems(),
    {
        &self.thin_line_problems
    }
}

/// The three artwork slots, each with its image and, once computed, its
/// analysis data.
pub struct ArtStorage<I> {
    artwork_0: I,
    artwork_1: I,
    artwork_2: I,
    art_dependent_data_0: Option<ArtworkDependentData<I>>,
    art_dependent_data_1: Option<ArtworkDependentData<I>>,
    art_dependent_data_2: Option<ArtworkDependentData<I>>,
}

impl<I> ArtStorage<I> {
    /// The image in a slot.
    pub closed spec fn art(&self, art_id: ArtEnum) -> I {
        match art_id {
            ArtEnum::Artwork0 => self.artwork_0,
            ArtEnum::Artwork1 => self.artwork_1,
            ArtEnum::Artwork2 => self.artwork_2,
        }
    }

    /// The analysis data of a slot, if computed.
    pub closed spec fn dependent_data(&self, art_id: ArtEnum) -> Option<ArtworkDependentData<I>> {
        match art_id {
            ArtEnum::Artwork0 => self.art_dependent_data_0,
            ArtEnum::Artwork1 => self.art_dependent_data_1,
            ArtEnum::Artwork2 => self.art_dependent_data_2,
        }
    }

    /// Storage holding three artworks, none analysed yet.
    pub fn new(artwork_0: I, artwork_1: I, artwork_2: I) -> (s: Self)
        ensures
            s.art(ArtEnum::Artwork0) == artwork_0,
            s.art(ArtEnum::Artwork1) == artwork_1,
            s.art(ArtEnum::Artwork2) == artwork_2,
            forall|id: ArtEnum| s.dependent_data(id) is None,
    {
        ArtStorage {
            art_dependent_data_0: None,
            art_dependent_data_1: None,
            art_dependent_data_2: None,
            artwork_0,
            artwork_1,
            artwork_2,
        }
    }

    pub fn get_dependent_data(&self, art_id: ArtEnum) -> (d: Option<&ArtworkDependentData<I>>)
        ensures
            match self.dependent_data(art_id) {
                Some(data) => d == Some(&data),
                None => d is None,
            },
    {
        match art_id {
            ArtEnum::Artwork0 => self.art_dependent_data_0.as_ref(),
            ArtEnum::Artwork1 => self.art_dependent_data_1.as_ref(),
            ArtEnum::Artwork2 => self.art_dependent_data_2.as_ref(),
        }
    }

    pub fn get_art(&self, art_id: ArtEnum) -> (a: &I)
        ensures
            *a == self.art(art_id),
    {
        match art_id {
            ArtEnum::Artwork0 => &self.artwork_0,
            ArtEnum::Artwork1 => &self.artwork_1,
            ArtEnum::Artwork2 => &self.artwork_2,
        }
    }

    /// Replaces the image and the analysis data of one slot; the other slots
    /// keep theirs.
    pub fn set_art(&mut self, art_id: ArtEnum, image: I, dependent_data: Option<ArtworkDependentData<I>>)
        ensures
            final(self).art(art_id) == image,
            final(self).dependent_data(art_id) == dependent_data,
            forall|other: ArtEnum|
                other != art_id ==> final(self).art(other) == old(self).art(other)
                    && final(self).dependent_data(other) == old(self).dependent_data(other),
    {
        match art_id {
            ArtEnum::Artwork0 => {
                self.artwork_0 = image;
                self.art_dependent_data_0 = dependent_data;
            },
            ArtEnum::Artwork1 => {
                self.artwork_1 = image;
                self.art_dependent_data_1 = dependent_data;
            },
            ArtEnum::Artwork2 => {
                self.artwork_2 = image;
                self.art_dependent_data_2 = dependent_data;
            },
        }
    }
}

/// What the analysis of an artwork's pixels yields: the hot spots the DPI
/// tool visits, and the data of the partial transparency and bib reports.
pub struct ArtworkAnalysis {
    pub dpi_top_hot_spots: Vec<HotSpot>,
    pub partial_transparency_percent: u32,
    pub partial_transparency_problems: PixelImage,
    pub partial_transparency_fixed: PixelImage,
    pub bib_opaque_percent: u32,
}

/// The pixels of the edge heat map of `art`.
pub open spec fn heat_map_pixels(art: PixelImage) -> Seq<Rgba> {
    Seq::new(
        (heat_width(art.width()) * heat_height(art.height())) as nat,
        |b: int| grey(heat_level(image_heat_sums(art), b)),
    )
}

/// `out` is `art` with `f` applied to every pixel.
pub open spec fn maps_pixels(art: PixelImage, out: PixelImage, f: spec_fn(Rgba) -> Rgba) -> bool {
    &&& out.size == art.size
    &&& out.pixels@.len() == art.pixels@.len()
    &&& forall|i: int| 0 <= i < art.pixels@.len() ==> #[trigger] out.pixels@[i] == f(art.pixels@[i])
}

/// Analyses an artwork: its hot spots from the edge heat map, its
/// partially transparent pixels flagged and corrected, and the rounded-up
/// percentages of partially transparent and of visible pixels.
///
/// The artwork must not be flat (the heat map is scaled by its largest cell),
/// the heat map's sides must fit in a `u16`, and both percentages must be
/// computable in a `u32`.
pub fn analyse_artwork(art: &PixelImage) -> (a: ArtworkAnalysis)
    requires
        art.is_well_formed(),
        0 < art.pixels@.len() <= u32::MAX,
        has_detail(*art),
        heat_width(art.width()) <= u16::MAX,
        heat_height(art.height()) <= u16::MAX,
        100 * count_partially_transparent(art.pixels@) <= u32::MAX,
        100 * count_visible(art.pixels@) <= u32::MAX,
    ensures
        a.dpi_top_hot_spots@ == spec_hot_spots(
            heat_map_pixels(*art),
            heat_width(art.width()),
            heat_height(art.height()),
        ),
        maps_pixels(*art, a.partial_transparency_problems, |c: Rgba| spec_flag_alpha(c)),
        maps_pixels(*art, a.partial_transparency_fixed, |c: Rgba| spec_correct_alpha(c)),
        a.partial_transparency_percent == ceil_div(
            (100 * count_partially_transparent(art.pixels@)) as int,
            art.pixels@.len() as int,
        ),
        a.bib_opaque_percent == ceil_div(
            (100 * count_visible(art.pixels@)) as int,
            art.pixels@.len() as int,
        ),
{
    let heat_map = heat_map_from_image(art);
    assert(heat_map.pixels@ =~= heat_map_pixels(*art));
    let dpi_top_hot_spots = hot_spots_from_heat_map(&heat_map);
    let partial_transparency_problems = art.map_pixels(flag_alpha_for_shirt);
    let partial_transparency_fixed = art.map_pixels(correct_alpha_for_tshirt);
    let partial_transparency_percent = compute_bad_tpixels(art.pixels.as_slice());
    let bib_opaque_percent = compute_percent_opaque(art.pixels.as_slice());
    ArtworkAnalysis {
        dpi_top_hot_spots,
        partial_transparency_percent,
        partial_transparency_problems,
        partial_transparency_fixed,
        bib_opaque_percent,
    }
}

} // verus!
