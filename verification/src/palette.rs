use vstd::prelude::*;

use crate::config::PaletteMode;

verus! {

/// The bar's colours, as RGB triples.
#[derive(Debug, Clone, Copy)]
pub struct WallpaperPalette {
    pub panel: [u8; 3],
    pub panel_alt: [u8; 3],
    pub accent: [u8; 3],
    pub accent_soft: [u8; 3],
    pub text: [u8; 3],
    pub muted_text: [u8; 3],
    pub border: [u8; 3],
}

/// One palette for each palette mode.
#[derive(Debug, Clone, Copy)]
pub struct PaletteVariants {
    pub balanced: WallpaperPalette,
    pub vibrant: WallpaperPalette,
    pub contrast: WallpaperPalette,
    pub center: WallpaperPalette,
}

/// The palette used before, or instead of, one sampled from the wallpaper.
pub open spec fn default_palette() -> WallpaperPalette {
    WallpaperPalette {
        panel: [19, 24, 34],
        panel_alt: [26, 33, 47],
        accent: [108, 123, 255],
        accent_soft: [86, 99, 200],
        text: [244, 247, 255],
        muted_text: [196, 204, 220],
        border: [120, 132, 162],
    }
}

impl Default for WallpaperPalette {
    fn default() -> (r: Self)
        ensures
            r == default_palette(),
    {
        WallpaperPalette {
            panel: [19, 24, 34],
            panel_alt: [26, 33, 47],
            accent: [108, 123, 255],
            accent_soft: [86, 99, 200],
            text: [244, 247, 255],
            muted_text: [196, 204, 220],
            border: [120, 132, 162],
        }
    }
}

impl Default for PaletteVariants {
    fn default() -> (r: Self)
        ensures
            r.balanced == default_palette(),
            r.vibrant == default_palette(),
            r.contrast == default_palette(),
            r.center == default_palette(),
    {
        let palette = WallpaperPalette::default();
        PaletteVariants { balanced: palette, vibrant: palette, contrast: palette, center: palette }
    }
}

pub open spec fn selected(v: PaletteVariants, mode: PaletteMode) -> WallpaperPalette {
    match mode {
        PaletteMode::Balanced => v.balanced,
        PaletteMode::Vibrant => v.vibrant,
        PaletteMode::Contrast => v.contrast,
        PaletteMode::Center => v.center,
    }
}

impl PaletteVariants {
    /// The palette for `mode`.
    pub fn select(self, mode: PaletteMode) -> (r: WallpaperPalette)
        ensures
            r == selected(self, mode),
            mode == PaletteMode::Balanced ==> r == self.balanced,
            mode == PaletteMode::Vibrant ==> r == self.vibrant,
            mode == PaletteMode::Contrast ==> r == self.contrast,
            mode == PaletteMode::Center ==> r == self.center,
    {
        proof {
            lemma_each_mode_selects_its_palette(self);
        }
        match mode {
            PaletteMode::Balanced => self.balanced,
            PaletteMode::Vibrant => self.vibrant,
            PaletteMode::Contrast => self.contrast,
            PaletteMode::Center => self.center,
        }
    }
}

/// Each palette mode selects the palette sampled for that mode.
pub proof fn lemma_each_mode_selects_its_palette(v: PaletteVariants)
    ensures
        selected(v, PaletteMode::Balanced) == v.balanced,
        selected(v, PaletteMode::Vibrant) == v.vibrant,
        selected(v, PaletteMode::Contrast) == v.contrast,
        selected(v, PaletteMode::Center) == v.center,
{
}

} // verus!
