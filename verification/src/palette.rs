use vstd::prelude::*;

verus! {

pub const TEXT: PaletteC = PaletteC::Anthracite;
pub const BORDER: PaletteC = PaletteC::AnthraciteLight;
pub const WINDOW_BACKGROUND: PaletteC = PaletteC::DarkGray;
pub const GAME_BACKGROUND: PaletteC = PaletteC::Brown;
pub const CARD_BACKGROUND: PaletteC = PaletteC::Mocha;
pub const BAR_BACKGROUND: PaletteC = PaletteC::WhiteTransparent;
pub const BUTTON_BACKGROUND: PaletteC = PaletteC::WhiteTransparent;
pub const BUTTON_HOVER: PaletteC = PaletteC::Peach;
pub const BUTTON_CLICKED: PaletteC = PaletteC::BlackTransparent;
pub const BUTTON_TEXT: PaletteC = PaletteC::Anthracite;
pub const IMAGE_BACKGROUND: PaletteC = PaletteC::WhiteTransparent;
pub const SKILL_COLOR: PaletteC = PaletteC::Aqua;
pub const JOB_COLOR: PaletteC = PaletteC::WarmYellow;
pub const PILL_COLOR: PaletteC = PaletteC::AnthraciteLight;
pub const PILL_TEXT_COLOR: PaletteC = PaletteC::OffWhite;
pub const PRODUCT_COLOR: PaletteC = PaletteC::WhiteTransparent;
pub const PROGRESS_COLOR: PaletteC = PaletteC::Grass;

#[derive(Clone, Copy, Debug, PartialEq, Eq, Structural)]
pub enum PaletteC {
    Anthracite,
    AnthraciteLight,
    DarkGray,
    Coral,
    Aqua,
    Peach,
    OffWhite,
    Grass,
    Mocha,
    Brown,
    Black,
    White,
    WarmYellow,
    WhiteTransparent,
    GreenTransparent,
    BlackTransparent,
}

impl PaletteC {
    /// Red, green, blue and alpha of the color, each from 0 to 255.
    pub open spec fn rgba(self) -> (u8, u8, u8, u8) {
        match self {
            PaletteC::Anthracite => (22, 27, 30, 255),
            PaletteC::AnthraciteLight => (36, 41, 46, 255),
            PaletteC::DarkGray => (84, 84, 84, 255),
            PaletteC::Coral => (255, 87, 87, 255),
            PaletteC::Aqua => (12, 192, 223, 255),
            PaletteC::Peach => (254, 197, 114, 255),
            PaletteC::OffWhite => (221, 221, 221, 255),
            PaletteC::Grass => (126, 217, 87, 255),
            PaletteC::Mocha => (195, 157, 117, 255),
            PaletteC::Brown => (65, 19, 8, 255),
            PaletteC::Black => (0, 0, 0, 255),
            PaletteC::White => (255, 255, 255, 255),
            PaletteC::WarmYellow => (255, 200, 51, 255),
            PaletteC::WhiteTransparent => (255, 255, 255, 100),
            PaletteC::GreenTransparent => (126, 217, 87, 200),
            PaletteC::BlackTransparent => (0, 0, 0, 40),
        }
    }

    /// Red, green, blue and alpha of the color, each from 0 to 255.
    pub fn get_rgba(&self) -> (res: (u8, u8, u8, u8))
        ensures
            res == self.rgba(),
    {
        match self {
            PaletteC::Anthracite => (22, 27, 30, 255),
            PaletteC::AnthraciteLight => (36, 41, 46, 255),
            PaletteC::DarkGray => (84, 84, 84, 255),
            PaletteC::Coral => (255, 87, 87, 255),
            PaletteC::Aqua => (12, 192, 223, 255),
            PaletteC::Peach => (254, 197, 114, 255),
            PaletteC::OffWhite => (221, 221, 221, 255),
            PaletteC::Grass => (126, 217, 87, 255),
            PaletteC::Mocha => (195, 157, 117, 255),
            PaletteC::Brown => (65, 19, 8, 255),
            PaletteC::Black => (0, 0, 0, 255),
            PaletteC::White => (255, 255, 255, 255),
            PaletteC::WarmYellow => (255, 200, 51, 255),
            PaletteC::WhiteTransparent => (255, 255, 255, 100),
            PaletteC::GreenTransparent => (126, 217, 87, 200),
            PaletteC::BlackTransparent => (0, 0, 0, 40),
        }
    }
}

} // verus!
