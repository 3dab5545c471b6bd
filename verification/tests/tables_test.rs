use tiny_fields::assets::{texture_paths, AssetId};
use tiny_fields::draw::BorderStyle;
use tiny_fields::palette::{self, PaletteC};

#[test]
fn every_asset_has_one_texture() {
    let paths = texture_paths();
    assert_eq!(paths.len(), 34);
    assert_eq!(paths[0], (AssetId::BackgroundParchment, "chatgpt/parchment.png"));
    assert_eq!(paths[24], (AssetId::IronOre, "chatgpt/iron_ore.png"));
    assert_eq!(paths[33], (AssetId::ManaPotion, "chatgpt/mana_potion.png"));
    for (i, (asset, _)) in paths.iter().enumerate() {
        for (j, (other, _)) in paths.iter().enumerate() {
            if i != j {
                assert_ne!(asset, other);
            }
        }
    }
}

#[test]
fn palette_colors() {
    assert_eq!(PaletteC::Anthracite.get_rgba(), (22, 27, 30, 255));
    assert_eq!(PaletteC::WhiteTransparent.get_rgba(), (255, 255, 255, 100));
    assert_eq!(PaletteC::BlackTransparent.get_rgba(), (0, 0, 0, 40));
    assert_eq!(palette::TEXT, PaletteC::Anthracite);
    assert_eq!(palette::PROGRESS_COLOR, PaletteC::Grass);
    assert_eq!(palette::BUTTON_HOVER.get_rgba(), (254, 197, 114, 255));
}

#[test]
fn border_styles_differ() {
    assert_ne!(BorderStyle::NoBorder, BorderStyle::Solid);
    assert_ne!(BorderStyle::Solid, BorderStyle::Dotted);
}
