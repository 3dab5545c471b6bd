use vstd::prelude::*;

verus! {

#[derive(Clone, Copy, Debug, Hash, PartialEq, Eq, Structural)]
pub enum FontId {
    MonoBold,
    TextRegular,
    TextBold,
}

#[derive(Clone, Copy, Debug, Hash, PartialEq, Eq, Structural)]
pub enum AssetId {
    // Backgrounds
    BackgroundParchment,

    // Icons
    LockIcon,

    // Skill icons
    LumberingIcon,
    MiningIcon,
    HuntingIcon,
    HerbalismIcon,
    CookingIcon,

    // Animations
    WoodAnim1,
    WoodAnim2,
    CookingAnim1,
    CookingAnim2,
    HerbalismAnim1,
    HerbalismAnim2,
    AlchemyAnim1,
    AlchemyAnim2,
    MiningAnim1,
    MiningAnim2,
    HuntingAnim1,
    HuntingAnim2,
    SmithingAnim1,
    SmithingAnim2,

    // Icons and items
    // Wood
    Kindlewood,
    Craftwood,
    Graintree,

    // Ores
    IronOre,
    MeatGame,
    Coin,
    BagOfCoins,
    Bread,
    Herbs,
    Sandwich,
    Tree,
    Deer,
    ManaPotion,
}

/// The file of every texture, relative to the assets folder.
pub open spec fn texture_path_table() -> Seq<(AssetId, Seq<char>)> {
    seq![
        (AssetId::BackgroundParchment, "chatgpt/parchment.png"@),
        (AssetId::LockIcon, "chatgpt/icons/lock.png"@),
        (AssetId::LumberingIcon, "chatgpt/skills/woodcutting.png"@),
        (AssetId::MiningIcon, "chatgpt/skills/mining.png"@),
        (AssetId::HuntingIcon, "chatgpt/skills/hunting.png"@),
        (AssetId::HerbalismIcon, "chatgpt/skills/herbalism.png"@),
        (AssetId::CookingIcon, "chatgpt/skills/cooking.png"@),
        (AssetId::WoodAnim1, "ChopChop_1_.png"@),
        (AssetId::WoodAnim2, "chop2_lanczos.png"@),
        (AssetId::CookingAnim1, "pan_1.png"@),
        (AssetId::CookingAnim2, "pan_2.png"@),
        (AssetId::HerbalismAnim1, "ary/HerbHerb_1.png"@),
        (AssetId::HerbalismAnim2, "ary/HerbHerb_2.png"@),
        (AssetId::AlchemyAnim1, "ary/Alchemy_1.png"@),
        (AssetId::AlchemyAnim2, "ary/Alchemy_2.png"@),
        (AssetId::MiningAnim1, "ClingCling_1.png"@),
        (AssetId::MiningAnim2, "ClingCling_2.png"@),
        (AssetId::HuntingAnim1, "PewPew_1.png"@),
        (AssetId::HuntingAnim2, "PewPew_2.png"@),
        (AssetId::SmithingAnim1, "BomBom_1.png"@),
        (AssetId::SmithingAnim2, "BomBom_2.png"@),
        (AssetId::Kindlewood, "chatgpt/kindlewood.png"@),
        (AssetId::Craftwood, "chatgpt/craftwood.png"@),
        (AssetId::Graintree, "chatgpt/graintree.png"@),
        (AssetId::IronOre, "chatgpt/iron_ore.png"@),
        (AssetId::MeatGame, "chatgpt/game.png"@),
        (AssetId::Coin, "coin.png"@),
        (AssetId::BagOfCoins, "chatgpt/bag_of_coins.png"@),
        (AssetId::Bread, "chatgpt/bread.png"@),
        (AssetId::Herbs, "chatgpt/herbs.png"@),
        (AssetId::Sandwich, "chatgpt/sandwich.png"@),
        (AssetId::Tree, "chatgpt/tree.png"@),
        (AssetId::Deer, "chatgpt/deer.png"@),
        (AssetId::ManaPotion, "chatgpt/mana_potion.png"@),
    ]
}

impl AssetId {
    /// The place of this asset in `texture_path_table`.
    pub open spec fn index(self) -> int {
        match self {
            AssetId::BackgroundParchment => 0,
            AssetId::LockIcon => 1,
            AssetId::LumberingIcon => 2,
            AssetId::MiningIcon => 3,
            AssetId::HuntingIcon => 4,
            AssetId::HerbalismIcon => 5,
            AssetId::CookingIcon => 6,
            AssetId::WoodAnim1 => 7,
            AssetId::WoodAnim2 => 8,
            AssetId::CookingAnim1 => 9,
            AssetId::CookingAnim2 => 10,
            AssetId::HerbalismAnim1 => 11,
            AssetId::HerbalismAnim2 => 12,
            AssetId::AlchemyAnim1 => 13,
            AssetId::AlchemyAnim2 => 14,
            AssetId::MiningAnim1 => 15,
            AssetId::MiningAnim2 => 16,
            AssetId::HuntingAnim1 => 17,
            AssetId::HuntingAnim2 => 18,
            AssetId::SmithingAnim1 => 19,
            AssetId::SmithingAnim2 => 20,
            AssetId::Kindlewood => 21,
            AssetId::Craftwood => 22,
            AssetId::Graintree => 23,
            AssetId::IronOre => 24,
            AssetId::MeatGame => 25,
            AssetId::Coin => 26,
            AssetId::BagOfCoins => 27,
            AssetId::Bread => 28,
            AssetId::Herbs => 29,
            AssetId::Sandwich => 30,
            AssetId::Tree => 31,
            AssetId::Deer => 32,
            AssetId::ManaPotion => 33,
        }
    }
}

/// The file of every texture, relative to the assets folder, in the order in
/// which they are loaded.
pub fn texture_paths() -> (res: Vec<(AssetId, &'static str)>)
    ensures
        res@.map_values(|p: (AssetId, &'static str)| (p.0, p.1@)) == texture_path_table(),
{
    let mut res: Vec<(AssetId, &'static str)> = Vec::new();
    res.push((AssetId::BackgroundParchment, "chatgpt/parchment.png"));
    res.push((AssetId::LockIcon, "chatgpt/icons/lock.png"));
    res.push((AssetId::LumberingIcon, "chatgpt/skills/woodcutting.png"));
    res.push((AssetId::MiningIcon, "chatgpt/skills/mining.png"));
    res.push((AssetId::HuntingIcon, "chatgpt/skills/hunting.png"));
    res.push((AssetId::HerbalismIcon, "chatgpt/skills/herbalism.png"));
    res.push((AssetId::CookingIcon, "chatgpt/skills/cooking.png"));
    res.push((AssetId::WoodAnim1, "ChopChop_1_.png"));
    res.push((AssetId::WoodAnim2, "chop2_lanczos.png"));
    res.push((AssetId::CookingAnim1, "pan_1.png"));
    res.push((AssetId::CookingAnim2, "pan_2.png"));
    res.push((AssetId::HerbalismAnim1, "ary/HerbHerb_1.png"));
    res.push((AssetId::HerbalismAnim2, "ary/HerbHerb_2.png"));
    res.push((AssetId::AlchemyAnim1, "ary/Alchemy_1.png"));
    res.push((AssetId::AlchemyAnim2, "ary/Alchemy_2.png"));
    res.push((AssetId::MiningAnim1, "ClingCling_1.png"));
    res.push((AssetId::MiningAnim2, "ClingCling_2.png"));
    res.push((AssetId::HuntingAnim1, "PewPew_1.png"));
    res.push((AssetId::HuntingAnim2, "PewPew_2.png"));
    res.push((AssetId::SmithingAnim1, "BomBom_1.png"));
    res.push((AssetId::SmithingAnim2, "BomBom_2.png"));
    res.push((AssetId::Kindlewood, "chatgpt/kindlewood.png"));
    res.push((AssetId::Craftwood, "chatgpt/craftwood.png"));
    res.push((AssetId::Graintree, "chatgpt/graintree.png"));
    res.push((AssetId::IronOre, "chatgpt/iron_ore.png"));
    res.push((AssetId::MeatGame, "chatgpt/game.png"));
    res.push((AssetId::Coin, "coin.png"));
    res.push((AssetId::BagOfCoins, "chatgpt/bag_of_coins.png"));
    res.push((AssetId::Bread, "chatgpt/bread.png"));
    res.push((AssetId::Herbs, "chatgpt/herbs.png"));
    res.push((AssetId::Sandwich, "chatgpt/sandwich.png"));
    res.push((AssetId::Tree, "chatgpt/tree.png"));
    res.push((AssetId::Deer, "chatgpt/deer.png"));
    res.push((AssetId::ManaPotion, "chatgpt/mana_potion.png"));
    assert(res@.map_values(|p: (AssetId, &'static str)| (p.0, p.1@)) =~= texture_path_table());
    res
}

/// Every asset has exactly one entry in `texture_path_table`, at its index.
pub proof fn lemma_every_asset_has_one_texture(asset: AssetId)
    ensures
        0 <= asset.index() < texture_path_table().len(),
        texture_path_table()[asset.index()].0 == asset,
        forall|i: int|
            0 <= i < texture_path_table().len() && #[trigger] texture_path_table()[i].0 == asset
                ==> i == asset.index(),
{
}

} // verus!
