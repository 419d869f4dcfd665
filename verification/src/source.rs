//! The catalogue of sites that the service indexes.
//!
//! Every site has a fixed numeric index and a display name. A set of sites is
//! sent to the service as a bitmask in which the bit at a site's index stands
//! for that site. The index is used as the bit position directly, with no
//! shift for the slots that the service leaves unused, so the mask is 64 bits
//! wide.

use vstd::prelude::*;

verus! {

/// A site known to the service.
#[derive(Debug, Clone, Copy, PartialEq, Eq, Hash, Structural)]
pub enum Source {
    /// H-Magazines (index 0)
    HMagazines,
    /// H-Game CG (index 2)
    HGameCG,
    /// DoujinshiDB (index 3)
    DoujinshiDB,
    /// pixiv Images (index 5)
    Pixiv,
    /// Nico Nico Seiga (index 8)
    NicoNicoSeiga,
    /// Danbooru (index 9)
    Danbooru,
    /// drawr Images (index 10)
    Drawr,
    /// Nijie Images (index 11)
    Nijie,
    /// Yande.re (index 12)
    Yandere,
    /// Shutterstock (index 15)
    Shutterstock,
    /// FAKKU (index 16)
    Fakku,
    /// H-Misc (index 18)
    HMisc,
    /// 2D-Market (index 19)
    TwoDMarket,
    /// MediBang (index 20)
    MediBang,
    /// Anime (index 21)
    Anime,
    /// H-Anime (index 22)
    HAnime,
    /// Movies (index 23)
    Movies,
    /// Shows (index 24)
    Shows,
    /// Gelbooru (index 25)
    Gelbooru,
    /// Konachan (index 26)
    Konachan,
    /// Sankaku Channel (index 27)
    SankakuChannel,
    /// Anime-Pictures.net (index 28)
    AnimePicturesNet,
    /// e621.net (index 29)
    E621Net,
    /// Idol Complex (index 30)
    IdolComplex,
    /// bcy.net Illust (index 31)
    BcyNetIllust,
    /// bcy.net Cosplay (index 32)
    BcyNetCosplay,
    /// PortalGraphics.net (index 33)
    PortalGraphicsNet,
    /// deviantArt (index 34)
    DeviantArt,
    /// Pawoo.net (index 35)
    PawooNet,
    /// Madokami (index 36)
    Madokami,
    /// MangaDex (index 37)
    MangaDex,
    /// E-Hentai (index 38)
    EHentai,
    /// ArtStation (index 39)
    ArtStation,
    /// FurAffinity (index 40)
    FurAffinity,
    /// Twitter (index 41)
    Twitter,
    /// Furry Network (index 42)
    FurryNetwork,
    /// Kemono (index 43)
    Kemono,
    /// Skeb (index 44)
    Skeb,
}

/// The greatest index that any site has.
pub const MAX_INDEX: u32 = 44;

impl Source {
    /// The index of this site.
    pub open spec fn index_spec(self) -> u32 {
        match self {
            Source::HMagazines => 0,
            Source::HGameCG => 2,
            Source::DoujinshiDB => 3,
            Source::Pixiv => 5,
            Source::NicoNicoSeiga => 8,
            Source::Danbooru => 9,
            Source::Drawr => 10,
            Source::Nijie => 11,
            Source::Yandere => 12,
            Source::Shutterstock => 15,
            Source::Fakku => 16,
            Source::HMisc => 18,
            Source::TwoDMarket => 19,
            Source::MediBang => 20,
            Source::Anime => 21,
            Source::HAnime => 22,
            Source::Movies => 23,
            Source::Shows => 24,
            Source::Gelbooru => 25,
            Source::Konachan => 26,
            Source::SankakuChannel => 27,
            Source::AnimePicturesNet => 28,
            Source::E621Net => 29,
            Source::IdolComplex => 30,
            Source::BcyNetIllust => 31,
            Source::BcyNetCosplay => 32,
            Source::PortalGraphicsNet => 33,
            Source::DeviantArt => 34,
            Source::PawooNet => 35,
            Source::Madokami => 36,
            Source::MangaDex => 37,
            Source::EHentai => 38,
            Source::ArtStation => 39,
            Source::FurAffinity => 40,
            Source::Twitter => 41,
            Source::FurryNetwork => 42,
            Source::Kemono => 43,
            Source::Skeb => 44,
        }
    }

    /// The display name of this site.
    pub open spec fn name_spec(self) -> Seq<char> {
        match self {
            Source::HMagazines => "H-Magazines"@,
            Source::HGameCG => "H-Game CG"@,
            Source::DoujinshiDB => "DoujinshiDB"@,
            Source::Pixiv => "pixiv Images"@,
            Source::NicoNicoSeiga => "Nico Nico Seiga"@,
            Source::Danbooru => "Danbooru"@,
            Source::Drawr => "drawr Images"@,
            Source::Nijie => "Nijie Images"@,
            Source::Yandere => "Yande.re"@,
            Source::Shutterstock => "Shutterstock"@,
            Source::Fakku => "FAKKU"@,
            Source::HMisc => "H-Misc"@,
            Source::TwoDMarket => "2D-Market"@,
            Source::MediBang => "MediBang"@,
            Source::Anime => "Anime"@,
            Source::HAnime => "H-Anime"@,
            Source::Movies => "Movies"@,
            Source::Shows => "Shows"@,
            Source::Gelbooru => "Gelbooru"@,
            Source::Konachan => "Konachan"@,
            Source::SankakuChannel => "Sankaku Channel"@,
            Source::AnimePicturesNet => "Anime-Pictures.net"@,
            Source::E621Net => "e621.net"@,
            Source::IdolComplex => "Idol Complex"@,
            Source::BcyNetIllust => "bcy.net Illust"@,
            Source::BcyNetCosplay => "bcy.net Cosplay"@,
            Source::PortalGraphicsNet => "PortalGraphics.net"@,
            Source::DeviantArt => "deviantArt"@,
            Source::PawooNet => "Pawoo.net"@,
            Source::Madokami => "Madokami"@,
            Source::MangaDex => "MangaDex"@,
            Source::EHentai => "E-Hentai"@,
            Source::ArtStation => "ArtStation"@,
            Source::FurAffinity => "FurAffinity"@,
            Source::Twitter => "Twitter"@,
            Source::FurryNetwork => "Furry Network"@,
            Source::Kemono => "Kemono"@,
            Source::Skeb => "Skeb"@,
        }
    }

    /// The site with the given index, if there is one.
    pub open spec fn from_index(index: int) -> Option<Source> {
        if exists|s: Source| s.index_spec() == index {
            Some(choose|s: Source| s.index_spec() == index)
        } else {
            None
        }
    }

    /// Returns the index of the site.
    pub fn index(&self) -> (r: u32)
        ensures
            r == self.index_spec(),
            r <= MAX_INDEX,
    {
        match self {
            Source::HMagazines => 0,
            Source::HGameCG => 2,
            Source::DoujinshiDB => 3,
            Source::Pixiv => 5,
            Source::NicoNicoSeiga => 8,
            Source::Danbooru => 9,
            Source::Drawr => 10,
            Source::Nijie => 11,
            Source::Yandere => 12,
            Source::Shutterstock => 15,
            Source::Fakku => 16,
            Source::HMisc => 18,
            Source::TwoDMarket => 19,
            Source::MediBang => 20,
            Source::Anime => 21,
            Source::HAnime => 22,
            Source::Movies => 23,
            Source::Shows => 24,
            Source::Gelbooru => 25,
            Source::Konachan => 26,
            Source::SankakuChannel => 27,
            Source::AnimePicturesNet => 28,
            Source::E621Net => 29,
            Source::IdolComplex => 30,
            Source::BcyNetIllust => 31,
            Source::BcyNetCosplay => 32,
            Source::PortalGraphicsNet => 33,
            Source::DeviantArt => 34,
            Source::PawooNet => 35,
            Source::Madokami => 36,
            Source::MangaDex => 37,
            Source::EHentai => 38,
            Source::ArtStation => 39,
            Source::FurAffinity => 40,
            Source::Twitter => 41,
            Source::FurryNetwork => 42,
            Source::Kemono => 43,
            Source::Skeb => 44,
        }
    }

    /// Returns the name of the source as a string.
    pub fn name(&self) -> (r: &'static str)
        ensures
            r@ == self.name_spec(),
    {
        match self {
            Source::HMagazines => "H-Magazines",
            Source::HGameCG => "H-Game CG",
            Source::DoujinshiDB => "DoujinshiDB",
            Source::Pixiv => "pixiv Images",
            Source::NicoNicoSeiga => "Nico Nico Seiga",
            Source::Danbooru => "Danbooru",
            Source::Drawr => "drawr Images",
            Source::Nijie => "Nijie Images",
            Source::Yandere => "Yande.re",
            Source::Shutterstock => "Shutterstock",
            Source::Fakku => "FAKKU",
            Source::HMisc => "H-Misc",
            Source::TwoDMarket => "2D-Market",
            Source::MediBang => "MediBang",
            Source::Anime => "Anime",
            Source::HAnime => "H-Anime",
            Source::Movies => "Movies",
            Source::Shows => "Shows",
            Source::Gelbooru => "Gelbooru",
            Source::Konachan => "Konachan",
            Source::SankakuChannel => "Sankaku Channel",
            Source::AnimePicturesNet => "Anime-Pictures.net",
            Source::E621Net => "e621.net",
            Source::IdolComplex => "Idol Complex",
            Source::BcyNetIllust => "bcy.net Illust",
            Source::BcyNetCosplay => "bcy.net Cosplay",
            Source::PortalGraphicsNet => "PortalGraphics.net",
            Source::DeviantArt => "deviantArt",
            Source::PawooNet => "Pawoo.net",
            Source::Madokami => "Madokami",
            Source::MangaDex => "MangaDex",
            Source::EHentai => "E-Hentai",
            Source::ArtStation => "ArtStation",
            Source::FurAffinity => "FurAffinity",
            Source::Twitter => "Twitter",
            Source::FurryNetwork => "Furry Network",
            Source::Kemono => "Kemono",
            Source::Skeb => "Skeb",
        }
    }

    /// Converts a u32 index to a Source enum.
    pub fn from_u32(index: u32) -> (r: Option<Self>)
        ensures
            r == Source::from_index(index as int),
            r matches Some(s) ==> s.index_spec() == index,
            r is None ==> forall|s: Source| s.index_spec() != index,
    {
        let r = match index {
            0 => Some(Source::HMagazines),
            2 => Some(Source::HGameCG),
            3 => Some(Source::DoujinshiDB),
            5 => Some(Source::Pixiv),
            8 => Some(Source::NicoNicoSeiga),
            9 => Some(Source::Danbooru),
            10 => Some(Source::Drawr),
            11 => Some(Source::Nijie),
            12 => Some(Source::Yandere),
            15 => Some(Source::Shutterstock),
            16 => Some(Source::Fakku),
            18 => Some(Source::HMisc),
            19 => Some(Source::TwoDMarket),
            20 => Some(Source::MediBang),
            21 => Some(Source::Anime),
            22 => Some(Source::HAnime),
            23 => Some(Source::Movies),
            24 => Some(Source::Shows),
            25 => Some(Source::Gelbooru),
            26 => Some(Source::Konachan),
            27 => Some(Source::SankakuChannel),
            28 => Some(Source::AnimePicturesNet),
            29 => Some(Source::E621Net),
            30 => Some(Source::IdolComplex),
            31 => Some(Source::BcyNetIllust),
            32 => Some(Source::BcyNetCosplay),
            33 => Some(Source::PortalGraphicsNet),
            34 => Some(Source::DeviantArt),
            35 => Some(Source::PawooNet),
            36 => Some(Source::Madokami),
            37 => Some(Source::MangaDex),
            38 => Some(Source::EHentai),
            39 => Some(Source::ArtStation),
            40 => Some(Source::FurAffinity),
            41 => Some(Source::Twitter),
            42 => Some(Source::FurryNetwork),
            43 => Some(Source::Kemono),
            44 => Some(Source::Skeb),
            _ => None,
        };
        proof {
            match r {
                Some(s) => {
                    assert(s.index_spec() == index);
                    let t = choose|t: Source| t.index_spec() == index;
                    lemma_index_injective(s, t);
                },
                None => {
                    assert forall|s: Source| s.index_spec() != index by {}
                },
            }
        }
        r
    }
}

/// No two sites share an index.
pub proof fn lemma_index_injective(a: Source, b: Source)
    requires
        a.index_spec() == b.index_spec(),
    ensures
        a == b,
{
}

/// Every index is at most `MAX_INDEX`, so it names a bit of a 64-bit mask.
pub proof fn lemma_index_bounded(s: Source)
    ensures
        s.index_spec() <= MAX_INDEX,
{
}

/// Looking a site up by its own index finds that site.
pub proof fn lemma_from_index_of_index(s: Source)
    ensures
        Source::from_index(s.index_spec() as int) == Some(s),
{
    let t = choose|t: Source| t.index_spec() == s.index_spec();
    lemma_index_injective(s, t);
}

/// The mask in which the bit at the index of every member of `sources` is
/// set, and no other bit.
pub open spec fn mask_of(sources: Seq<Source>) -> u64
    decreases sources.len(),
{
    if sources.len() == 0 {
        0
    } else {
        mask_of(sources.drop_last()) | (1u64 << (sources.last().index_spec() as u64))
    }
}

/// Whether the bit at position `bit` of `mask` is set.
pub open spec fn bit_is_set(mask: u64, bit: u64) -> bool {
    (mask >> bit) & 1 == 1
}

/// Whether some member of `sources` has the index `index`.
pub open spec fn has_index(sources: Seq<Source>, index: int) -> bool {
    exists|j: int| 0 <= j < sources.len() && (#[trigger] sources[j]).index_spec() == index
}

/// Encodes a selection of sites as a bitmask: the bit at a site's index is
/// set if and only if the site is selected. A site that is listed twice
/// counts once.
pub fn generate_bitmask(mask: &Vec<Source>) -> (r: u64)
    ensures
        r == mask_of(mask@),
        forall|bit: u64| bit < 64 ==> (bit_is_set(r, bit) <==> has_index(mask@, bit as int)),
{
    let mut res: u64 = 0;
    let mut i: usize = 0;
    while i < mask.len()
        invariant
            i <= mask.len(),
            res == mask_of(mask@.take(i as int)),
        decreases mask.len() - i,
    {
        let index: u32 = mask[i].index();
        proof {
            assert(mask@.take(i + 1).drop_last() =~= mask@.take(i as int));
            assert(mask@.take(i + 1).last() == mask@[i as int]);
        }
        res = res | (1u64 << (index as u64));
        i = i + 1;
    }
    proof {
        assert(mask@.take(i as int) =~= mask@);
        assert forall|bit: u64| bit < 64 implies (bit_is_set(res, bit) <==> has_index(
            mask@,
            bit as int,
        )) by {
            lemma_mask_bits(mask@, bit);
        }
    }
    res
}

proof fn lemma_bit_of_union(a: u64, k: u64, bit: u64)
    by (bit_vector)
    requires
        k < 64,
        bit < 64,
    ensures
        (((a | (1u64 << k)) >> bit) & 1 == 1) <==> (((a >> bit) & 1 == 1) || bit == k),
{
}

proof fn lemma_bit_of_zero(bit: u64)
    by (bit_vector)
    requires
        bit < 64,
    ensures
        (0u64 >> bit) & 1 == 0,
{
}

proof fn lemma_bit_of_one(k: u64, bit: u64)
    by (bit_vector)
    requires
        k < 64,
        bit < 64,
    ensures
        (((1u64 << k) >> bit) & 1 == 1) <==> bit == k,
        0u64 | (1u64 << k) == 1u64 << k,
{
}

/// A bit of the mask is set exactly when a selected site has that index.
pub proof fn lemma_mask_bits(sources: Seq<Source>, bit: u64)
    requires
        bit < 64,
    ensures
        bit_is_set(mask_of(sources), bit) <==> has_index(sources, bit as int),
    decreases sources.len(),
{
    if sources.len() == 0 {
        lemma_bit_of_zero(bit);
    } else {
        let front = sources.drop_last();
        let k = sources.last().index_spec() as u64;
        lemma_mask_bits(front, bit);
        lemma_bit_of_union(mask_of(front), k, bit);
        if has_index(front, bit as int) {
            let j = choose|j: int| 0 <= j < front.len() && (#[trigger] front[j]).index_spec() == bit;
            assert(sources[j].index_spec() == bit);
        }
        if bit == k {
            assert(sources[sources.len() - 1].index_spec() == bit);
        }
        if has_index(sources, bit as int) {
            let j = choose|j: int|
                0 <= j < sources.len() && (#[trigger] sources[j]).index_spec() == bit;
            if j < front.len() {
                assert(front[j].index_spec() == bit);
            }
        }
    }
}

/// No selection sets a bit above the greatest index.
pub proof fn lemma_mask_within_indices(sources: Seq<Source>, bit: u64)
    requires
        MAX_INDEX < bit < 64,
    ensures
        !bit_is_set(mask_of(sources), bit),
{
    lemma_mask_bits(sources, bit);
    if has_index(sources, bit as int) {
        let j = choose|j: int| 0 <= j < sources.len() && (#[trigger] sources[j]).index_spec() == bit;
        lemma_index_bounded(sources[j]);
    }
}

/// The mask of a single site has exactly one bit set, the one at the site's
/// index.
pub proof fn lemma_single_source_mask(s: Source)
    ensures
        mask_of(seq![s]) == 1u64 << (s.index_spec() as u64),
        forall|bit: u64| bit < 64 ==> (bit_is_set(mask_of(seq![s]), bit) <==> bit == s.index_spec()),
{
    let k = s.index_spec() as u64;
    assert(seq![s].drop_last() =~= Seq::<Source>::empty());
    assert(mask_of(seq![s]) == mask_of(Seq::<Source>::empty()) | (1u64 << k));
    lemma_bit_of_one(k, 0);
    assert forall|bit: u64| bit < 64 implies (bit_is_set(mask_of(seq![s]), bit) <==> bit
        == s.index_spec()) by {
        lemma_bit_of_one(k, bit);
    }
}

/// The order of the selection and repeated members do not change the mask:
/// two selections with the same members have the same bits set.
pub proof fn lemma_mask_depends_on_members(a: Seq<Source>, b: Seq<Source>, bit: u64)
    requires
        bit < 64,
        forall|s: Source| a.contains(s) <==> b.contains(s),
    ensures
        bit_is_set(mask_of(a), bit) == bit_is_set(mask_of(b), bit),
{
    lemma_mask_bits(a, bit);
    lemma_mask_bits(b, bit);
    if has_index(a, bit as int) {
        let j = choose|j: int| 0 <= j < a.len() && (#[trigger] a[j]).index_spec() == bit;
        assert(a.contains(a[j]));
        let i = choose|i: int| 0 <= i < b.len() && b[i] == a[j];
        assert(b[i].index_spec() == bit);
    }
    if has_index(b, bit as int) {
        let j = choose|j: int| 0 <= j < b.len() && (#[trigger] b[j]).index_spec() == bit;
        assert(b.contains(b[j]));
        let i = choose|i: int| 0 <= i < a.len() && a[i] == b[j];
        assert(a[i].index_spec() == bit);
    }
}

} // verus!
