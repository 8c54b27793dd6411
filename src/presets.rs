//! The built-in colour presets: pride flags and their palettes.

use vstd::prelude::*;
use crate::color::Rgb;
use crate::profile::ColorProfile;

verus! {

/// A named colour preset.
#[derive(Clone, Copy, Debug, PartialEq, Eq, Hash, Structural)]
pub enum Preset {
    Rainbow,
    Transgender,
    Nonbinary,
    Xenogender,
    Agender,
    Queer,
    Genderfluid,
    Bisexual,
    Pansexual,
    Polysexual,
    Omnisexual,
    Omniromantic,
    GayMen,
    Lesbian,
    Abrosexual,
    Asexual,
    Aromantic,
    Aroace1,
    Aroace2,
    Aroace3,
    Greysexual,
    Autosexual,
    Intergender,
    Greygender,
    Akiosexual,
    Bigender,
    Demigender,
    Demiboy,
    Demigirl,
    Transmasculine,
    Transfeminine,
    Genderfaun,
    Demifaun,
    Genderfae,
    Demifae,
    Neutrois,
    Biromantic1,
    Autoromantic,
    Boyflux2,
    Girlflux,
    Genderflux,
    Finsexual,
    Unlabeled1,
    Unlabeled2,
    Pangender,
    GenderNonconforming1,
    GenderNonconforming2,
    Femboy,
    Tomboy,
    Gynesexual,
    Androsexual,
    Gendervoid,
    Voidgirl,
    Voidboy,
    NonhumanUnity,
    Plural,
    Fraysexual,
    Beiyang,
    Burger,
    Baker,
}

/// The configuration name of a preset.
pub open spec fn preset_name(p: Preset) -> Seq<char> {
    match p {
        Preset::Rainbow => "rainbow"@,
        Preset::Transgender => "transgender"@,
        Preset::Nonbinary => "nonbinary"@,
        Preset::Xenogender => "xenogender"@,
        Preset::Agender => "agender"@,
        Preset::Queer => "queer"@,
        Preset::Genderfluid => "genderfluid"@,
        Preset::Bisexual => "bisexual"@,
        Preset::Pansexual => "pansexual"@,
        Preset::Polysexual => "polysexual"@,
        Preset::Omnisexual => "omnisexual"@,
        Preset::Omniromantic => "omniromantic"@,
        Preset::GayMen => "gay-men"@,
        Preset::Lesbian => "lesbian"@,
        Preset::Abrosexual => "abrosexual"@,
        Preset::Asexual => "asexual"@,
        Preset::Aromantic => "aromantic"@,
        Preset::Aroace1 => "aroace1"@,
        Preset::Aroace2 => "aroace2"@,
        Preset::Aroace3 => "aroace3"@,
        Preset::Greysexual => "greysexual"@,
        Preset::Autosexual => "autosexual"@,
        Preset::Intergender => "intergender"@,
        Preset::Greygender => "greygender"@,
        Preset::Akiosexual => "akiosexual"@,
        Preset::Bigender => "bigender"@,
        Preset::Demigender => "demigender"@,
        Preset::Demiboy => "demiboy"@,
        Preset::Demigirl => "demigirl"@,
        Preset::Transmasculine => "transmasculine"@,
        Preset::Transfeminine => "transfeminine"@,
        Preset::Genderfaun => "genderfaun"@,
        Preset::Demifaun => "demifaun"@,
        Preset::Genderfae => "genderfae"@,
        Preset::Demifae => "demifae"@,
        Preset::Neutrois => "neutrois"@,
        Preset::Biromantic1 => "biromantic1"@,
        Preset::Autoromantic => "autoromantic"@,
        Preset::Boyflux2 => "boyflux2"@,
        Preset::Girlflux => "girlflux"@,
        Preset::Genderflux => "genderflux"@,
        Preset::Finsexual => "finsexual"@,
        Preset::Unlabeled1 => "unlabeled1"@,
        Preset::Unlabeled2 => "unlabeled2"@,
        Preset::Pangender => "pangender"@,
        Preset::GenderNonconforming1 => "gendernonconforming1"@,
        Preset::GenderNonconforming2 => "gendernonconforming2"@,
        Preset::Femboy => "femboy"@,
        Preset::Tomboy => "tomboy"@,
        Preset::Gynesexual => "gynesexual"@,
        Preset::Androsexual => "androsexual"@,
        Preset::Gendervoid => "gendervoid"@,
        Preset::Voidgirl => "voidgirl"@,
        Preset::Voidboy => "voidboy"@,
        Preset::NonhumanUnity => "nonhuman-unity"@,
        Preset::Plural => "plural"@,
        Preset::Fraysexual => "fraysexual"@,
        Preset::Beiyang => "beiyang"@,
        Preset::Burger => "burger"@,
        Preset::Baker => "baker"@,
    }
}

/// Every preset, in the order in which they are offered.
pub open spec fn all_presets() -> Seq<Preset> {
    seq![Preset::Rainbow, Preset::Transgender, Preset::Nonbinary, Preset::Xenogender, Preset::Agender, Preset::Queer, Preset::Genderfluid, Preset::Bisexual, Preset::Pansexual, Preset::Polysexual, Preset::Omnisexual, Preset::Omniromantic, Preset::GayMen, Preset::Lesbian, Preset::Abrosexual, Preset::Asexual, Preset::Aromantic, Preset::Aroace1, Preset::Aroace2, Preset::Aroace3, Preset::Greysexual, Preset::Autosexual, Preset::Intergender, Preset::Greygender, Preset::Akiosexual, Preset::Bigender, Preset::Demigender, Preset::Demiboy, Preset::Demigirl, Preset::Transmasculine, Preset::Transfeminine, Preset::Genderfaun, Preset::Demifaun, Preset::Genderfae, Preset::Demifae, Preset::Neutrois, Preset::Biromantic1, Preset::Autoromantic, Preset::Boyflux2, Preset::Girlflux, Preset::Genderflux, Preset::Finsexual, Preset::Unlabeled1, Preset::Unlabeled2, Preset::Pangender, Preset::GenderNonconforming1, Preset::GenderNonconforming2, Preset::Femboy, Preset::Tomboy, Preset::Gynesexual, Preset::Androsexual, Preset::Gendervoid, Preset::Voidgirl, Preset::Voidboy, Preset::NonhumanUnity, Preset::Plural, Preset::Fraysexual, Preset::Beiyang, Preset::Burger, Preset::Baker]
}

impl Preset {
    /// Every preset, in the order in which they are offered.
    pub fn variants() -> (r: Vec<Preset>)
        ensures
            r@ == all_presets(),
    {
        vec![
            Preset::Rainbow,
            Preset::Transgender,
            Preset::Nonbinary,
            Preset::Xenogender,
            Preset::Agender,
            Preset::Queer,
            Preset::Genderfluid,
            Preset::Bisexual,
            Preset::Pansexual,
            Preset::Polysexual,
            Preset::Omnisexual,
            Preset::Omniromantic,
            Preset::GayMen,
            Preset::Lesbian,
            Preset::Abrosexual,
            Preset::Asexual,
            Preset::Aromantic,
            Preset::Aroace1,
            Preset::Aroace2,
            Preset::Aroace3,
            Preset::Greysexual,
            Preset::Autosexual,
            Preset::Intergender,
            Preset::Greygender,
            Preset::Akiosexual,
            Preset::Bigender,
            Preset::Demigender,
            Preset::Demiboy,
            Preset::Demigirl,
            Preset::Transmasculine,
            Preset::Transfeminine,
            Preset::Genderfaun,
            Preset::Demifaun,
            Preset::Genderfae,
            Preset::Demifae,
            Preset::Neutrois,
            Preset::Biromantic1,
            Preset::Autoromantic,
            Preset::Boyflux2,
            Preset::Girlflux,
            Preset::Genderflux,
            Preset::Finsexual,
            Preset::Unlabeled1,
            Preset::Unlabeled2,
            Preset::Pangender,
            Preset::GenderNonconforming1,
            Preset::GenderNonconforming2,
            Preset::Femboy,
            Preset::Tomboy,
            Preset::Gynesexual,
            Preset::Androsexual,
            Preset::Gendervoid,
            Preset::Voidgirl,
            Preset::Voidboy,
            Preset::NonhumanUnity,
            Preset::Plural,
            Preset::Fraysexual,
            Preset::Beiyang,
            Preset::Burger,
            Preset::Baker,
        ]
    }

    /// The configuration name of the preset.
    pub fn name(&self) -> (r: &'static str)
        ensures
            r@ == preset_name(*self),
    {
        match self {
            Preset::Rainbow => "rainbow",
            Preset::Transgender => "transgender",
            Preset::Nonbinary => "nonbinary",
            Preset::Xenogender => "xenogender",
            Preset::Agender => "agender",
            Preset::Queer => "queer",
            Preset::Genderfluid => "genderfluid",
            Preset::Bisexual => "bisexual",
            Preset::Pansexual => "pansexual",
            Preset::Polysexual => "polysexual",
            Preset::Omnisexual => "omnisexual",
            Preset::Omniromantic => "omniromantic",
            Preset::GayMen => "gay-men",
            Preset::Lesbian => "lesbian",
            Preset::Abrosexual => "abrosexual",
            Preset::Asexual => "asexual",
            Preset::Aromantic => "aromantic",
            Preset::Aroace1 => "aroace1",
            Preset::Aroace2 => "aroace2",
            Preset::Aroace3 => "aroace3",
            Preset::Greysexual => "greysexual",
            Preset::Autosexual => "autosexual",
            Preset::Intergender => "intergender",
            Preset::Greygender => "greygender",
            Preset::Akiosexual => "akiosexual",
            Preset::Bigender => "bigender",
            Preset::Demigender => "demigender",
            Preset::Demiboy => "demiboy",
            Preset::Demigirl => "demigirl",
            Preset::Transmasculine => "transmasculine",
            Preset::Transfeminine => "transfeminine",
            Preset::Genderfaun => "genderfaun",
            Preset::Demifaun => "demifaun",
            Preset::Genderfae => "genderfae",
            Preset::Demifae => "demifae",
            Preset::Neutrois => "neutrois",
            Preset::Biromantic1 => "biromantic1",
            Preset::Autoromantic => "autoromantic",
            Preset::Boyflux2 => "boyflux2",
            Preset::Girlflux => "girlflux",
            Preset::Genderflux => "genderflux",
            Preset::Finsexual => "finsexual",
            Preset::Unlabeled1 => "unlabeled1",
            Preset::Unlabeled2 => "unlabeled2",
            Preset::Pangender => "pangender",
            Preset::GenderNonconforming1 => "gendernonconforming1",
            Preset::GenderNonconforming2 => "gendernonconforming2",
            Preset::Femboy => "femboy",
            Preset::Tomboy => "tomboy",
            Preset::Gynesexual => "gynesexual",
            Preset::Androsexual => "androsexual",
            Preset::Gendervoid => "gendervoid",
            Preset::Voidgirl => "voidgirl",
            Preset::Voidboy => "voidboy",
            Preset::NonhumanUnity => "nonhuman-unity",
            Preset::Plural => "plural",
            Preset::Fraysexual => "fraysexual",
            Preset::Beiyang => "beiyang",
            Preset::Burger => "burger",
            Preset::Baker => "baker",
        }
    }

    /// The preset's colours, each repeated as the flag shows it.
    pub fn color_profile(&self) -> (r: ColorProfile)
        ensures
            0 < r.colors@.len() <= 255,
    {
        match self {
            Preset::Rainbow => {
                let r = plain_profile(vec![Rgb::new(0xE5, 0x00, 0x00), Rgb::new(0xFF, 0x8D, 0x00), Rgb::new(0xFF, 0xEE, 0x00), Rgb::new(0x02, 0x81, 0x21), Rgb::new(0x00, 0x4C, 0xFF), Rgb::new(0x77, 0x00, 0x88)]);
                assert(0 < r.colors@.len() <= 255);
                r
            },
            Preset::Transgender => {
                let r = plain_profile(vec![Rgb::new(0x55, 0xCD, 0xFD), Rgb::new(0xF6, 0xAA, 0xB7), Rgb::new(0xFF, 0xFF, 0xFF), Rgb::new(0xF6, 0xAA, 0xB7), Rgb::new(0x55, 0xCD, 0xFD)]);
                assert(0 < r.colors@.len() <= 255);
                r
            },
            Preset::Nonbinary => {
                let r = plain_profile(vec![Rgb::new(0xFC, 0xF4, 0x31), Rgb::new(0xFC, 0xFC, 0xFC), Rgb::new(0x9D, 0x59, 0xD2), Rgb::new(0x28, 0x28, 0x28)]);
                assert(0 < r.colors@.len() <= 255);
                r
            },
            Preset::Xenogender => {
                let r = plain_profile(vec![Rgb::new(0xFF, 0x66, 0x92), Rgb::new(0xFF, 0x9A, 0x98), Rgb::new(0xFF, 0xB8, 0x83), Rgb::new(0xFB, 0xFF, 0xA8), Rgb::new(0x85, 0xBC, 0xFF), Rgb::new(0x9D, 0x85, 0xFF), Rgb::new(0xA5, 0x10, 0xFF)]);
                assert(0 < r.colors@.len() <= 255);
                r
            },
            Preset::Agender => {
                let r = plain_profile(vec![Rgb::new(0x00, 0x00, 0x00), Rgb::new(0xBA, 0xBA, 0xBA), Rgb::new(0xFF, 0xFF, 0xFF), Rgb::new(0xBA, 0xF4, 0x84), Rgb::new(0xFF, 0xFF, 0xFF), Rgb::new(0xBA, 0xBA, 0xBA), Rgb::new(0x00, 0x00, 0x00)]);
                assert(0 < r.colors@.len() <= 255);
                r
            },
            Preset::Queer => {
                let r = plain_profile(vec![Rgb::new(0xB5, 0x7F, 0xDD), Rgb::new(0xFF, 0xFF, 0xFF), Rgb::new(0x49, 0x82, 0x1E)]);
                assert(0 < r.colors@.len() <= 255);
                r
            },
            Preset::Genderfluid => {
                let r = plain_profile(vec![Rgb::new(0xFE, 0x76, 0xA2), Rgb::new(0xFF, 0xFF, 0xFF), Rgb::new(0xBF, 0x12, 0xD7), Rgb::new(0x00, 0x00, 0x00), Rgb::new(0x30, 0x3C, 0xBE)]);
                assert(0 < r.colors@.len() <= 255);
                r
            },
            Preset::Bisexual => {
                let r = plain_profile(vec![Rgb::new(0xD6, 0x02, 0x70), Rgb::new(0x9B, 0x4F, 0x96), Rgb::new(0x00, 0x38, 0xA8)]);
                assert(0 < r.colors@.len() <= 255);
                r
            },
            Preset::Pansexual => {
                let r = plain_profile(vec![Rgb::new(0xFF, 0x1C, 0x8D), Rgb::new(0xFF, 0xD7, 0x00), Rgb::new(0x1A, 0xB3, 0xFF)]);
                assert(0 < r.colors@.len() <= 255);
                r
            },
            Preset::Polysexual => {
                let r = plain_profile(vec![Rgb::new(0xF7, 0x14, 0xBA), Rgb::new(0x01, 0xD6, 0x6A), Rgb::new(0x15, 0x94, 0xF6)]);
                assert(0 < r.colors@.len() <= 255);
                r
            },
            Preset::Omnisexual => {
                let r = plain_profile(vec![Rgb::new(0xFE, 0x9A, 0xCE), Rgb::new(0xFF, 0x53, 0xBF), Rgb::new(0x20, 0x00, 0x44), Rgb::new(0x67, 0x60, 0xFE), Rgb::new(0x8E, 0xA6, 0xFF)]);
                assert(0 < r.colors@.len() <= 255);
                r
            },
            Preset::Omniromantic => {
                let r = plain_profile(vec![Rgb::new(0xFE, 0xC8, 0xE4), Rgb::new(0xFD, 0xA1, 0xDB), Rgb::new(0x89, 0x73, 0x9A), Rgb::new(0xAB, 0xA7, 0xFE), Rgb::new(0xBF, 0xCE, 0xFF)]);
                assert(0 < r.colors@.len() <= 255);
                r
            },
            Preset::GayMen => {
                let r = plain_profile(vec![Rgb::new(0x07, 0x8D, 0x70), Rgb::new(0x98, 0xE8, 0xC1), Rgb::new(0xFF, 0xFF, 0xFF), Rgb::new(0x7B, 0xAD, 0xE2), Rgb::new(0x3D, 0x1A, 0x78)]);
                assert(0 < r.colors@.len() <= 255);
                r
            },
            Preset::Lesbian => {
                let r = plain_profile(vec![Rgb::new(0xD6, 0x28, 0x00), Rgb::new(0xFF, 0x9B, 0x56), Rgb::new(0xFF, 0xFF, 0xFF), Rgb::new(0xD4, 0x62, 0xA6), Rgb::new(0xA4, 0x00, 0x62)]);
                assert(0 < r.colors@.len() <= 255);
                r
            },
            Preset::Abrosexual => {
                let r = plain_profile(vec![Rgb::new(0x46, 0xD2, 0x94), Rgb::new(0xA3, 0xE9, 0xCA), Rgb::new(0xFF, 0xFF, 0xFF), Rgb::new(0xF7, 0x8B, 0xB3), Rgb::new(0xEE, 0x17, 0x66)]);
                assert(0 < r.colors@.len() <= 255);
                r
            },
            Preset::Asexual => {
                let r = plain_profile(vec![Rgb::new(0x00, 0x00, 0x00), Rgb::new(0xA4, 0xA4, 0xA4), Rgb::new(0xFF, 0xFF, 0xFF), Rgb::new(0x81, 0x00, 0x81)]);
                assert(0 < r.colors@.len() <= 255);
                r
            },
            Preset::Aromantic => {
                let r = plain_profile(vec![Rgb::new(0x3B, 0xA7, 0x40), Rgb::new(0xA8, 0xD4, 0x7A), Rgb::new(0xFF, 0xFF, 0xFF), Rgb::new(0xAB, 0xAB, 0xAB), Rgb::new(0x00, 0x00, 0x00)]);
                assert(0 < r.colors@.len() <= 255);
                r
            },
            Preset::Aroace1 => {
                let r = plain_profile(vec![Rgb::new(0xE2, 0x8C, 0x00), Rgb::new(0xEC, 0xCD, 0x00), Rgb::new(0xFF, 0xFF, 0xFF), Rgb::new(0x62, 0xAE, 0xDC), Rgb::new(0x20, 0x38, 0x56)]);
                assert(0 < r.colors@.len() <= 255);
                r
            },
            Preset::Aroace2 => {
                let r = plain_profile(vec![Rgb::new(0x00, 0x00, 0x00), Rgb::new(0x81, 0x00, 0x81), Rgb::new(0xA4, 0xA4, 0xA4), Rgb::new(0xFF, 0xFF, 0xFF), Rgb::new(0xA8, 0xD4, 0x7A), Rgb::new(0x3B, 0xA7, 0x40)]);
                assert(0 < r.colors@.len() <= 255);
                r
            },
            Preset::Aroace3 => {
                let r = plain_profile(vec![Rgb::new(0x3B, 0xA7, 0x40), Rgb::new(0xA8, 0xD4, 0x7A), Rgb::new(0xFF, 0xFF, 0xFF), Rgb::new(0xAB, 0xAB, 0xAB), Rgb::new(0x00, 0x00, 0x00), Rgb::new(0xA4, 0xA4, 0xA4), Rgb::new(0xFF, 0xFF, 0xFF), Rgb::new(0x81, 0x00, 0x81)]);
                assert(0 < r.colors@.len() <= 255);
                r
            },
            Preset::Greysexual => {
                let r = plain_profile(vec![Rgb::new(0x74, 0x01, 0x94), Rgb::new(0xAE, 0xB1, 0xAA), Rgb::new(0xFF, 0xFF, 0xFF), Rgb::new(0xAE, 0xB1, 0xAA), Rgb::new(0x74, 0x01, 0x94)]);
                assert(0 < r.colors@.len() <= 255);
                r
            },
            Preset::Autosexual => {
                let r = plain_profile(vec![Rgb::new(0x99, 0xD9, 0xEA), Rgb::new(0x7F, 0x7F, 0x7F)]);
                assert(0 < r.colors@.len() <= 255);
                r
            },
            Preset::Intergender => {
                let r = weighted_profile(vec![Rgb::new(0x90, 0x0D, 0xC2), Rgb::new(0xFF, 0xE5, 0x4F), Rgb::new(0x90, 0x0D, 0xC2)], vec![2, 1, 2]);
                assert(0 < r.colors@.len() <= 255);
                r
            },
            Preset::Greygender => {
                let r = weighted_profile(vec![Rgb::new(0xB3, 0xB3, 0xB3), Rgb::new(0xFF, 0xFF, 0xFF), Rgb::new(0x06, 0x23, 0x83), Rgb::new(0xFF, 0xFF, 0xFF), Rgb::new(0x53, 0x53, 0x53)], vec![2, 1, 2, 1, 2]);
                assert(0 < r.colors@.len() <= 255);
                r
            },
            Preset::Akiosexual => {
                let r = plain_profile(vec![Rgb::new(0xF9, 0x48, 0x5E), Rgb::new(0xFE, 0xA0, 0x6A), Rgb::new(0xFE, 0xF4, 0x4C), Rgb::new(0xFF, 0xFF, 0xFF), Rgb::new(0x00, 0x00, 0x00)]);
                assert(0 < r.colors@.len() <= 255);
                r
            },
            Preset::Bigender => {
                let r = plain_profile(vec![Rgb::new(0xC4, 0x79, 0xA2), Rgb::new(0xED, 0xA5, 0xCD), Rgb::new(0xD6, 0xC7, 0xE8), Rgb::new(0xFF, 0xFF, 0xFF), Rgb::new(0xD6, 0xC7, 0xE8), Rgb::new(0x9A, 0xC7, 0xE8), Rgb::new(0x6D, 0x82, 0xD1)]);
                assert(0 < r.colors@.len() <= 255);
                r
            },
            Preset::Demigender => {
                let r = plain_profile(vec![Rgb::new(0x7F, 0x7F, 0x7F), Rgb::new(0xC4, 0xC4, 0xC4), Rgb::new(0xFB, 0xFF, 0x75), Rgb::new(0xFF, 0xFF, 0xFF), Rgb::new(0xFB, 0xFF, 0x75), Rgb::new(0xC4, 0xC4, 0xC4), Rgb::new(0x7F, 0x7F, 0x7F)]);
                assert(0 < r.colors@.len() <= 255);
                r
            },
            Preset::Demiboy => {
                let r = plain_profile(vec![Rgb::new(0x7F, 0x7F, 0x7F), Rgb::new(0xC4, 0xC4, 0xC4), Rgb::new(0x9D, 0xD7, 0xEA), Rgb::new(0xFF, 0xFF, 0xFF), Rgb::new(0x9D, 0xD7, 0xEA), Rgb::new(0xC4, 0xC4, 0xC4), Rgb::new(0x7F, 0x7F, 0x7F)]);
                assert(0 < r.colors@.len() <= 255);
                r
            },
            Preset::Demigirl => {
                let r = plain_profile(vec![Rgb::new(0x7F, 0x7F, 0x7F), Rgb::new(0xC4, 0xC4, 0xC4), Rgb::new(0xFD, 0xAD, 0xC8), Rgb::new(0xFF, 0xFF, 0xFF), Rgb::new(0xFD, 0xAD, 0xC8), Rgb::new(0xC4, 0xC4, 0xC4), Rgb::new(0x7F, 0x7F, 0x7F)]);
                assert(0 < r.colors@.len() <= 255);
                r
            },
            Preset::Transmasculine => {
                let r = plain_profile(vec![Rgb::new(0xFF, 0x8A, 0xBD), Rgb::new(0xCD, 0xF5, 0xFE), Rgb::new(0x9A, 0xEB, 0xFF), Rgb::new(0x74, 0xDF, 0xFF), Rgb::new(0x9A, 0xEB, 0xFF), Rgb::new(0xCD, 0xF5, 0xFE), Rgb::new(0xFF, 0x8A, 0xBD)]);
                assert(0 < r.colors@.len() <= 255);
                r
            },
            Preset::Transfeminine => {
                let r = plain_profile(vec![Rgb::new(0x73, 0xDE, 0xFF), Rgb::new(0xFF, 0xE2, 0xEE), Rgb::new(0xFF, 0xB5, 0xD6), Rgb::new(0xFF, 0x8D, 0xC0), Rgb::new(0xFF, 0xB5, 0xD6), Rgb::new(0xFF, 0xE2, 0xEE), Rgb::new(0x73, 0xDE, 0xFF)]);
                assert(0 < r.colors@.len() <= 255);
                r
            },
            Preset::Genderfaun => {
                let r = plain_profile(vec![Rgb::new(0xFC, 0xD6, 0x89), Rgb::new(0xFF, 0xF0, 0x9B), Rgb::new(0xFA, 0xF9, 0xCD), Rgb::new(0xFF, 0xFF, 0xFF), Rgb::new(0x8E, 0xDE, 0xD9), Rgb::new(0x8C, 0xAC, 0xDE), Rgb::new(0x97, 0x82, 0xEC)]);
                assert(0 < r.colors@.len() <= 255);
                r
            },
            Preset::Demifaun => {
                let r = weighted_profile(vec![Rgb::new(0x7F, 0x7F, 0x7F), Rgb::new(0xC6, 0xC6, 0xC6), Rgb::new(0xFC, 0xC6, 0x88), Rgb::new(0xFF, 0xF1, 0x9C), Rgb::new(0xFF, 0xFF, 0xFF), Rgb::new(0x8D, 0xE0, 0xD5), Rgb::new(0x96, 0x82, 0xEC), Rgb::new(0xC6, 0xC6, 0xC6), Rgb::new(0x7F, 0x7F, 0x7F)], vec![2, 2, 1, 1, 1, 1, 1, 2, 2]);
                assert(0 < r.colors@.len() <= 255);
                r
            },
            Preset::Genderfae => {
                let r = plain_profile(vec![Rgb::new(0x97, 0xC3, 0xA5), Rgb::new(0xC3, 0xDE, 0xAE), Rgb::new(0xF9, 0xFA, 0xCD), Rgb::new(0xFF, 0xFF, 0xFF), Rgb::new(0xFC, 0xA2, 0xC4), Rgb::new(0xDB, 0x8A, 0xE4), Rgb::new(0xA9, 0x7E, 0xDD)]);
                assert(0 < r.colors@.len() <= 255);
                r
            },
            Preset::Demifae => {
                let r = weighted_profile(vec![Rgb::new(0x7F, 0x7F, 0x7F), Rgb::new(0xC5, 0xC5, 0xC5), Rgb::new(0x97, 0xC3, 0xA4), Rgb::new(0xC4, 0xDE, 0xAE), Rgb::new(0xFF, 0xFF, 0xFF), Rgb::new(0xFC, 0xA2, 0xC5), Rgb::new(0xAB, 0x7E, 0xDF), Rgb::new(0xC5, 0xC5, 0xC5), Rgb::new(0x7F, 0x7F, 0x7F)], vec![2, 2, 1, 1, 1, 1, 1, 2, 2]);
                assert(0 < r.colors@.len() <= 255);
                r
            },
            Preset::Neutrois => {
                let r = plain_profile(vec![Rgb::new(0xFF, 0xFF, 0xFF), Rgb::new(0x1F, 0x9F, 0x00), Rgb::new(0x00, 0x00, 0x00)]);
                assert(0 < r.colors@.len() <= 255);
                r
            },
            Preset::Biromantic1 => {
                let r = plain_profile(vec![Rgb::new(0x88, 0x69, 0xA5), Rgb::new(0xD8, 0xA7, 0xD8), Rgb::new(0xFF, 0xFF, 0xFF), Rgb::new(0xFD, 0xB1, 0x8D), Rgb::new(0x15, 0x16, 0x38)]);
                assert(0 < r.colors@.len() <= 255);
                r
            },
            Preset::Autoromantic => {
                let r = weighted_profile(vec![Rgb::new(0x99, 0xD9, 0xEA), Rgb::new(0x3D, 0xA5, 0x42), Rgb::new(0x7F, 0x7F, 0x7F)], vec![2, 1, 2]);
                assert(0 < r.colors@.len() <= 255);
                r
            },
            Preset::Boyflux2 => {
                let r = weighted_profile(vec![Rgb::new(0xE4, 0x8A, 0xE4), Rgb::new(0x9A, 0x81, 0xB4), Rgb::new(0x55, 0xBF, 0xAB), Rgb::new(0xFF, 0xFF, 0xFF), Rgb::new(0xA8, 0xA8, 0xA8), Rgb::new(0x81, 0xD5, 0xEF), Rgb::new(0x69, 0xAB, 0xE5), Rgb::new(0x52, 0x76, 0xD4)], vec![1, 1, 1, 1, 1, 5, 5, 5]);
                assert(0 < r.colors@.len() <= 255);
                r
            },
            Preset::Girlflux => {
                let r = plain_profile(vec![Rgb::new(0xF9, 0xE6, 0xD7), Rgb::new(0xF2, 0x52, 0x6C), Rgb::new(0xBF, 0x03, 0x11), Rgb::new(0xE9, 0xC5, 0x87), Rgb::new(0xBF, 0x03, 0x11), Rgb::new(0xF2, 0x52, 0x6C), Rgb::new(0xF9, 0xE6, 0xD7)]);
                assert(0 < r.colors@.len() <= 255);
                r
            },
            Preset::Genderflux => {
                let r = plain_profile(vec![Rgb::new(0xF4, 0x76, 0x94), Rgb::new(0xF2, 0xA2, 0xB9), Rgb::new(0xCE, 0xCE, 0xCE), Rgb::new(0x7C, 0xE0, 0xF7), Rgb::new(0x3E, 0xCD, 0xF9), Rgb::new(0xFF, 0xF4, 0x8D)]);
                assert(0 < r.colors@.len() <= 255);
                r
            },
            Preset::Finsexual => {
                let r = plain_profile(vec![Rgb::new(0xB1, 0x8E, 0xDF), Rgb::new(0xD7, 0xB1, 0xE2), Rgb::new(0xF7, 0xCD, 0xE9), Rgb::new(0xF3, 0x9F, 0xCE), Rgb::new(0xEA, 0x7B, 0xB3)]);
                assert(0 < r.colors@.len() <= 255);
                r
            },
            Preset::Unlabeled1 => {
                let r = plain_profile(vec![Rgb::new(0xEA, 0xF8, 0xE4), Rgb::new(0xFD, 0xFD, 0xFB), Rgb::new(0xE1, 0xEF, 0xF7), Rgb::new(0xF4, 0xE2, 0xC4)]);
                assert(0 < r.colors@.len() <= 255);
                r
            },
            Preset::Unlabeled2 => {
                let r = plain_profile(vec![Rgb::new(0x25, 0x05, 0x48), Rgb::new(0xFF, 0xFF, 0xFF), Rgb::new(0xF7, 0xDC, 0xDA), Rgb::new(0xEC, 0x9B, 0xEE), Rgb::new(0x95, 0x41, 0xFA), Rgb::new(0x7D, 0x25, 0x57)]);
                assert(0 < r.colors@.len() <= 255);
                r
            },
            Preset::Pangender => {
                let r = plain_profile(vec![Rgb::new(0xFF, 0xF7, 0x98), Rgb::new(0xFE, 0xDD, 0xCD), Rgb::new(0xFF, 0xEB, 0xFB), Rgb::new(0xFF, 0xFF, 0xFF), Rgb::new(0xFF, 0xEB, 0xFB), Rgb::new(0xFE, 0xDD, 0xCD), Rgb::new(0xFF, 0xF7, 0x98)]);
                assert(0 < r.colors@.len() <= 255);
                r
            },
            Preset::GenderNonconforming1 => {
                let r = weighted_profile(vec![Rgb::new(0x50, 0x28, 0x4D), Rgb::new(0x96, 0x46, 0x7B), Rgb::new(0x5C, 0x96, 0xF7), Rgb::new(0xFF, 0xE6, 0xF7), Rgb::new(0x5C, 0x96, 0xF7), Rgb::new(0x96, 0x46, 0x7B), Rgb::new(0x50, 0x28, 0x4D)], vec![4, 1, 1, 1, 1, 1, 4]);
                assert(0 < r.colors@.len() <= 255);
                r
            },
            Preset::GenderNonconforming2 => {
                let r = plain_profile(vec![Rgb::new(0x50, 0x28, 0x4D), Rgb::new(0x96, 0x46, 0x7B), Rgb::new(0x5C, 0x96, 0xF7), Rgb::new(0xFF, 0xE6, 0xF7), Rgb::new(0x5C, 0x96, 0xF7), Rgb::new(0x96, 0x46, 0x7B), Rgb::new(0x50, 0x28, 0x4D)]);
                assert(0 < r.colors@.len() <= 255);
                r
            },
            Preset::Femboy => {
                let r = plain_profile(vec![Rgb::new(0xD2, 0x60, 0xA5), Rgb::new(0xE4, 0xAF, 0xCD), Rgb::new(0xFE, 0xFE, 0xFE), Rgb::new(0x57, 0xCE, 0xF8), Rgb::new(0xFE, 0xFE, 0xFE), Rgb::new(0xE4, 0xAF, 0xCD), Rgb::new(0xD2, 0x60, 0xA5)]);
                assert(0 < r.colors@.len() <= 255);
                r
            },
            Preset::Tomboy => {
                let r = plain_profile(vec![Rgb::new(0x2F, 0x3F, 0xB9), Rgb::new(0x61, 0x3A, 0x03), Rgb::new(0xFE, 0xFE, 0xFE), Rgb::new(0xF1, 0xA9, 0xB7), Rgb::new(0xFE, 0xFE, 0xFE), Rgb::new(0x61, 0x3A, 0x03), Rgb::new(0x2F, 0x3F, 0xB9)]);
                assert(0 < r.colors@.len() <= 255);
                r
            },
            Preset::Gynesexual => {
                let r = plain_profile(vec![Rgb::new(0xF4, 0xA9, 0xB7), Rgb::new(0x90, 0x3F, 0x2B), Rgb::new(0x5B, 0x95, 0x3B)]);
                assert(0 < r.colors@.len() <= 255);
                r
            },
            Preset::Androsexual => {
                let r = plain_profile(vec![Rgb::new(0x01, 0xCC, 0xFF), Rgb::new(0x60, 0x35, 0x24), Rgb::new(0xB7, 0x99, 0xDE)]);
                assert(0 < r.colors@.len() <= 255);
                r
            },
            Preset::Gendervoid => {
                let r = plain_profile(vec![Rgb::new(0x08, 0x11, 0x49), Rgb::new(0x4B, 0x48, 0x4B), Rgb::new(0x00, 0x00, 0x00), Rgb::new(0x4B, 0x48, 0x4B), Rgb::new(0x08, 0x11, 0x49)]);
                assert(0 < r.colors@.len() <= 255);
                r
            },
            Preset::Voidgirl => {
                let r = plain_profile(vec![Rgb::new(0x18, 0x08, 0x27), Rgb::new(0x7A, 0x5A, 0x8B), Rgb::new(0xE0, 0x9B, 0xED), Rgb::new(0x7A, 0x5A, 0x8B), Rgb::new(0x18, 0x08, 0x27)]);
                assert(0 < r.colors@.len() <= 255);
                r
            },
            Preset::Voidboy => {
                let r = plain_profile(vec![Rgb::new(0x0B, 0x13, 0x0C), Rgb::new(0x54, 0x76, 0x55), Rgb::new(0x66, 0xB9, 0x69), Rgb::new(0x54, 0x76, 0x55), Rgb::new(0x0B, 0x13, 0x0C)]);
                assert(0 < r.colors@.len() <= 255);
                r
            },
            Preset::NonhumanUnity => {
                let r = plain_profile(vec![Rgb::new(0x17, 0x7B, 0x49), Rgb::new(0xFF, 0xFF, 0xFF), Rgb::new(0x59, 0x3C, 0x90)]);
                assert(0 < r.colors@.len() <= 255);
                r
            },
            Preset::Plural => {
                let r = plain_profile(vec![Rgb::new(0x2D, 0x06, 0x25), Rgb::new(0x54, 0x34, 0x75), Rgb::new(0x76, 0x75, 0xC3), Rgb::new(0x89, 0xC7, 0xB0), Rgb::new(0xF3, 0xED, 0xBD)]);
                assert(0 < r.colors@.len() <= 255);
                r
            },
            Preset::Fraysexual => {
                let r = plain_profile(vec![Rgb::new(0x22, 0x6C, 0xB5), Rgb::new(0x94, 0xE7, 0xDD), Rgb::new(0xFF, 0xFF, 0xFF), Rgb::new(0x63, 0x63, 0x63)]);
                assert(0 < r.colors@.len() <= 255);
                r
            },
            Preset::Beiyang => {
                let r = plain_profile(vec![Rgb::new(0xDF, 0x1B, 0x12), Rgb::new(0xFF, 0xC6, 0x00), Rgb::new(0x01, 0x63, 0x9D), Rgb::new(0xFF, 0xFF, 0xFF), Rgb::new(0x00, 0x00, 0x00)]);
                assert(0 < r.colors@.len() <= 255);
                r
            },
            Preset::Burger => {
                let r = plain_profile(vec![Rgb::new(0xF3, 0xA2, 0x6A), Rgb::new(0x49, 0x87, 0x01), Rgb::new(0xFD, 0x1C, 0x13), Rgb::new(0x7D, 0x38, 0x29), Rgb::new(0xF3, 0xA2, 0x6A)]);
                assert(0 < r.colors@.len() <= 255);
                r
            },
            Preset::Baker => {
                let r = plain_profile(vec![Rgb::new(0xF2, 0x3D, 0x9E), Rgb::new(0xF8, 0x0A, 0x24), Rgb::new(0xF7, 0x80, 0x22), Rgb::new(0xF9, 0xE8, 0x1F), Rgb::new(0x1E, 0x97, 0x2E), Rgb::new(0x1B, 0x86, 0xBC), Rgb::new(0x24, 0x38, 0x97), Rgb::new(0x6F, 0x0A, 0x82)]);
                assert(0 < r.colors@.len() <= 255);
                r
            },
        }
    }
}

/// A profile of the given colours.
fn plain_profile(colors: Vec<Rgb>) -> (r: ColorProfile)
    ensures
        r.colors@ == colors@,
{
    ColorProfile::new(colors)
}

/// A profile whose colours are repeated by positive weights, one per colour.
fn weighted_profile(colors: Vec<Rgb>, weights: Vec<u8>) -> (r: ColorProfile)
    requires
        0 < colors@.len() <= 16,
        weights@.len() == colors@.len(),
        forall|i: int| 0 <= i < weights@.len() ==> 0 < #[trigger] weights@[i] <= 15,
    ensures
        r.colors@ == crate::profile::weighted(colors@, weights@),
        0 < r.colors@.len() <= 255,
{
    let base = ColorProfile::new(colors);
    proof {
        crate::profile::lemma_weighted_len(base.colors@, weights@);
        lemma_weight_sum_bounds(weights@);
    }
    base.with_weights(weights).unwrap()
}

proof fn lemma_weight_sum_bounds(ws: Seq<u8>)
    requires
        forall|i: int| 0 <= i < ws.len() ==> 0 < #[trigger] ws[i] <= 15,
    ensures
        crate::profile::weight_sum(ws) <= 15 * ws.len(),
        ws.len() > 0 ==> crate::profile::weight_sum(ws) > 0,
    decreases ws.len(),
{
    if ws.len() > 0 {
        lemma_weight_sum_bounds(ws.drop_last());
        assert(ws.last() > 0);
    }
}

} // verus!
