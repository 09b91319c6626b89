//! Unicode `Script` values and their OpenType script tags.

use vstd::prelude::*;

pub mod resolve;

pub use resolve::{resolve_scripts, script_runs, script_runs_str, ScriptRun};

verus! {

/// The Unicode `Script` property (UAX #24), in the declaration order of
/// `intl`'s compiled tables.
#[derive(Debug, Clone, Copy, PartialEq, Eq, Hash, Structural)]
pub enum Script {
    Adlam,
    Ahom,
    AnatolianHieroglyphs,
    Arabic,
    Armenian,
    Avestan,
    Balinese,
    Bamum,
    BassaVah,
    Batak,
    Bengali,
    BeriaErfe,
    Bhaiksuki,
    Bopomofo,
    Brahmi,
    Braille,
    Buginese,
    Buhid,
    CanadianAboriginal,
    Carian,
    CaucasianAlbanian,
    Chakma,
    Cham,
    Cherokee,
    Chorasmian,
    Common,
    Coptic,
    Cuneiform,
    Cypriot,
    CyproMinoan,
    Cyrillic,
    Deseret,
    Devanagari,
    DivesAkuru,
    Dogra,
    Duployan,
    EgyptianHieroglyphs,
    Elbasan,
    Elymaic,
    Ethiopic,
    Garay,
    Georgian,
    Glagolitic,
    Gothic,
    Grantha,
    Greek,
    Gujarati,
    GunjalaGondi,
    Gurmukhi,
    GurungKhema,
    Han,
    Hangul,
    HanifiRohingya,
    Hanunoo,
    Hatran,
    Hebrew,
    Hiragana,
    ImperialAramaic,
    Inherited,
    InscriptionalPahlavi,
    InscriptionalParthian,
    Javanese,
    Kaithi,
    Kannada,
    Katakana,
    Kawi,
    KayahLi,
    Kharoshthi,
    KhitanSmallScript,
    Khmer,
    Khojki,
    Khudawadi,
    KiratRai,
    Lao,
    Latin,
    Lepcha,
    Limbu,
    LinearA,
    LinearB,
    Lisu,
    Lycian,
    Lydian,
    Mahajani,
    Makasar,
    Malayalam,
    Mandaic,
    Manichaean,
    Marchen,
    MasaramGondi,
    Medefaidrin,
    MeeteiMayek,
    MendeKikakui,
    MeroiticCursive,
    MeroiticHieroglyphs,
    Miao,
    Modi,
    Mongolian,
    Mro,
    Multani,
    Myanmar,
    Nabataean,
    NagMundari,
    Nandinagari,
    NewTaiLue,
    Newa,
    Nko,
    Nushu,
    NyiakengPuachueHmong,
    Ogham,
    OlChiki,
    OlOnal,
    OldHungarian,
    OldItalic,
    OldNorthArabian,
    OldPermic,
    OldPersian,
    OldSogdian,
    OldSouthArabian,
    OldTurkic,
    OldUyghur,
    Oriya,
    Osage,
    Osmanya,
    PahawhHmong,
    Palmyrene,
    PauCinHau,
    PhagsPa,
    Phoenician,
    PsalterPahlavi,
    Rejang,
    Runic,
    Samaritan,
    Saurashtra,
    Sharada,
    Shavian,
    Siddham,
    Sidetic,
    SignWriting,
    Sinhala,
    Sogdian,
    SoraSompeng,
    Soyombo,
    Sundanese,
    Sunuwar,
    SylotiNagri,
    Syriac,
    Tagalog,
    Tagbanwa,
    TaiLe,
    TaiTham,
    TaiViet,
    TaiYo,
    Takri,
    Tamil,
    Tangsa,
    Tangut,
    Telugu,
    Thaana,
    Thai,
    Tibetan,
    Tifinagh,
    Tirhuta,
    Todhri,
    TolongSiki,
    Toto,
    TuluTigalari,
    Ugaritic,
    Vai,
    Vithkuqi,
    Wancho,
    WarangCiti,
    Yezidi,
    Yi,
    ZanabazarSquare,
    Unknown,
}

/// The script at position `i` of the declaration order, if any.
pub open spec fn script_at_index(i: u8) -> Option<Script> {
    match i {
        0 => Some(Script::Adlam),
        1 => Some(Script::Ahom),
        2 => Some(Script::AnatolianHieroglyphs),
        3 => Some(Script::Arabic),
        4 => Some(Script::Armenian),
        5 => Some(Script::Avestan),
        6 => Some(Script::Balinese),
        7 => Some(Script::Bamum),
        8 => Some(Script::BassaVah),
        9 => Some(Script::Batak),
        10 => Some(Script::Bengali),
        11 => Some(Script::BeriaErfe),
        12 => Some(Script::Bhaiksuki),
        13 => Some(Script::Bopomofo),
        14 => Some(Script::Brahmi),
        15 => Some(Script::Braille),
        16 => Some(Script::Buginese),
        17 => Some(Script::Buhid),
        18 => Some(Script::CanadianAboriginal),
        19 => Some(Script::Carian),
        20 => Some(Script::CaucasianAlbanian),
        21 => Some(Script::Chakma),
        22 => Some(Script::Cham),
        23 => Some(Script::Cherokee),
        24 => Some(Script::Chorasmian),
        25 => Some(Script::Common),
        26 => Some(Script::Coptic),
        27 => Some(Script::Cuneiform),
        28 => Some(Script::Cypriot),
        29 => Some(Script::CyproMinoan),
        30 => Some(Script::Cyrillic),
        31 => Some(Script::Deseret),
        32 => Some(Script::Devanagari),
        33 => Some(Script::DivesAkuru),
        34 => Some(Script::Dogra),
        35 => Some(Script::Duployan),
        36 => Some(Script::EgyptianHieroglyphs),
        37 => Some(Script::Elbasan),
        38 => Some(Script::Elymaic),
        39 => Some(Script::Ethiopic),
        40 => Some(Script::Garay),
        41 => Some(Script::Georgian),
        42 => Some(Script::Glagolitic),
        43 => Some(Script::Gothic),
        44 => Some(Script::Grantha),
        45 => Some(Script::Greek),
        46 => Some(Script::Gujarati),
        47 => Some(Script::GunjalaGondi),
        48 => Some(Script::Gurmukhi),
        49 => Some(Script::GurungKhema),
        50 => Some(Script::Han),
        51 => Some(Script::Hangul),
        52 => Some(Script::HanifiRohingya),
        53 => Some(Script::Hanunoo),
        54 => Some(Script::Hatran),
        55 => Some(Script::Hebrew),
        56 => Some(Script::Hiragana),
        57 => Some(Script::ImperialAramaic),
        58 => Some(Script::Inherited),
        59 => Some(Script::InscriptionalPahlavi),
        60 => Some(Script::InscriptionalParthian),
        61 => Some(Script::Javanese),
        62 => Some(Script::Kaithi),
        63 => Some(Script::Kannada),
        64 => Some(Script::Katakana),
        65 => Some(Script::Kawi),
        66 => Some(Script::KayahLi),
        67 => Some(Script::Kharoshthi),
        68 => Some(Script::KhitanSmallScript),
        69 => Some(Script::Khmer),
        70 => Some(Script::Khojki),
        71 => Some(Script::Khudawadi),
        72 => Some(Script::KiratRai),
        73 => Some(Script::Lao),
        74 => Some(Script::Latin),
        75 => Some(Script::Lepcha),
        76 => Some(Script::Limbu),
        77 => Some(Script::LinearA),
        78 => Some(Script::LinearB),
        79 => Some(Script::Lisu),
        80 => Some(Script::Lycian),
        81 => Some(Script::Lydian),
        82 => Some(Script::Mahajani),
        83 => Some(Script::Makasar),
        84 => Some(Script::Malayalam),
        85 => Some(Script::Mandaic),
        86 => Some(Script::Manichaean),
        87 => Some(Script::Marchen),
        88 => Some(Script::MasaramGondi),
        89 => Some(Script::Medefaidrin),
        90 => Some(Script::MeeteiMayek),
        91 => Some(Script::MendeKikakui),
        92 => Some(Script::MeroiticCursive),
        93 => Some(Script::MeroiticHieroglyphs),
        94 => Some(Script::Miao),
        95 => Some(Script::Modi),
        96 => Some(Script::Mongolian),
        97 => Some(Script::Mro),
        98 => Some(Script::Multani),
        99 => Some(Script::Myanmar),
        100 => Some(Script::Nabataean),
        101 => Some(Script::NagMundari),
        102 => Some(Script::Nandinagari),
        103 => Some(Script::NewTaiLue),
        104 => Some(Script::Newa),
        105 => Some(Script::Nko),
        106 => Some(Script::Nushu),
        107 => Some(Script::NyiakengPuachueHmong),
        108 => Some(Script::Ogham),
        109 => Some(Script::OlChiki),
        110 => Some(Script::OlOnal),
        111 => Some(Script::OldHungarian),
        112 => Some(Script::OldItalic),
        113 => Some(Script::OldNorthArabian),
        114 => Some(Script::OldPermic),
        115 => Some(Script::OldPersian),
        116 => Some(Script::OldSogdian),
        117 => Some(Script::OldSouthArabian),
        118 => Some(Script::OldTurkic),
        119 => Some(Script::OldUyghur),
        120 => Some(Script::Oriya),
        121 => Some(Script::Osage),
        122 => Some(Script::Osmanya),
        123 => Some(Script::PahawhHmong),
        124 => Some(Script::Palmyrene),
        125 => Some(Script::PauCinHau),
        126 => Some(Script::PhagsPa),
        127 => Some(Script::Phoenician),
        128 => Some(Script::PsalterPahlavi),
        129 => Some(Script::Rejang),
        130 => Some(Script::Runic),
        131 => Some(Script::Samaritan),
        132 => Some(Script::Saurashtra),
        133 => Some(Script::Sharada),
        134 => Some(Script::Shavian),
        135 => Some(Script::Siddham),
        136 => Some(Script::Sidetic),
        137 => Some(Script::SignWriting),
        138 => Some(Script::Sinhala),
        139 => Some(Script::Sogdian),
        140 => Some(Script::SoraSompeng),
        141 => Some(Script::Soyombo),
        142 => Some(Script::Sundanese),
        143 => Some(Script::Sunuwar),
        144 => Some(Script::SylotiNagri),
        145 => Some(Script::Syriac),
        146 => Some(Script::Tagalog),
        147 => Some(Script::Tagbanwa),
        148 => Some(Script::TaiLe),
        149 => Some(Script::TaiTham),
        150 => Some(Script::TaiViet),
        151 => Some(Script::TaiYo),
        152 => Some(Script::Takri),
        153 => Some(Script::Tamil),
        154 => Some(Script::Tangsa),
        155 => Some(Script::Tangut),
        156 => Some(Script::Telugu),
        157 => Some(Script::Thaana),
        158 => Some(Script::Thai),
        159 => Some(Script::Tibetan),
        160 => Some(Script::Tifinagh),
        161 => Some(Script::Tirhuta),
        162 => Some(Script::Todhri),
        163 => Some(Script::TolongSiki),
        164 => Some(Script::Toto),
        165 => Some(Script::TuluTigalari),
        166 => Some(Script::Ugaritic),
        167 => Some(Script::Vai),
        168 => Some(Script::Vithkuqi),
        169 => Some(Script::Wancho),
        170 => Some(Script::WarangCiti),
        171 => Some(Script::Yezidi),
        172 => Some(Script::Yi),
        173 => Some(Script::ZanabazarSquare),
        174 => Some(Script::Unknown),
        _ => None,
    }
}

impl Script {
    /// The script at position `index` of the declaration order (the
    /// discriminant of `intl`'s `Script`), or `None` past the last.
    pub fn from_index(index: u8) -> (r: Option<Script>)
        ensures
            r == script_at_index(index),
    {
        match index {
        0 => Some(Script::Adlam),
        1 => Some(Script::Ahom),
        2 => Some(Script::AnatolianHieroglyphs),
        3 => Some(Script::Arabic),
        4 => Some(Script::Armenian),
        5 => Some(Script::Avestan),
        6 => Some(Script::Balinese),
        7 => Some(Script::Bamum),
        8 => Some(Script::BassaVah),
        9 => Some(Script::Batak),
        10 => Some(Script::Bengali),
        11 => Some(Script::BeriaErfe),
        12 => Some(Script::Bhaiksuki),
        13 => Some(Script::Bopomofo),
        14 => Some(Script::Brahmi),
        15 => Some(Script::Braille),
        16 => Some(Script::Buginese),
        17 => Some(Script::Buhid),
        18 => Some(Script::CanadianAboriginal),
        19 => Some(Script::Carian),
        20 => Some(Script::CaucasianAlbanian),
        21 => Some(Script::Chakma),
        22 => Some(Script::Cham),
        23 => Some(Script::Cherokee),
        24 => Some(Script::Chorasmian),
        25 => Some(Script::Common),
        26 => Some(Script::Coptic),
        27 => Some(Script::Cuneiform),
        28 => Some(Script::Cypriot),
        29 => Some(Script::CyproMinoan),
        30 => Some(Script::Cyrillic),
        31 => Some(Script::Deseret),
        32 => Some(Script::Devanagari),
        33 => Some(Script::DivesAkuru),
        34 => Some(Script::Dogra),
        35 => Some(Script::Duployan),
        36 => Some(Script::EgyptianHieroglyphs),
        37 => Some(Script::Elbasan),
        38 => Some(Script::Elymaic),
        39 => Some(Script::Ethiopic),
        40 => Some(Script::Garay),
        41 => Some(Script::Georgian),
        42 => Some(Script::Glagolitic),
        43 => Some(Script::Gothic),
        44 => Some(Script::Grantha),
        45 => Some(Script::Greek),
        46 => Some(Script::Gujarati),
        47 => Some(Script::GunjalaGondi),
        48 => Some(Script::Gurmukhi),
        49 => Some(Script::GurungKhema),
        50 => Some(Script::Han),
        51 => Some(Script::Hangul),
        52 => Some(Script::HanifiRohingya),
        53 => Some(Script::Hanunoo),
        54 => Some(Script::Hatran),
        55 => Some(Script::Hebrew),
        56 => Some(Script::Hiragana),
        57 => Some(Script::ImperialAramaic),
        58 => Some(Script::Inherited),
        59 => Some(Script::InscriptionalPahlavi),
        60 => Some(Script::InscriptionalParthian),
        61 => Some(Script::Javanese),
        62 => Some(Script::Kaithi),
        63 => Some(Script::Kannada),
        64 => Some(Script::Katakana),
        65 => Some(Script::Kawi),
        66 => Some(Script::KayahLi),
        67 => Some(Script::Kharoshthi),
        68 => Some(Script::KhitanSmallScript),
        69 => Some(Script::Khmer),
        70 => Some(Script::Khojki),
        71 => Some(Script::Khudawadi),
        72 => Some(Script::KiratRai),
        73 => Some(Script::Lao),
        74 => Some(Script::Latin),
        75 => Some(Script::Lepcha),
        76 => Some(Script::Limbu),
        77 => Some(Script::LinearA),
        78 => Some(Script::LinearB),
        79 => Some(Script::Lisu),
        80 => Some(Script::Lycian),
        81 => Some(Script::Lydian),
        82 => Some(Script::Mahajani),
        83 => Some(Script::Makasar),
        84 => Some(Script::Malayalam),
        85 => Some(Script::Mandaic),
        86 => Some(Script::Manichaean),
        87 => Some(Script::Marchen),
        88 => Some(Script::MasaramGondi),
        89 => Some(Script::Medefaidrin),
        90 => Some(Script::MeeteiMayek),
        91 => Some(Script::MendeKikakui),
        92 => Some(Script::MeroiticCursive),
        93 => Some(Script::MeroiticHieroglyphs),
        94 => Some(Script::Miao),
        95 => Some(Script::Modi),
        96 => Some(Script::Mongolian),
        97 => Some(Script::Mro),
        98 => Some(Script::Multani),
        99 => Some(Script::Myanmar),
        100 => Some(Script::Nabataean),
        101 => Some(Script::NagMundari),
        102 => Some(Script::Nandinagari),
        103 => Some(Script::NewTaiLue),
        104 => Some(Script::Newa),
        105 => Some(Script::Nko),
        106 => Some(Script::Nushu),
        107 => Some(Script::NyiakengPuachueHmong),
        108 => Some(Script::Ogham),
        109 => Some(Script::OlChiki),
        110 => Some(Script::OlOnal),
        111 => Some(Script::OldHungarian),
        112 => Some(Script::OldItalic),
        113 => Some(Script::OldNorthArabian),
        114 => Some(Script::OldPermic),
        115 => Some(Script::OldPersian),
        116 => Some(Script::OldSogdian),
        117 => Some(Script::OldSouthArabian),
        118 => Some(Script::OldTurkic),
        119 => Some(Script::OldUyghur),
        120 => Some(Script::Oriya),
        121 => Some(Script::Osage),
        122 => Some(Script::Osmanya),
        123 => Some(Script::PahawhHmong),
        124 => Some(Script::Palmyrene),
        125 => Some(Script::PauCinHau),
        126 => Some(Script::PhagsPa),
        127 => Some(Script::Phoenician),
        128 => Some(Script::PsalterPahlavi),
        129 => Some(Script::Rejang),
        130 => Some(Script::Runic),
        131 => Some(Script::Samaritan),
        132 => Some(Script::Saurashtra),
        133 => Some(Script::Sharada),
        134 => Some(Script::Shavian),
        135 => Some(Script::Siddham),
        136 => Some(Script::Sidetic),
        137 => Some(Script::SignWriting),
        138 => Some(Script::Sinhala),
        139 => Some(Script::Sogdian),
        140 => Some(Script::SoraSompeng),
        141 => Some(Script::Soyombo),
        142 => Some(Script::Sundanese),
        143 => Some(Script::Sunuwar),
        144 => Some(Script::SylotiNagri),
        145 => Some(Script::Syriac),
        146 => Some(Script::Tagalog),
        147 => Some(Script::Tagbanwa),
        148 => Some(Script::TaiLe),
        149 => Some(Script::TaiTham),
        150 => Some(Script::TaiViet),
        151 => Some(Script::TaiYo),
        152 => Some(Script::Takri),
        153 => Some(Script::Tamil),
        154 => Some(Script::Tangsa),
        155 => Some(Script::Tangut),
        156 => Some(Script::Telugu),
        157 => Some(Script::Thaana),
        158 => Some(Script::Thai),
        159 => Some(Script::Tibetan),
        160 => Some(Script::Tifinagh),
        161 => Some(Script::Tirhuta),
        162 => Some(Script::Todhri),
        163 => Some(Script::TolongSiki),
        164 => Some(Script::Toto),
        165 => Some(Script::TuluTigalari),
        166 => Some(Script::Ugaritic),
        167 => Some(Script::Vai),
        168 => Some(Script::Vithkuqi),
        169 => Some(Script::Wancho),
        170 => Some(Script::WarangCiti),
        171 => Some(Script::Yezidi),
        172 => Some(Script::Yi),
        173 => Some(Script::ZanabazarSquare),
        174 => Some(Script::Unknown),
            _ => None,
        }
    }
}

/// The OpenType script tags of a script, modern tag first: the Indic
/// scripts with a "v.2" shaping tag list it before their legacy tag;
/// every other script has one tag; `Common`, `Inherited` and `Unknown`
/// map to `DFLT`.
pub open spec fn script_tags_spec(s: Script) -> Seq<[u8; 4]> {
    match s {
        Script::Bengali => seq![[0x62u8, 0x6E, 0x67, 0x32], [0x62u8, 0x65, 0x6E, 0x67]],  // "bng2", "beng"
        Script::Devanagari => seq![[0x64u8, 0x65, 0x76, 0x32], [0x64u8, 0x65, 0x76, 0x61]],  // "dev2", "deva"
        Script::Gujarati => seq![[0x67u8, 0x6A, 0x72, 0x32], [0x67u8, 0x75, 0x6A, 0x72]],  // "gjr2", "gujr"
        Script::Gurmukhi => seq![[0x67u8, 0x75, 0x72, 0x32], [0x67u8, 0x75, 0x72, 0x75]],  // "gur2", "guru"
        Script::Kannada => seq![[0x6Bu8, 0x6E, 0x64, 0x32], [0x6Bu8, 0x6E, 0x64, 0x61]],  // "knd2", "knda"
        Script::Malayalam => seq![[0x6Du8, 0x6C, 0x6D, 0x32], [0x6Du8, 0x6C, 0x79, 0x6D]],  // "mlm2", "mlym"
        Script::Oriya => seq![[0x6Fu8, 0x72, 0x79, 0x32], [0x6Fu8, 0x72, 0x79, 0x61]],  // "ory2", "orya"
        Script::Tamil => seq![[0x74u8, 0x6D, 0x6C, 0x32], [0x74u8, 0x61, 0x6D, 0x6C]],  // "tml2", "taml"
        Script::Telugu => seq![[0x74u8, 0x65, 0x6C, 0x32], [0x74u8, 0x65, 0x6C, 0x75]],  // "tel2", "telu"
        Script::Myanmar => seq![[0x6Du8, 0x79, 0x6D, 0x32], [0x6Du8, 0x79, 0x6D, 0x72]],  // "mym2", "mymr"
        Script::Latin => seq![[0x6Cu8, 0x61, 0x74, 0x6E]],  // "latn"
        Script::Cyrillic => seq![[0x63u8, 0x79, 0x72, 0x6C]],  // "cyrl"
        Script::Greek => seq![[0x67u8, 0x72, 0x65, 0x6B]],  // "grek"
        Script::Arabic => seq![[0x61u8, 0x72, 0x61, 0x62]],  // "arab"
        Script::Hebrew => seq![[0x68u8, 0x65, 0x62, 0x72]],  // "hebr"
        Script::Han => seq![[0x68u8, 0x61, 0x6E, 0x69]],  // "hani"
        Script::Hiragana | Script::Katakana => seq![[0x6Bu8, 0x61, 0x6E, 0x61]],  // "kana"
        Script::Hangul => seq![[0x68u8, 0x61, 0x6E, 0x67]],  // "hang"
        Script::Bopomofo => seq![[0x62u8, 0x6F, 0x70, 0x6F]],  // "bopo"
        Script::Thai => seq![[0x74u8, 0x68, 0x61, 0x69]],  // "thai"
        Script::Lao => seq![[0x6Cu8, 0x61, 0x6F, 0x20]],  // "lao "
        Script::Khmer => seq![[0x6Bu8, 0x68, 0x6D, 0x72]],  // "khmr"
        Script::Tibetan => seq![[0x74u8, 0x69, 0x62, 0x74]],  // "tibt"
        Script::Sinhala => seq![[0x73u8, 0x69, 0x6E, 0x68]],  // "sinh"
        Script::Syriac => seq![[0x73u8, 0x79, 0x72, 0x63]],  // "syrc"
        Script::Thaana => seq![[0x74u8, 0x68, 0x61, 0x61]],  // "thaa"
        Script::Nko => seq![[0x6Eu8, 0x6B, 0x6F, 0x20]],  // "nko "
        Script::Ethiopic => seq![[0x65u8, 0x74, 0x68, 0x69]],  // "ethi"
        Script::Armenian => seq![[0x61u8, 0x72, 0x6D, 0x6E]],  // "armn"
        Script::Georgian => seq![[0x67u8, 0x65, 0x6F, 0x72]],  // "geor"
        Script::Mongolian => seq![[0x6Du8, 0x6F, 0x6E, 0x67]],  // "mong"
        Script::Adlam => seq![[0x61u8, 0x64, 0x6C, 0x6D]],  // "adlm"
        Script::Ahom => seq![[0x61u8, 0x68, 0x6F, 0x6D]],  // "ahom"
        Script::AnatolianHieroglyphs => seq![[0x68u8, 0x6C, 0x75, 0x77]],  // "hluw"
        Script::Avestan => seq![[0x61u8, 0x76, 0x73, 0x74]],  // "avst"
        Script::Balinese => seq![[0x62u8, 0x61, 0x6C, 0x69]],  // "bali"
        Script::Bamum => seq![[0x62u8, 0x61, 0x6D, 0x75]],  // "bamu"
        Script::BassaVah => seq![[0x62u8, 0x61, 0x73, 0x73]],  // "bass"
        Script::Batak => seq![[0x62u8, 0x61, 0x74, 0x6B]],  // "batk"
        Script::Bhaiksuki => seq![[0x62u8, 0x68, 0x6B, 0x73]],  // "bhks"
        Script::Brahmi => seq![[0x62u8, 0x72, 0x61, 0x68]],  // "brah"
        Script::Braille => seq![[0x62u8, 0x72, 0x61, 0x69]],  // "brai"
        Script::Buginese => seq![[0x62u8, 0x75, 0x67, 0x69]],  // "bugi"
        Script::Buhid => seq![[0x62u8, 0x75, 0x68, 0x64]],  // "buhd"
        Script::CanadianAboriginal => seq![[0x63u8, 0x61, 0x6E, 0x73]],  // "cans"
        Script::Carian => seq![[0x63u8, 0x61, 0x72, 0x69]],  // "cari"
        Script::CaucasianAlbanian => seq![[0x61u8, 0x67, 0x68, 0x62]],  // "aghb"
        Script::Chakma => seq![[0x63u8, 0x61, 0x6B, 0x6D]],  // "cakm"
        Script::Cham => seq![[0x63u8, 0x68, 0x61, 0x6D]],  // "cham"
        Script::Cherokee => seq![[0x63u8, 0x68, 0x65, 0x72]],  // "cher"
        Script::Chorasmian => seq![[0x63u8, 0x68, 0x72, 0x73]],  // "chrs"
        Script::Coptic => seq![[0x63u8, 0x6F, 0x70, 0x74]],  // "copt"
        Script::Cuneiform => seq![[0x78u8, 0x73, 0x75, 0x78]],  // "xsux"
        Script::Cypriot => seq![[0x63u8, 0x70, 0x72, 0x74]],  // "cprt"
        Script::CyproMinoan => seq![[0x63u8, 0x70, 0x6D, 0x6E]],  // "cpmn"
        Script::Deseret => seq![[0x64u8, 0x73, 0x72, 0x74]],  // "dsrt"
        Script::DivesAkuru => seq![[0x64u8, 0x69, 0x61, 0x6B]],  // "diak"
        Script::Dogra => seq![[0x64u8, 0x6F, 0x67, 0x72]],  // "dogr"
        Script::Duployan => seq![[0x64u8, 0x75, 0x70, 0x6C]],  // "dupl"
        Script::EgyptianHieroglyphs => seq![[0x65u8, 0x67, 0x79, 0x70]],  // "egyp"
        Script::Elbasan => seq![[0x65u8, 0x6C, 0x62, 0x61]],  // "elba"
        Script::Elymaic => seq![[0x65u8, 0x6C, 0x79, 0x6D]],  // "elym"
        Script::Garay => seq![[0x67u8, 0x61, 0x72, 0x61]],  // "gara"
        Script::Glagolitic => seq![[0x67u8, 0x6C, 0x61, 0x67]],  // "glag"
        Script::Gothic => seq![[0x67u8, 0x6F, 0x74, 0x68]],  // "goth"
        Script::Grantha => seq![[0x67u8, 0x72, 0x61, 0x6E]],  // "gran"
        Script::GunjalaGondi => seq![[0x67u8, 0x6F, 0x6E, 0x67]],  // "gong"
        Script::GurungKhema => seq![[0x67u8, 0x75, 0x6B, 0x68]],  // "gukh"
        Script::HanifiRohingya => seq![[0x72u8, 0x6F, 0x68, 0x67]],  // "rohg"
        Script::Hanunoo => seq![[0x68u8, 0x61, 0x6E, 0x6F]],  // "hano"
        Script::Hatran => seq![[0x68u8, 0x61, 0x74, 0x72]],  // "hatr"
        Script::ImperialAramaic => seq![[0x61u8, 0x72, 0x6D, 0x69]],  // "armi"
        Script::InscriptionalPahlavi => seq![[0x70u8, 0x68, 0x6C, 0x69]],  // "phli"
        Script::InscriptionalParthian => seq![[0x70u8, 0x72, 0x74, 0x69]],  // "prti"
        Script::Javanese => seq![[0x6Au8, 0x61, 0x76, 0x61]],  // "java"
        Script::Kaithi => seq![[0x6Bu8, 0x74, 0x68, 0x69]],  // "kthi"
        Script::Kawi => seq![[0x6Bu8, 0x61, 0x77, 0x69]],  // "kawi"
        Script::KayahLi => seq![[0x6Bu8, 0x61, 0x6C, 0x69]],  // "kali"
        Script::Kharoshthi => seq![[0x6Bu8, 0x68, 0x61, 0x72]],  // "khar"
        Script::KhitanSmallScript => seq![[0x6Bu8, 0x69, 0x74, 0x73]],  // "kits"
        Script::Khojki => seq![[0x6Bu8, 0x68, 0x6F, 0x6A]],  // "khoj"
        Script::Khudawadi => seq![[0x73u8, 0x69, 0x6E, 0x64]],  // "sind"
        Script::KiratRai => seq![[0x6Bu8, 0x72, 0x61, 0x69]],  // "krai"
        Script::Lepcha => seq![[0x6Cu8, 0x65, 0x70, 0x63]],  // "lepc"
        Script::Limbu => seq![[0x6Cu8, 0x69, 0x6D, 0x62]],  // "limb"
        Script::LinearA => seq![[0x6Cu8, 0x69, 0x6E, 0x61]],  // "lina"
        Script::LinearB => seq![[0x6Cu8, 0x69, 0x6E, 0x62]],  // "linb"
        Script::Lisu => seq![[0x6Cu8, 0x69, 0x73, 0x75]],  // "lisu"
        Script::Lycian => seq![[0x6Cu8, 0x79, 0x63, 0x69]],  // "lyci"
        Script::Lydian => seq![[0x6Cu8, 0x79, 0x64, 0x69]],  // "lydi"
        Script::Mahajani => seq![[0x6Du8, 0x61, 0x68, 0x6A]],  // "mahj"
        Script::Makasar => seq![[0x6Du8, 0x61, 0x6B, 0x61]],  // "maka"
        Script::Mandaic => seq![[0x6Du8, 0x61, 0x6E, 0x64]],  // "mand"
        Script::Manichaean => seq![[0x6Du8, 0x61, 0x6E, 0x69]],  // "mani"
        Script::Marchen => seq![[0x6Du8, 0x61, 0x72, 0x63]],  // "marc"
        Script::MasaramGondi => seq![[0x67u8, 0x6F, 0x6E, 0x6D]],  // "gonm"
        Script::Medefaidrin => seq![[0x6Du8, 0x65, 0x64, 0x66]],  // "medf"
        Script::MeeteiMayek => seq![[0x6Du8, 0x74, 0x65, 0x69]],  // "mtei"
        Script::MendeKikakui => seq![[0x6Du8, 0x65, 0x6E, 0x64]],  // "mend"
        Script::MeroiticCursive => seq![[0x6Du8, 0x65, 0x72, 0x63]],  // "merc"
        Script::MeroiticHieroglyphs => seq![[0x6Du8, 0x65, 0x72, 0x6F]],  // "mero"
        Script::Miao => seq![[0x70u8, 0x6C, 0x72, 0x64]],  // "plrd"
        Script::Modi => seq![[0x6Du8, 0x6F, 0x64, 0x69]],  // "modi"
        Script::Mro => seq![[0x6Du8, 0x72, 0x6F, 0x6F]],  // "mroo"
        Script::Multani => seq![[0x6Du8, 0x75, 0x6C, 0x74]],  // "mult"
        Script::Nabataean => seq![[0x6Eu8, 0x62, 0x61, 0x74]],  // "nbat"
        Script::NagMundari => seq![[0x6Eu8, 0x61, 0x67, 0x6D]],  // "nagm"
        Script::Nandinagari => seq![[0x6Eu8, 0x61, 0x6E, 0x64]],  // "nand"
        Script::Newa => seq![[0x6Eu8, 0x65, 0x77, 0x61]],  // "newa"
        Script::NewTaiLue => seq![[0x74u8, 0x61, 0x6C, 0x75]],  // "talu"
        Script::Nushu => seq![[0x6Eu8, 0x73, 0x68, 0x75]],  // "nshu"
        Script::NyiakengPuachueHmong => seq![[0x68u8, 0x6D, 0x6E, 0x70]],  // "hmnp"
        Script::Ogham => seq![[0x6Fu8, 0x67, 0x61, 0x6D]],  // "ogam"
        Script::OlChiki => seq![[0x6Fu8, 0x6C, 0x63, 0x6B]],  // "olck"
        Script::OlOnal => seq![[0x6Fu8, 0x6E, 0x61, 0x6F]],  // "onao"
        Script::OldHungarian => seq![[0x68u8, 0x75, 0x6E, 0x67]],  // "hung"
        Script::OldItalic => seq![[0x69u8, 0x74, 0x61, 0x6C]],  // "ital"
        Script::OldNorthArabian => seq![[0x6Eu8, 0x61, 0x72, 0x62]],  // "narb"
        Script::OldPermic => seq![[0x70u8, 0x65, 0x72, 0x6D]],  // "perm"
        Script::OldPersian => seq![[0x78u8, 0x70, 0x65, 0x6F]],  // "xpeo"
        Script::OldSogdian => seq![[0x73u8, 0x6F, 0x67, 0x6F]],  // "sogo"
        Script::OldSouthArabian => seq![[0x73u8, 0x61, 0x72, 0x62]],  // "sarb"
        Script::OldTurkic => seq![[0x6Fu8, 0x72, 0x6B, 0x68]],  // "orkh"
        Script::OldUyghur => seq![[0x6Fu8, 0x75, 0x67, 0x72]],  // "ougr"
        Script::Osage => seq![[0x6Fu8, 0x73, 0x67, 0x65]],  // "osge"
        Script::Osmanya => seq![[0x6Fu8, 0x73, 0x6D, 0x61]],  // "osma"
        Script::PahawhHmong => seq![[0x68u8, 0x6D, 0x6E, 0x67]],  // "hmng"
        Script::Palmyrene => seq![[0x70u8, 0x61, 0x6C, 0x6D]],  // "palm"
        Script::PauCinHau => seq![[0x70u8, 0x61, 0x75, 0x63]],  // "pauc"
        Script::PhagsPa => seq![[0x70u8, 0x68, 0x61, 0x67]],  // "phag"
        Script::Phoenician => seq![[0x70u8, 0x68, 0x6E, 0x78]],  // "phnx"
        Script::PsalterPahlavi => seq![[0x70u8, 0x68, 0x6C, 0x70]],  // "phlp"
        Script::Rejang => seq![[0x72u8, 0x6A, 0x6E, 0x67]],  // "rjng"
        Script::Runic => seq![[0x72u8, 0x75, 0x6E, 0x72]],  // "runr"
        Script::Samaritan => seq![[0x73u8, 0x61, 0x6D, 0x72]],  // "samr"
        Script::Saurashtra => seq![[0x73u8, 0x61, 0x75, 0x72]],  // "saur"
        Script::Sharada => seq![[0x73u8, 0x68, 0x72, 0x64]],  // "shrd"
        Script::Shavian => seq![[0x73u8, 0x68, 0x61, 0x77]],  // "shaw"
        Script::Siddham => seq![[0x73u8, 0x69, 0x64, 0x64]],  // "sidd"
        Script::Sidetic => seq![[0x73u8, 0x69, 0x64, 0x74]],  // "sidt"
        Script::SignWriting => seq![[0x73u8, 0x67, 0x6E, 0x77]],  // "sgnw"
        Script::Sogdian => seq![[0x73u8, 0x6F, 0x67, 0x64]],  // "sogd"
        Script::SoraSompeng => seq![[0x73u8, 0x6F, 0x72, 0x61]],  // "sora"
        Script::Soyombo => seq![[0x73u8, 0x6F, 0x79, 0x6F]],  // "soyo"
        Script::Sundanese => seq![[0x73u8, 0x75, 0x6E, 0x64]],  // "sund"
        Script::Sunuwar => seq![[0x73u8, 0x75, 0x6E, 0x75]],  // "sunu"
        Script::SylotiNagri => seq![[0x73u8, 0x79, 0x6C, 0x6F]],  // "sylo"
        Script::Tagalog => seq![[0x74u8, 0x67, 0x6C, 0x67]],  // "tglg"
        Script::Tagbanwa => seq![[0x74u8, 0x61, 0x67, 0x62]],  // "tagb"
        Script::TaiLe => seq![[0x74u8, 0x61, 0x6C, 0x65]],  // "tale"
        Script::TaiTham => seq![[0x6Cu8, 0x61, 0x6E, 0x61]],  // "lana"
        Script::TaiViet => seq![[0x74u8, 0x61, 0x76, 0x74]],  // "tavt"
        Script::TaiYo => seq![[0x74u8, 0x61, 0x79, 0x6F]],  // "tayo"
        Script::Takri => seq![[0x74u8, 0x61, 0x6B, 0x72]],  // "takr"
        Script::Tangsa => seq![[0x74u8, 0x6E, 0x73, 0x61]],  // "tnsa"
        Script::Tangut => seq![[0x74u8, 0x61, 0x6E, 0x67]],  // "tang"
        Script::Tifinagh => seq![[0x74u8, 0x66, 0x6E, 0x67]],  // "tfng"
        Script::Tirhuta => seq![[0x74u8, 0x69, 0x72, 0x68]],  // "tirh"
        Script::Todhri => seq![[0x74u8, 0x6F, 0x64, 0x72]],  // "todr"
        Script::TolongSiki => seq![[0x74u8, 0x6F, 0x6C, 0x73]],  // "tols"
        Script::Toto => seq![[0x74u8, 0x6F, 0x74, 0x6F]],  // "toto"
        Script::TuluTigalari => seq![[0x74u8, 0x75, 0x74, 0x67]],  // "tutg"
        Script::Ugaritic => seq![[0x75u8, 0x67, 0x61, 0x72]],  // "ugar"
        Script::Vai => seq![[0x76u8, 0x61, 0x69, 0x20]],  // "vai "
        Script::Vithkuqi => seq![[0x76u8, 0x69, 0x74, 0x68]],  // "vith"
        Script::Wancho => seq![[0x77u8, 0x63, 0x68, 0x6F]],  // "wcho"
        Script::WarangCiti => seq![[0x77u8, 0x61, 0x72, 0x61]],  // "wara"
        Script::Yezidi => seq![[0x79u8, 0x65, 0x7A, 0x69]],  // "yezi"
        Script::Yi => seq![[0x79u8, 0x69, 0x20, 0x20]],  // "yi  "
        Script::ZanabazarSquare => seq![[0x7Au8, 0x61, 0x6E, 0x62]],  // "zanb"
        Script::BeriaErfe => seq![[0x62u8, 0x65, 0x72, 0x66]],  // "berf"
        Script::Common | Script::Inherited | Script::Unknown => seq![[0x44u8, 0x46, 0x4C, 0x54]],  // "DFLT"
    }
}

/// A four-byte tag read as a big-endian number.
pub open spec fn tag_value(t: [u8; 4]) -> u32 {
    (t[0] as u32 * 0x0100_0000 + t[1] as u32 * 0x0001_0000 + t[2] as u32 * 0x0100 + t[3] as u32) as u32
}

/// The script the OpenType script-tag registry assigns a tag (by its
/// big-endian value): `kana` is Hiragana and Katakana alike, `DFLT` the
/// default script; `None` for a tag the registry does not list.
pub open spec fn registered_script(tag: u32) -> Option<Script> {
    match tag {
        0x44464C54 => Some(Script::Common),  // "DFLT"
        0x61646C6D => Some(Script::Adlam),  // "adlm"
        0x61676862 => Some(Script::CaucasianAlbanian),  // "aghb"
        0x61686F6D => Some(Script::Ahom),  // "ahom"
        0x61726162 => Some(Script::Arabic),  // "arab"
        0x61726D69 => Some(Script::ImperialAramaic),  // "armi"
        0x61726D6E => Some(Script::Armenian),  // "armn"
        0x61767374 => Some(Script::Avestan),  // "avst"
        0x62616C69 => Some(Script::Balinese),  // "bali"
        0x62616D75 => Some(Script::Bamum),  // "bamu"
        0x62617373 => Some(Script::BassaVah),  // "bass"
        0x6261746B => Some(Script::Batak),  // "batk"
        0x62656E67 => Some(Script::Bengali),  // "beng"
        0x62657266 => Some(Script::BeriaErfe),  // "berf"
        0x62686B73 => Some(Script::Bhaiksuki),  // "bhks"
        0x626E6732 => Some(Script::Bengali),  // "bng2"
        0x626F706F => Some(Script::Bopomofo),  // "bopo"
        0x62726168 => Some(Script::Brahmi),  // "brah"
        0x62726169 => Some(Script::Braille),  // "brai"
        0x62756769 => Some(Script::Buginese),  // "bugi"
        0x62756864 => Some(Script::Buhid),  // "buhd"
        0x63616B6D => Some(Script::Chakma),  // "cakm"
        0x63616E73 => Some(Script::CanadianAboriginal),  // "cans"
        0x63617269 => Some(Script::Carian),  // "cari"
        0x6368616D => Some(Script::Cham),  // "cham"
        0x63686572 => Some(Script::Cherokee),  // "cher"
        0x63687273 => Some(Script::Chorasmian),  // "chrs"
        0x636F7074 => Some(Script::Coptic),  // "copt"
        0x63706D6E => Some(Script::CyproMinoan),  // "cpmn"
        0x63707274 => Some(Script::Cypriot),  // "cprt"
        0x6379726C => Some(Script::Cyrillic),  // "cyrl"
        0x64657632 => Some(Script::Devanagari),  // "dev2"
        0x64657661 => Some(Script::Devanagari),  // "deva"
        0x6469616B => Some(Script::DivesAkuru),  // "diak"
        0x646F6772 => Some(Script::Dogra),  // "dogr"
        0x64737274 => Some(Script::Deseret),  // "dsrt"
        0x6475706C => Some(Script::Duployan),  // "dupl"
        0x65677970 => Some(Script::EgyptianHieroglyphs),  // "egyp"
        0x656C6261 => Some(Script::Elbasan),  // "elba"
        0x656C796D => Some(Script::Elymaic),  // "elym"
        0x65746869 => Some(Script::Ethiopic),  // "ethi"
        0x67617261 => Some(Script::Garay),  // "gara"
        0x67656F72 => Some(Script::Georgian),  // "geor"
        0x676A7232 => Some(Script::Gujarati),  // "gjr2"
        0x676C6167 => Some(Script::Glagolitic),  // "glag"
        0x676F6E67 => Some(Script::GunjalaGondi),  // "gong"
        0x676F6E6D => Some(Script::MasaramGondi),  // "gonm"
        0x676F7468 => Some(Script::Gothic),  // "goth"
        0x6772616E => Some(Script::Grantha),  // "gran"
        0x6772656B => Some(Script::Greek),  // "grek"
        0x67756A72 => Some(Script::Gujarati),  // "gujr"
        0x67756B68 => Some(Script::GurungKhema),  // "gukh"
        0x67757232 => Some(Script::Gurmukhi),  // "gur2"
        0x67757275 => Some(Script::Gurmukhi),  // "guru"
        0x68616E67 => Some(Script::Hangul),  // "hang"
        0x68616E69 => Some(Script::Han),  // "hani"
        0x68616E6F => Some(Script::Hanunoo),  // "hano"
        0x68617472 => Some(Script::Hatran),  // "hatr"
        0x68656272 => Some(Script::Hebrew),  // "hebr"
        0x686C7577 => Some(Script::AnatolianHieroglyphs),  // "hluw"
        0x686D6E67 => Some(Script::PahawhHmong),  // "hmng"
        0x686D6E70 => Some(Script::NyiakengPuachueHmong),  // "hmnp"
        0x68756E67 => Some(Script::OldHungarian),  // "hung"
        0x6974616C => Some(Script::OldItalic),  // "ital"
        0x6A617661 => Some(Script::Javanese),  // "java"
        0x6B616C69 => Some(Script::KayahLi),  // "kali"
        0x6B616E61 => Some(Script::Hiragana),  // "kana"
        0x6B617769 => Some(Script::Kawi),  // "kawi"
        0x6B686172 => Some(Script::Kharoshthi),  // "khar"
        0x6B686D72 => Some(Script::Khmer),  // "khmr"
        0x6B686F6A => Some(Script::Khojki),  // "khoj"
        0x6B697473 => Some(Script::KhitanSmallScript),  // "kits"
        0x6B6E6432 => Some(Script::Kannada),  // "knd2"
        0x6B6E6461 => Some(Script::Kannada),  // "knda"
        0x6B726169 => Some(Script::KiratRai),  // "krai"
        0x6B746869 => Some(Script::Kaithi),  // "kthi"
        0x6C616E61 => Some(Script::TaiTham),  // "lana"
        0x6C616F20 => Some(Script::Lao),  // "lao "
        0x6C61746E => Some(Script::Latin),  // "latn"
        0x6C657063 => Some(Script::Lepcha),  // "lepc"
        0x6C696D62 => Some(Script::Limbu),  // "limb"
        0x6C696E61 => Some(Script::LinearA),  // "lina"
        0x6C696E62 => Some(Script::LinearB),  // "linb"
        0x6C697375 => Some(Script::Lisu),  // "lisu"
        0x6C796369 => Some(Script::Lycian),  // "lyci"
        0x6C796469 => Some(Script::Lydian),  // "lydi"
        0x6D61686A => Some(Script::Mahajani),  // "mahj"
        0x6D616B61 => Some(Script::Makasar),  // "maka"
        0x6D616E64 => Some(Script::Mandaic),  // "mand"
        0x6D616E69 => Some(Script::Manichaean),  // "mani"
        0x6D617263 => Some(Script::Marchen),  // "marc"
        0x6D656466 => Some(Script::Medefaidrin),  // "medf"
        0x6D656E64 => Some(Script::MendeKikakui),  // "mend"
        0x6D657263 => Some(Script::MeroiticCursive),  // "merc"
        0x6D65726F => Some(Script::MeroiticHieroglyphs),  // "mero"
        0x6D6C6D32 => Some(Script::Malayalam),  // "mlm2"
        0x6D6C796D => Some(Script::Malayalam),  // "mlym"
        0x6D6F6469 => Some(Script::Modi),  // "modi"
        0x6D6F6E67 => Some(Script::Mongolian),  // "mong"
        0x6D726F6F => Some(Script::Mro),  // "mroo"
        0x6D746569 => Some(Script::MeeteiMayek),  // "mtei"
        0x6D756C74 => Some(Script::Multani),  // "mult"
        0x6D796D32 => Some(Script::Myanmar),  // "mym2"
        0x6D796D72 => Some(Script::Myanmar),  // "mymr"
        0x6E61676D => Some(Script::NagMundari),  // "nagm"
        0x6E616E64 => Some(Script::Nandinagari),  // "nand"
        0x6E617262 => Some(Script::OldNorthArabian),  // "narb"
        0x6E626174 => Some(Script::Nabataean),  // "nbat"
        0x6E657761 => Some(Script::Newa),  // "newa"
        0x6E6B6F20 => Some(Script::Nko),  // "nko "
        0x6E736875 => Some(Script::Nushu),  // "nshu"
        0x6F67616D => Some(Script::Ogham),  // "ogam"
        0x6F6C636B => Some(Script::OlChiki),  // "olck"
        0x6F6E616F => Some(Script::OlOnal),  // "onao"
        0x6F726B68 => Some(Script::OldTurkic),  // "orkh"
        0x6F727932 => Some(Script::Oriya),  // "ory2"
        0x6F727961 => Some(Script::Oriya),  // "orya"
        0x6F736765 => Some(Script::Osage),  // "osge"
        0x6F736D61 => Some(Script::Osmanya),  // "osma"
        0x6F756772 => Some(Script::OldUyghur),  // "ougr"
        0x70616C6D => Some(Script::Palmyrene),  // "palm"
        0x70617563 => Some(Script::PauCinHau),  // "pauc"
        0x7065726D => Some(Script::OldPermic),  // "perm"
        0x70686167 => Some(Script::PhagsPa),  // "phag"
        0x70686C69 => Some(Script::InscriptionalPahlavi),  // "phli"
        0x70686C70 => Some(Script::PsalterPahlavi),  // "phlp"
        0x70686E78 => Some(Script::Phoenician),  // "phnx"
        0x706C7264 => Some(Script::Miao),  // "plrd"
        0x70727469 => Some(Script::InscriptionalParthian),  // "prti"
        0x726A6E67 => Some(Script::Rejang),  // "rjng"
        0x726F6867 => Some(Script::HanifiRohingya),  // "rohg"
        0x72756E72 => Some(Script::Runic),  // "runr"
        0x73616D72 => Some(Script::Samaritan),  // "samr"
        0x73617262 => Some(Script::OldSouthArabian),  // "sarb"
        0x73617572 => Some(Script::Saurashtra),  // "saur"
        0x73676E77 => Some(Script::SignWriting),  // "sgnw"
        0x73686177 => Some(Script::Shavian),  // "shaw"
        0x73687264 => Some(Script::Sharada),  // "shrd"
        0x73696464 => Some(Script::Siddham),  // "sidd"
        0x73696474 => Some(Script::Sidetic),  // "sidt"
        0x73696E64 => Some(Script::Khudawadi),  // "sind"
        0x73696E68 => Some(Script::Sinhala),  // "sinh"
        0x736F6764 => Some(Script::Sogdian),  // "sogd"
        0x736F676F => Some(Script::OldSogdian),  // "sogo"
        0x736F7261 => Some(Script::SoraSompeng),  // "sora"
        0x736F796F => Some(Script::Soyombo),  // "soyo"
        0x73756E64 => Some(Script::Sundanese),  // "sund"
        0x73756E75 => Some(Script::Sunuwar),  // "sunu"
        0x73796C6F => Some(Script::SylotiNagri),  // "sylo"
        0x73797263 => Some(Script::Syriac),  // "syrc"
        0x74616762 => Some(Script::Tagbanwa),  // "tagb"
        0x74616B72 => Some(Script::Takri),  // "takr"
        0x74616C65 => Some(Script::TaiLe),  // "tale"
        0x74616C75 => Some(Script::NewTaiLue),  // "talu"
        0x74616D6C => Some(Script::Tamil),  // "taml"
        0x74616E67 => Some(Script::Tangut),  // "tang"
        0x74617674 => Some(Script::TaiViet),  // "tavt"
        0x7461796F => Some(Script::TaiYo),  // "tayo"
        0x74656C32 => Some(Script::Telugu),  // "tel2"
        0x74656C75 => Some(Script::Telugu),  // "telu"
        0x74666E67 => Some(Script::Tifinagh),  // "tfng"
        0x74676C67 => Some(Script::Tagalog),  // "tglg"
        0x74686161 => Some(Script::Thaana),  // "thaa"
        0x74686169 => Some(Script::Thai),  // "thai"
        0x74696274 => Some(Script::Tibetan),  // "tibt"
        0x74697268 => Some(Script::Tirhuta),  // "tirh"
        0x746D6C32 => Some(Script::Tamil),  // "tml2"
        0x746E7361 => Some(Script::Tangsa),  // "tnsa"
        0x746F6472 => Some(Script::Todhri),  // "todr"
        0x746F6C73 => Some(Script::TolongSiki),  // "tols"
        0x746F746F => Some(Script::Toto),  // "toto"
        0x74757467 => Some(Script::TuluTigalari),  // "tutg"
        0x75676172 => Some(Script::Ugaritic),  // "ugar"
        0x76616920 => Some(Script::Vai),  // "vai "
        0x76697468 => Some(Script::Vithkuqi),  // "vith"
        0x77617261 => Some(Script::WarangCiti),  // "wara"
        0x7763686F => Some(Script::Wancho),  // "wcho"
        0x7870656F => Some(Script::OldPersian),  // "xpeo"
        0x78737578 => Some(Script::Cuneiform),  // "xsux"
        0x79657A69 => Some(Script::Yezidi),  // "yezi"
        0x79692020 => Some(Script::Yi),  // "yi  "
        0x7A616E62 => Some(Script::ZanabazarSquare),  // "zanb"
        _ => None,
    }
}

/// The script whose registry tag a script shares: Katakana shares
/// Hiragana's `kana`, Inherited and Unknown share Common's `DFLT`; every
/// other script is its own.
pub open spec fn tag_group(s: Script) -> Script {
    match s {
        Script::Katakana => Script::Hiragana,
        Script::Inherited | Script::Unknown => Script::Common,
        _ => s,
    }
}

/// Every tag listed for a script is the registry's tag for that script.
pub proof fn lemma_script_tags_registered(s: Script, i: int)
    requires
        0 <= i < script_tags_spec(s).len(),
    ensures
        registered_script(tag_value(script_tags_spec(s)[i])) == Some(tag_group(s)),
{
    match s {
        Script::Adlam => {},
        Script::Ahom => {},
        Script::AnatolianHieroglyphs => {},
        Script::Arabic => {},
        Script::Armenian => {},
        Script::Avestan => {},
        Script::Balinese => {},
        Script::Bamum => {},
        Script::BassaVah => {},
        Script::Batak => {},
        Script::Bengali => {},
        Script::BeriaErfe => {},
        Script::Bhaiksuki => {},
        Script::Bopomofo => {},
        Script::Brahmi => {},
        Script::Braille => {},
        Script::Buginese => {},
        Script::Buhid => {},
        Script::CanadianAboriginal => {},
        Script::Carian => {},
        Script::CaucasianAlbanian => {},
        Script::Chakma => {},
        Script::Cham => {},
        Script::Cherokee => {},
        Script::Chorasmian => {},
        Script::Common => {},
        Script::Coptic => {},
        Script::Cuneiform => {},
        Script::Cypriot => {},
        Script::CyproMinoan => {},
        Script::Cyrillic => {},
        Script::Deseret => {},
        Script::Devanagari => {},
        Script::DivesAkuru => {},
        Script::Dogra => {},
        Script::Duployan => {},
        Script::EgyptianHieroglyphs => {},
        Script::Elbasan => {},
        Script::Elymaic => {},
        Script::Ethiopic => {},
        Script::Garay => {},
        Script::Georgian => {},
        Script::Glagolitic => {},
        Script::Gothic => {},
        Script::Grantha => {},
        Script::Greek => {},
        Script::Gujarati => {},
        Script::GunjalaGondi => {},
        Script::Gurmukhi => {},
        Script::GurungKhema => {},
        Script::Han => {},
        Script::Hangul => {},
        Script::HanifiRohingya => {},
        Script::Hanunoo => {},
        Script::Hatran => {},
        Script::Hebrew => {},
        Script::Hiragana => {},
        Script::ImperialAramaic => {},
        Script::Inherited => {},
        Script::InscriptionalPahlavi => {},
        Script::InscriptionalParthian => {},
        Script::Javanese => {},
        Script::Kaithi => {},
        Script::Kannada => {},
        Script::Katakana => {},
        Script::Kawi => {},
        Script::KayahLi => {},
        Script::Kharoshthi => {},
        Script::KhitanSmallScript => {},
        Script::Khmer => {},
        Script::Khojki => {},
        Script::Khudawadi => {},
        Script::KiratRai => {},
        Script::Lao => {},
        Script::Latin => {},
        Script::Lepcha => {},
        Script::Limbu => {},
        Script::LinearA => {},
        Script::LinearB => {},
        Script::Lisu => {},
        Script::Lycian => {},
        Script::Lydian => {},
        Script::Mahajani => {},
        Script::Makasar => {},
        Script::Malayalam => {},
        Script::Mandaic => {},
        Script::Manichaean => {},
        Script::Marchen => {},
        Script::MasaramGondi => {},
        Script::Medefaidrin => {},
        Script::MeeteiMayek => {},
        Script::MendeKikakui => {},
        Script::MeroiticCursive => {},
        Script::MeroiticHieroglyphs => {},
        Script::Miao => {},
        Script::Modi => {},
        Script::Mongolian => {},
        Script::Mro => {},
        Script::Multani => {},
        Script::Myanmar => {},
        Script::Nabataean => {},
        Script::NagMundari => {},
        Script::Nandinagari => {},
        Script::NewTaiLue => {},
        Script::Newa => {},
        Script::Nko => {},
        Script::Nushu => {},
        Script::NyiakengPuachueHmong => {},
        Script::Ogham => {},
        Script::OlChiki => {},
        Script::OlOnal => {},
        Script::OldHungarian => {},
        Script::OldItalic => {},
        Script::OldNorthArabian => {},
        Script::OldPermic => {},
        Script::OldPersian => {},
        Script::OldSogdian => {},
        Script::OldSouthArabian => {},
        Script::OldTurkic => {},
        Script::OldUyghur => {},
        Script::Oriya => {},
        Script::Osage => {},
        Script::Osmanya => {},
        Script::PahawhHmong => {},
        Script::Palmyrene => {},
        Script::PauCinHau => {},
        Script::PhagsPa => {},
        Script::Phoenician => {},
        Script::PsalterPahlavi => {},
        Script::Rejang => {},
        Script::Runic => {},
        Script::Samaritan => {},
        Script::Saurashtra => {},
        Script::Sharada => {},
        Script::Shavian => {},
        Script::Siddham => {},
        Script::Sidetic => {},
        Script::SignWriting => {},
        Script::Sinhala => {},
        Script::Sogdian => {},
        Script::SoraSompeng => {},
        Script::Soyombo => {},
        Script::Sundanese => {},
        Script::Sunuwar => {},
        Script::SylotiNagri => {},
        Script::Syriac => {},
        Script::Tagalog => {},
        Script::Tagbanwa => {},
        Script::TaiLe => {},
        Script::TaiTham => {},
        Script::TaiViet => {},
        Script::TaiYo => {},
        Script::Takri => {},
        Script::Tamil => {},
        Script::Tangsa => {},
        Script::Tangut => {},
        Script::Telugu => {},
        Script::Thaana => {},
        Script::Thai => {},
        Script::Tibetan => {},
        Script::Tifinagh => {},
        Script::Tirhuta => {},
        Script::Todhri => {},
        Script::TolongSiki => {},
        Script::Toto => {},
        Script::TuluTigalari => {},
        Script::Ugaritic => {},
        Script::Vai => {},
        Script::Vithkuqi => {},
        Script::Wancho => {},
        Script::WarangCiti => {},
        Script::Yezidi => {},
        Script::Yi => {},
        Script::ZanabazarSquare => {},
        Script::Unknown => {},
    }
}

/// Scripts share a tag only when the registry gives them one tag:
/// two scripts with a tag in common are the same script, Hiragana and
/// Katakana, or two of Common, Inherited and Unknown.
pub proof fn lemma_script_tags_distinct(a: Script, b: Script, i: int, j: int)
    requires
        0 <= i < script_tags_spec(a).len(),
        0 <= j < script_tags_spec(b).len(),
        script_tags_spec(a)[i] == script_tags_spec(b)[j],
    ensures
        tag_group(a) == tag_group(b),
{
    lemma_script_tags_registered(a, i);
    lemma_script_tags_registered(b, j);
}

/// The OpenType script tag(s) of a Unicode script, modern tag first.
pub fn ot_script_tags(s: Script) -> (r: &'static [[u8; 4]])
    ensures
        r@ == script_tags_spec(s),
        1 <= r@.len() <= 2,
{
    match s {
        Script::Bengali => &[[0x62u8, 0x6E, 0x67, 0x32], [0x62u8, 0x65, 0x6E, 0x67]],  // "bng2", "beng"
        Script::Devanagari => &[[0x64u8, 0x65, 0x76, 0x32], [0x64u8, 0x65, 0x76, 0x61]],  // "dev2", "deva"
        Script::Gujarati => &[[0x67u8, 0x6A, 0x72, 0x32], [0x67u8, 0x75, 0x6A, 0x72]],  // "gjr2", "gujr"
        Script::Gurmukhi => &[[0x67u8, 0x75, 0x72, 0x32], [0x67u8, 0x75, 0x72, 0x75]],  // "gur2", "guru"
        Script::Kannada => &[[0x6Bu8, 0x6E, 0x64, 0x32], [0x6Bu8, 0x6E, 0x64, 0x61]],  // "knd2", "knda"
        Script::Malayalam => &[[0x6Du8, 0x6C, 0x6D, 0x32], [0x6Du8, 0x6C, 0x79, 0x6D]],  // "mlm2", "mlym"
        Script::Oriya => &[[0x6Fu8, 0x72, 0x79, 0x32], [0x6Fu8, 0x72, 0x79, 0x61]],  // "ory2", "orya"
        Script::Tamil => &[[0x74u8, 0x6D, 0x6C, 0x32], [0x74u8, 0x61, 0x6D, 0x6C]],  // "tml2", "taml"
        Script::Telugu => &[[0x74u8, 0x65, 0x6C, 0x32], [0x74u8, 0x65, 0x6C, 0x75]],  // "tel2", "telu"
        Script::Myanmar => &[[0x6Du8, 0x79, 0x6D, 0x32], [0x6Du8, 0x79, 0x6D, 0x72]],  // "mym2", "mymr"
        Script::Latin => &[[0x6Cu8, 0x61, 0x74, 0x6E]],  // "latn"
        Script::Cyrillic => &[[0x63u8, 0x79, 0x72, 0x6C]],  // "cyrl"
        Script::Greek => &[[0x67u8, 0x72, 0x65, 0x6B]],  // "grek"
        Script::Arabic => &[[0x61u8, 0x72, 0x61, 0x62]],  // "arab"
        Script::Hebrew => &[[0x68u8, 0x65, 0x62, 0x72]],  // "hebr"
        Script::Han => &[[0x68u8, 0x61, 0x6E, 0x69]],  // "hani"
        Script::Hiragana | Script::Katakana => &[[0x6Bu8, 0x61, 0x6E, 0x61]],  // "kana"
        Script::Hangul => &[[0x68u8, 0x61, 0x6E, 0x67]],  // "hang"
        Script::Bopomofo => &[[0x62u8, 0x6F, 0x70, 0x6F]],  // "bopo"
        Script::Thai => &[[0x74u8, 0x68, 0x61, 0x69]],  // "thai"
        Script::Lao => &[[0x6Cu8, 0x61, 0x6F, 0x20]],  // "lao "
        Script::Khmer => &[[0x6Bu8, 0x68, 0x6D, 0x72]],  // "khmr"
        Script::Tibetan => &[[0x74u8, 0x69, 0x62, 0x74]],  // "tibt"
        Script::Sinhala => &[[0x73u8, 0x69, 0x6E, 0x68]],  // "sinh"
        Script::Syriac => &[[0x73u8, 0x79, 0x72, 0x63]],  // "syrc"
        Script::Thaana => &[[0x74u8, 0x68, 0x61, 0x61]],  // "thaa"
        Script::Nko => &[[0x6Eu8, 0x6B, 0x6F, 0x20]],  // "nko "
        Script::Ethiopic => &[[0x65u8, 0x74, 0x68, 0x69]],  // "ethi"
        Script::Armenian => &[[0x61u8, 0x72, 0x6D, 0x6E]],  // "armn"
        Script::Georgian => &[[0x67u8, 0x65, 0x6F, 0x72]],  // "geor"
        Script::Mongolian => &[[0x6Du8, 0x6F, 0x6E, 0x67]],  // "mong"
        Script::Adlam => &[[0x61u8, 0x64, 0x6C, 0x6D]],  // "adlm"
        Script::Ahom => &[[0x61u8, 0x68, 0x6F, 0x6D]],  // "ahom"
        Script::AnatolianHieroglyphs => &[[0x68u8, 0x6C, 0x75, 0x77]],  // "hluw"
        Script::Avestan => &[[0x61u8, 0x76, 0x73, 0x74]],  // "avst"
        Script::Balinese => &[[0x62u8, 0x61, 0x6C, 0x69]],  // "bali"
        Script::Bamum => &[[0x62u8, 0x61, 0x6D, 0x75]],  // "bamu"
        Script::BassaVah => &[[0x62u8, 0x61, 0x73, 0x73]],  // "bass"
        Script::Batak => &[[0x62u8, 0x61, 0x74, 0x6B]],  // "batk"
        Script::Bhaiksuki => &[[0x62u8, 0x68, 0x6B, 0x73]],  // "bhks"
        Script::Brahmi => &[[0x62u8, 0x72, 0x61, 0x68]],  // "brah"
        Script::Braille => &[[0x62u8, 0x72, 0x61, 0x69]],  // "brai"
        Script::Buginese => &[[0x62u8, 0x75, 0x67, 0x69]],  // "bugi"
        Script::Buhid => &[[0x62u8, 0x75, 0x68, 0x64]],  // "buhd"
        Script::CanadianAboriginal => &[[0x63u8, 0x61, 0x6E, 0x73]],  // "cans"
        Script::Carian => &[[0x63u8, 0x61, 0x72, 0x69]],  // "cari"
        Script::CaucasianAlbanian => &[[0x61u8, 0x67, 0x68, 0x62]],  // "aghb"
        Script::Chakma => &[[0x63u8, 0x61, 0x6B, 0x6D]],  // "cakm"
        Script::Cham => &[[0x63u8, 0x68, 0x61, 0x6D]],  // "cham"
        Script::Cherokee => &[[0x63u8, 0x68, 0x65, 0x72]],  // "cher"
        Script::Chorasmian => &[[0x63u8, 0x68, 0x72, 0x73]],  // "chrs"
        Script::Coptic => &[[0x63u8, 0x6F, 0x70, 0x74]],  // "copt"
        Script::Cuneiform => &[[0x78u8, 0x73, 0x75, 0x78]],  // "xsux"
        Script::Cypriot => &[[0x63u8, 0x70, 0x72, 0x74]],  // "cprt"
        Script::CyproMinoan => &[[0x63u8, 0x70, 0x6D, 0x6E]],  // "cpmn"
        Script::Deseret => &[[0x64u8, 0x73, 0x72, 0x74]],  // "dsrt"
        Script::DivesAkuru => &[[0x64u8, 0x69, 0x61, 0x6B]],  // "diak"
        Script::Dogra => &[[0x64u8, 0x6F, 0x67, 0x72]],  // "dogr"
        Script::Duployan => &[[0x64u8, 0x75, 0x70, 0x6C]],  // "dupl"
        Script::EgyptianHieroglyphs => &[[0x65u8, 0x67, 0x79, 0x70]],  // "egyp"
        Script::Elbasan => &[[0x65u8, 0x6C, 0x62, 0x61]],  // "elba"
        Script::Elymaic => &[[0x65u8, 0x6C, 0x79, 0x6D]],  // "elym"
        Script::Garay => &[[0x67u8, 0x61, 0x72, 0x61]],  // "gara"
        Script::Glagolitic => &[[0x67u8, 0x6C, 0x61, 0x67]],  // "glag"
        Script::Gothic => &[[0x67u8, 0x6F, 0x74, 0x68]],  // "goth"
        Script::Grantha => &[[0x67u8, 0x72, 0x61, 0x6E]],  // "gran"
        Script::GunjalaGondi => &[[0x67u8, 0x6F, 0x6E, 0x67]],  // "gong"
        Script::GurungKhema => &[[0x67u8, 0x75, 0x6B, 0x68]],  // "gukh"
        Script::HanifiRohingya => &[[0x72u8, 0x6F, 0x68, 0x67]],  // "rohg"
        Script::Hanunoo => &[[0x68u8, 0x61, 0x6E, 0x6F]],  // "hano"
        Script::Hatran => &[[0x68u8, 0x61, 0x74, 0x72]],  // "hatr"
        Script::ImperialAramaic => &[[0x61u8, 0x72, 0x6D, 0x69]],  // "armi"
        Script::InscriptionalPahlavi => &[[0x70u8, 0x68, 0x6C, 0x69]],  // "phli"
        Script::InscriptionalParthian => &[[0x70u8, 0x72, 0x74, 0x69]],  // "prti"
        Script::Javanese => &[[0x6Au8, 0x61, 0x76, 0x61]],  // "java"
        Script::Kaithi => &[[0x6Bu8, 0x74, 0x68, 0x69]],  // "kthi"
        Script::Kawi => &[[0x6Bu8, 0x61, 0x77, 0x69]],  // "kawi"
        Script::KayahLi => &[[0x6Bu8, 0x61, 0x6C, 0x69]],  // "kali"
        Script::Kharoshthi => &[[0x6Bu8, 0x68, 0x61, 0x72]],  // "khar"
        Script::KhitanSmallScript => &[[0x6Bu8, 0x69, 0x74, 0x73]],  // "kits"
        Script::Khojki => &[[0x6Bu8, 0x68, 0x6F, 0x6A]],  // "khoj"
        Script::Khudawadi => &[[0x73u8, 0x69, 0x6E, 0x64]],  // "sind"
        Script::KiratRai => &[[0x6Bu8, 0x72, 0x61, 0x69]],  // "krai"
        Script::Lepcha => &[[0x6Cu8, 0x65, 0x70, 0x63]],  // "lepc"
        Script::Limbu => &[[0x6Cu8, 0x69, 0x6D, 0x62]],  // "limb"
        Script::LinearA => &[[0x6Cu8, 0x69, 0x6E, 0x61]],  // "lina"
        Script::LinearB => &[[0x6Cu8, 0x69, 0x6E, 0x62]],  // "linb"
        Script::Lisu => &[[0x6Cu8, 0x69, 0x73, 0x75]],  // "lisu"
        Script::Lycian => &[[0x6Cu8, 0x79, 0x63, 0x69]],  // "lyci"
        Script::Lydian => &[[0x6Cu8, 0x79, 0x64, 0x69]],  // "lydi"
        Script::Mahajani => &[[0x6Du8, 0x61, 0x68, 0x6A]],  // "mahj"
        Script::Makasar => &[[0x6Du8, 0x61, 0x6B, 0x61]],  // "maka"
        Script::Mandaic => &[[0x6Du8, 0x61, 0x6E, 0x64]],  // "mand"
        Script::Manichaean => &[[0x6Du8, 0x61, 0x6E, 0x69]],  // "mani"
        Script::Marchen => &[[0x6Du8, 0x61, 0x72, 0x63]],  // "marc"
        Script::MasaramGondi => &[[0x67u8, 0x6F, 0x6E, 0x6D]],  // "gonm"
        Script::Medefaidrin => &[[0x6Du8, 0x65, 0x64, 0x66]],  // "medf"
        Script::MeeteiMayek => &[[0x6Du8, 0x74, 0x65, 0x69]],  // "mtei"
        Script::MendeKikakui => &[[0x6Du8, 0x65, 0x6E, 0x64]],  // "mend"
        Script::MeroiticCursive => &[[0x6Du8, 0x65, 0x72, 0x63]],  // "merc"
        Script::MeroiticHieroglyphs => &[[0x6Du8, 0x65, 0x72, 0x6F]],  // "mero"
        Script::Miao => &[[0x70u8, 0x6C, 0x72, 0x64]],  // "plrd"
        Script::Modi => &[[0x6Du8, 0x6F, 0x64, 0x69]],  // "modi"
        Script::Mro => &[[0x6Du8, 0x72, 0x6F, 0x6F]],  // "mroo"
        Script::Multani => &[[0x6Du8, 0x75, 0x6C, 0x74]],  // "mult"
        Script::Nabataean => &[[0x6Eu8, 0x62, 0x61, 0x74]],  // "nbat"
        Script::NagMundari => &[[0x6Eu8, 0x61, 0x67, 0x6D]],  // "nagm"
        Script::Nandinagari => &[[0x6Eu8, 0x61, 0x6E, 0x64]],  // "nand"
        Script::Newa => &[[0x6Eu8, 0x65, 0x77, 0x61]],  // "newa"
        Script::NewTaiLue => &[[0x74u8, 0x61, 0x6C, 0x75]],  // "talu"
        Script::Nushu => &[[0x6Eu8, 0x73, 0x68, 0x75]],  // "nshu"
        Script::NyiakengPuachueHmong => &[[0x68u8, 0x6D, 0x6E, 0x70]],  // "hmnp"
        Script::Ogham => &[[0x6Fu8, 0x67, 0x61, 0x6D]],  // "ogam"
        Script::OlChiki => &[[0x6Fu8, 0x6C, 0x63, 0x6B]],  // "olck"
        Script::OlOnal => &[[0x6Fu8, 0x6E, 0x61, 0x6F]],  // "onao"
        Script::OldHungarian => &[[0x68u8, 0x75, 0x6E, 0x67]],  // "hung"
        Script::OldItalic => &[[0x69u8, 0x74, 0x61, 0x6C]],  // "ital"
        Script::OldNorthArabian => &[[0x6Eu8, 0x61, 0x72, 0x62]],  // "narb"
        Script::OldPermic => &[[0x70u8, 0x65, 0x72, 0x6D]],  // "perm"
        Script::OldPersian => &[[0x78u8, 0x70, 0x65, 0x6F]],  // "xpeo"
        Script::OldSogdian => &[[0x73u8, 0x6F, 0x67, 0x6F]],  // "sogo"
        Script::OldSouthArabian => &[[0x73u8, 0x61, 0x72, 0x62]],  // "sarb"
        Script::OldTurkic => &[[0x6Fu8, 0x72, 0x6B, 0x68]],  // "orkh"
        Script::OldUyghur => &[[0x6Fu8, 0x75, 0x67, 0x72]],  // "ougr"
        Script::Osage => &[[0x6Fu8, 0x73, 0x67, 0x65]],  // "osge"
        Script::Osmanya => &[[0x6Fu8, 0x73, 0x6D, 0x61]],  // "osma"
        Script::PahawhHmong => &[[0x68u8, 0x6D, 0x6E, 0x67]],  // "hmng"
        Script::Palmyrene => &[[0x70u8, 0x61, 0x6C, 0x6D]],  // "palm"
        Script::PauCinHau => &[[0x70u8, 0x61, 0x75, 0x63]],  // "pauc"
        Script::PhagsPa => &[[0x70u8, 0x68, 0x61, 0x67]],  // "phag"
        Script::Phoenician => &[[0x70u8, 0x68, 0x6E, 0x78]],  // "phnx"
        Script::PsalterPahlavi => &[[0x70u8, 0x68, 0x6C, 0x70]],  // "phlp"
        Script::Rejang => &[[0x72u8, 0x6A, 0x6E, 0x67]],  // "rjng"
        Script::Runic => &[[0x72u8, 0x75, 0x6E, 0x72]],  // "runr"
        Script::Samaritan => &[[0x73u8, 0x61, 0x6D, 0x72]],  // "samr"
        Script::Saurashtra => &[[0x73u8, 0x61, 0x75, 0x72]],  // "saur"
        Script::Sharada => &[[0x73u8, 0x68, 0x72, 0x64]],  // "shrd"
        Script::Shavian => &[[0x73u8, 0x68, 0x61, 0x77]],  // "shaw"
        Script::Siddham => &[[0x73u8, 0x69, 0x64, 0x64]],  // "sidd"
        Script::Sidetic => &[[0x73u8, 0x69, 0x64, 0x74]],  // "sidt"
        Script::SignWriting => &[[0x73u8, 0x67, 0x6E, 0x77]],  // "sgnw"
        Script::Sogdian => &[[0x73u8, 0x6F, 0x67, 0x64]],  // "sogd"
        Script::SoraSompeng => &[[0x73u8, 0x6F, 0x72, 0x61]],  // "sora"
        Script::Soyombo => &[[0x73u8, 0x6F, 0x79, 0x6F]],  // "soyo"
        Script::Sundanese => &[[0x73u8, 0x75, 0x6E, 0x64]],  // "sund"
        Script::Sunuwar => &[[0x73u8, 0x75, 0x6E, 0x75]],  // "sunu"
        Script::SylotiNagri => &[[0x73u8, 0x79, 0x6C, 0x6F]],  // "sylo"
        Script::Tagalog => &[[0x74u8, 0x67, 0x6C, 0x67]],  // "tglg"
        Script::Tagbanwa => &[[0x74u8, 0x61, 0x67, 0x62]],  // "tagb"
        Script::TaiLe => &[[0x74u8, 0x61, 0x6C, 0x65]],  // "tale"
        Script::TaiTham => &[[0x6Cu8, 0x61, 0x6E, 0x61]],  // "lana"
        Script::TaiViet => &[[0x74u8, 0x61, 0x76, 0x74]],  // "tavt"
        Script::TaiYo => &[[0x74u8, 0x61, 0x79, 0x6F]],  // "tayo"
        Script::Takri => &[[0x74u8, 0x61, 0x6B, 0x72]],  // "takr"
        Script::Tangsa => &[[0x74u8, 0x6E, 0x73, 0x61]],  // "tnsa"
        Script::Tangut => &[[0x74u8, 0x61, 0x6E, 0x67]],  // "tang"
        Script::Tifinagh => &[[0x74u8, 0x66, 0x6E, 0x67]],  // "tfng"
        Script::Tirhuta => &[[0x74u8, 0x69, 0x72, 0x68]],  // "tirh"
        Script::Todhri => &[[0x74u8, 0x6F, 0x64, 0x72]],  // "todr"
        Script::TolongSiki => &[[0x74u8, 0x6F, 0x6C, 0x73]],  // "tols"
        Script::Toto => &[[0x74u8, 0x6F, 0x74, 0x6F]],  // "toto"
        Script::TuluTigalari => &[[0x74u8, 0x75, 0x74, 0x67]],  // "tutg"
        Script::Ugaritic => &[[0x75u8, 0x67, 0x61, 0x72]],  // "ugar"
        Script::Vai => &[[0x76u8, 0x61, 0x69, 0x20]],  // "vai "
        Script::Vithkuqi => &[[0x76u8, 0x69, 0x74, 0x68]],  // "vith"
        Script::Wancho => &[[0x77u8, 0x63, 0x68, 0x6F]],  // "wcho"
        Script::WarangCiti => &[[0x77u8, 0x61, 0x72, 0x61]],  // "wara"
        Script::Yezidi => &[[0x79u8, 0x65, 0x7A, 0x69]],  // "yezi"
        Script::Yi => &[[0x79u8, 0x69, 0x20, 0x20]],  // "yi  "
        Script::ZanabazarSquare => &[[0x7Au8, 0x61, 0x6E, 0x62]],  // "zanb"
        Script::BeriaErfe => &[[0x62u8, 0x65, 0x72, 0x66]],  // "berf"
        Script::Common | Script::Inherited | Script::Unknown => &[[0x44u8, 0x46, 0x4C, 0x54]],  // "DFLT"
    }
}

/// The primary (modern) OpenType script tag of a Unicode script.
pub fn ot_script_tag(s: Script) -> (r: [u8; 4])
    ensures
        r == script_tags_spec(s)[0],
{
    ot_script_tags(s)[0]
}

} // verus!
