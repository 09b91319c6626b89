//! `post` table (PostScript glyph names): parsing and glyph-name
//! resolution for formats 1.0, 2.0, 2.5 and 3.0.

use vstd::prelude::*;
use vstd::utf8::{valid_utf8, decode_utf8};

verus! {

/// The standard Macintosh glyph name at index `idx`, in the canonical
/// 258-name ordering; `None` from index 258 on.
pub open spec fn mac_glyph_name(idx: u16) -> Option<&'static str> {
    match idx {
        0 => Some(".notdef"),
        1 => Some(".null"),
        2 => Some("nonmarkingreturn"),
        3 => Some("space"),
        4 => Some("exclam"),
        5 => Some("quotedbl"),
        6 => Some("numbersign"),
        7 => Some("dollar"),
        8 => Some("percent"),
        9 => Some("ampersand"),
        10 => Some("quotesingle"),
        11 => Some("parenleft"),
        12 => Some("parenright"),
        13 => Some("asterisk"),
        14 => Some("plus"),
        15 => Some("comma"),
        16 => Some("hyphen"),
        17 => Some("period"),
        18 => Some("slash"),
        19 => Some("zero"),
        20 => Some("one"),
        21 => Some("two"),
        22 => Some("three"),
        23 => Some("four"),
        24 => Some("five"),
        25 => Some("six"),
        26 => Some("seven"),
        27 => Some("eight"),
        28 => Some("nine"),
        29 => Some("colon"),
        30 => Some("semicolon"),
        31 => Some("less"),
        32 => Some("equal"),
        33 => Some("greater"),
        34 => Some("question"),
        35 => Some("at"),
        36 => Some("A"),
        37 => Some("B"),
        38 => Some("C"),
        39 => Some("D"),
        40 => Some("E"),
        41 => Some("F"),
        42 => Some("G"),
        43 => Some("H"),
        44 => Some("I"),
        45 => Some("J"),
        46 => Some("K"),
        47 => Some("L"),
        48 => Some("M"),
        49 => Some("N"),
        50 => Some("O"),
        51 => Some("P"),
        52 => Some("Q"),
        53 => Some("R"),
        54 => Some("S"),
        55 => Some("T"),
        56 => Some("U"),
        57 => Some("V"),
        58 => Some("W"),
        59 => Some("X"),
        60 => Some("Y"),
        61 => Some("Z"),
        62 => Some("bracketleft"),
        63 => Some("backslash"),
        64 => Some("bracketright"),
        65 => Some("asciicircum"),
        66 => Some("underscore"),
        67 => Some("grave"),
        68 => Some("a"),
        69 => Some("b"),
        70 => Some("c"),
        71 => Some("d"),
        72 => Some("e"),
        73 => Some("f"),
        74 => Some("g"),
        75 => Some("h"),
        76 => Some("i"),
        77 => Some("j"),
        78 => Some("k"),
        79 => Some("l"),
        80 => Some("m"),
        81 => Some("n"),
        82 => Some("o"),
        83 => Some("p"),
        84 => Some("q"),
        85 => Some("r"),
        86 => Some("s"),
        87 => Some("t"),
        88 => Some("u"),
        89 => Some("v"),
        90 => Some("w"),
        91 => Some("x"),
        92 => Some("y"),
        93 => Some("z"),
        94 => Some("braceleft"),
        95 => Some("bar"),
        96 => Some("braceright"),
        97 => Some("asciitilde"),
        98 => Some("Adieresis"),
        99 => Some("Aring"),
        100 => Some("Ccedilla"),
        101 => Some("Eacute"),
        102 => Some("Ntilde"),
        103 => Some("Odieresis"),
        104 => Some("Udieresis"),
        105 => Some("aacute"),
        106 => Some("agrave"),
        107 => Some("acircumflex"),
        108 => Some("adieresis"),
        109 => Some("atilde"),
        110 => Some("aring"),
        111 => Some("ccedilla"),
        112 => Some("eacute"),
        113 => Some("egrave"),
        114 => Some("ecircumflex"),
        115 => Some("edieresis"),
        116 => Some("iacute"),
        117 => Some("igrave"),
        118 => Some("icircumflex"),
        119 => Some("idieresis"),
        120 => Some("ntilde"),
        121 => Some("oacute"),
        122 => Some("ograve"),
        123 => Some("ocircumflex"),
        124 => Some("odieresis"),
        125 => Some("otilde"),
        126 => Some("uacute"),
        127 => Some("ugrave"),
        128 => Some("ucircumflex"),
        129 => Some("udieresis"),
        130 => Some("dagger"),
        131 => Some("degree"),
        132 => Some("cent"),
        133 => Some("sterling"),
        134 => Some("section"),
        135 => Some("bullet"),
        136 => Some("paragraph"),
        137 => Some("germandbls"),
        138 => Some("registered"),
        139 => Some("copyright"),
        140 => Some("trademark"),
        141 => Some("acute"),
        142 => Some("dieresis"),
        143 => Some("notequal"),
        144 => Some("AE"),
        145 => Some("Oslash"),
        146 => Some("infinity"),
        147 => Some("plusminus"),
        148 => Some("lessequal"),
        149 => Some("greaterequal"),
        150 => Some("yen"),
        151 => Some("mu"),
        152 => Some("partialdiff"),
        153 => Some("summation"),
        154 => Some("product"),
        155 => Some("pi"),
        156 => Some("integral"),
        157 => Some("ordfeminine"),
        158 => Some("ordmasculine"),
        159 => Some("Omega"),
        160 => Some("ae"),
        161 => Some("oslash"),
        162 => Some("questiondown"),
        163 => Some("exclamdown"),
        164 => Some("logicalnot"),
        165 => Some("radical"),
        166 => Some("florin"),
        167 => Some("approxequal"),
        168 => Some("Delta"),
        169 => Some("guillemotleft"),
        170 => Some("guillemotright"),
        171 => Some("ellipsis"),
        172 => Some("nonbreakingspace"),
        173 => Some("Agrave"),
        174 => Some("Atilde"),
        175 => Some("Otilde"),
        176 => Some("OE"),
        177 => Some("oe"),
        178 => Some("endash"),
        179 => Some("emdash"),
        180 => Some("quotedblleft"),
        181 => Some("quotedblright"),
        182 => Some("quoteleft"),
        183 => Some("quoteright"),
        184 => Some("divide"),
        185 => Some("lozenge"),
        186 => Some("ydieresis"),
        187 => Some("Ydieresis"),
        188 => Some("fraction"),
        189 => Some("currency"),
        190 => Some("guilsinglleft"),
        191 => Some("guilsinglright"),
        192 => Some("fi"),
        193 => Some("fl"),
        194 => Some("daggerdbl"),
        195 => Some("periodcentered"),
        196 => Some("quotesinglbase"),
        197 => Some("quotedblbase"),
        198 => Some("perthousand"),
        199 => Some("Acircumflex"),
        200 => Some("Ecircumflex"),
        201 => Some("Aacute"),
        202 => Some("Edieresis"),
        203 => Some("Egrave"),
        204 => Some("Iacute"),
        205 => Some("Icircumflex"),
        206 => Some("Idieresis"),
        207 => Some("Igrave"),
        208 => Some("Oacute"),
        209 => Some("Ocircumflex"),
        210 => Some("apple"),
        211 => Some("Ograve"),
        212 => Some("Uacute"),
        213 => Some("Ucircumflex"),
        214 => Some("Ugrave"),
        215 => Some("dotlessi"),
        216 => Some("circumflex"),
        217 => Some("tilde"),
        218 => Some("macron"),
        219 => Some("breve"),
        220 => Some("dotaccent"),
        221 => Some("ring"),
        222 => Some("cedilla"),
        223 => Some("hungarumlaut"),
        224 => Some("ogonek"),
        225 => Some("caron"),
        226 => Some("Lslash"),
        227 => Some("lslash"),
        228 => Some("Scaron"),
        229 => Some("scaron"),
        230 => Some("Zcaron"),
        231 => Some("zcaron"),
        232 => Some("brokenbar"),
        233 => Some("Eth"),
        234 => Some("eth"),
        235 => Some("Yacute"),
        236 => Some("yacute"),
        237 => Some("Thorn"),
        238 => Some("thorn"),
        239 => Some("minus"),
        240 => Some("multiply"),
        241 => Some("onesuperior"),
        242 => Some("twosuperior"),
        243 => Some("threesuperior"),
        244 => Some("onehalf"),
        245 => Some("onequarter"),
        246 => Some("threequarters"),
        247 => Some("franc"),
        248 => Some("Gbreve"),
        249 => Some("gbreve"),
        250 => Some("Idotaccent"),
        251 => Some("Scedilla"),
        252 => Some("scedilla"),
        253 => Some("Cacute"),
        254 => Some("cacute"),
        255 => Some("Ccaron"),
        256 => Some("ccaron"),
        257 => Some("dcroat"),
        _ => None,
    }
}

/// Entry `i` of Apple's list of the 258 standard Macintosh glyph names
/// (the TrueType `post` table's standard order); the empty string past
/// its end.
pub open spec fn apple_standard_glyph_name(i: u16) -> &'static str {
    match i {
        0 => ".notdef",
        1 => ".null",
        2 => "nonmarkingreturn",
        3 => "space",
        4 => "exclam",
        5 => "quotedbl",
        6 => "numbersign",
        7 => "dollar",
        8 => "percent",
        9 => "ampersand",
        10 => "quotesingle",
        11 => "parenleft",
        12 => "parenright",
        13 => "asterisk",
        14 => "plus",
        15 => "comma",
        16 => "hyphen",
        17 => "period",
        18 => "slash",
        19 => "zero",
        20 => "one",
        21 => "two",
        22 => "three",
        23 => "four",
        24 => "five",
        25 => "six",
        26 => "seven",
        27 => "eight",
        28 => "nine",
        29 => "colon",
        30 => "semicolon",
        31 => "less",
        32 => "equal",
        33 => "greater",
        34 => "question",
        35 => "at",
        36 => "A",
        37 => "B",
        38 => "C",
        39 => "D",
        40 => "E",
        41 => "F",
        42 => "G",
        43 => "H",
        44 => "I",
        45 => "J",
        46 => "K",
        47 => "L",
        48 => "M",
        49 => "N",
        50 => "O",
        51 => "P",
        52 => "Q",
        53 => "R",
        54 => "S",
        55 => "T",
        56 => "U",
        57 => "V",
        58 => "W",
        59 => "X",
        60 => "Y",
        61 => "Z",
        62 => "bracketleft",
        63 => "backslash",
        64 => "bracketright",
        65 => "asciicircum",
        66 => "underscore",
        67 => "grave",
        68 => "a",
        69 => "b",
        70 => "c",
        71 => "d",
        72 => "e",
        73 => "f",
        74 => "g",
        75 => "h",
        76 => "i",
        77 => "j",
        78 => "k",
        79 => "l",
        80 => "m",
        81 => "n",
        82 => "o",
        83 => "p",
        84 => "q",
        85 => "r",
        86 => "s",
        87 => "t",
        88 => "u",
        89 => "v",
        90 => "w",
        91 => "x",
        92 => "y",
        93 => "z",
        94 => "braceleft",
        95 => "bar",
        96 => "braceright",
        97 => "asciitilde",
        98 => "Adieresis",
        99 => "Aring",
        100 => "Ccedilla",
        101 => "Eacute",
        102 => "Ntilde",
        103 => "Odieresis",
        104 => "Udieresis",
        105 => "aacute",
        106 => "agrave",
        107 => "acircumflex",
        108 => "adieresis",
        109 => "atilde",
        110 => "aring",
        111 => "ccedilla",
        112 => "eacute",
        113 => "egrave",
        114 => "ecircumflex",
        115 => "edieresis",
        116 => "iacute",
        117 => "igrave",
        118 => "icircumflex",
        119 => "idieresis",
        120 => "ntilde",
        121 => "oacute",
        122 => "ograve",
        123 => "ocircumflex",
        124 => "odieresis",
        125 => "otilde",
        126 => "uacute",
        127 => "ugrave",
        128 => "ucircumflex",
        129 => "udieresis",
        130 => "dagger",
        131 => "degree",
        132 => "cent",
        133 => "sterling",
        134 => "section",
        135 => "bullet",
        136 => "paragraph",
        137 => "germandbls",
        138 => "registered",
        139 => "copyright",
        140 => "trademark",
        141 => "acute",
        142 => "dieresis",
        143 => "notequal",
        144 => "AE",
        145 => "Oslash",
        146 => "infinity",
        147 => "plusminus",
        148 => "lessequal",
        149 => "greaterequal",
        150 => "yen",
        151 => "mu",
        152 => "partialdiff",
        153 => "summation",
        154 => "product",
        155 => "pi",
        156 => "integral",
        157 => "ordfeminine",
        158 => "ordmasculine",
        159 => "Omega",
        160 => "ae",
        161 => "oslash",
        162 => "questiondown",
        163 => "exclamdown",
        164 => "logicalnot",
        165 => "radical",
        166 => "florin",
        167 => "approxequal",
        168 => "Delta",
        169 => "guillemotleft",
        170 => "guillemotright",
        171 => "ellipsis",
        172 => "nonbreakingspace",
        173 => "Agrave",
        174 => "Atilde",
        175 => "Otilde",
        176 => "OE",
        177 => "oe",
        178 => "endash",
        179 => "emdash",
        180 => "quotedblleft",
        181 => "quotedblright",
        182 => "quoteleft",
        183 => "quoteright",
        184 => "divide",
        185 => "lozenge",
        186 => "ydieresis",
        187 => "Ydieresis",
        188 => "fraction",
        189 => "currency",
        190 => "guilsinglleft",
        191 => "guilsinglright",
        192 => "fi",
        193 => "fl",
        194 => "daggerdbl",
        195 => "periodcentered",
        196 => "quotesinglbase",
        197 => "quotedblbase",
        198 => "perthousand",
        199 => "Acircumflex",
        200 => "Ecircumflex",
        201 => "Aacute",
        202 => "Edieresis",
        203 => "Egrave",
        204 => "Iacute",
        205 => "Icircumflex",
        206 => "Idieresis",
        207 => "Igrave",
        208 => "Oacute",
        209 => "Ocircumflex",
        210 => "apple",
        211 => "Ograve",
        212 => "Uacute",
        213 => "Ucircumflex",
        214 => "Ugrave",
        215 => "dotlessi",
        216 => "circumflex",
        217 => "tilde",
        218 => "macron",
        219 => "breve",
        220 => "dotaccent",
        221 => "ring",
        222 => "cedilla",
        223 => "hungarumlaut",
        224 => "ogonek",
        225 => "caron",
        226 => "Lslash",
        227 => "lslash",
        228 => "Scaron",
        229 => "scaron",
        230 => "Zcaron",
        231 => "zcaron",
        232 => "brokenbar",
        233 => "Eth",
        234 => "eth",
        235 => "Yacute",
        236 => "yacute",
        237 => "Thorn",
        238 => "thorn",
        239 => "minus",
        240 => "multiply",
        241 => "onesuperior",
        242 => "twosuperior",
        243 => "threesuperior",
        244 => "onehalf",
        245 => "onequarter",
        246 => "threequarters",
        247 => "franc",
        248 => "Gbreve",
        249 => "gbreve",
        250 => "Idotaccent",
        251 => "Scedilla",
        252 => "scedilla",
        253 => "Cacute",
        254 => "cacute",
        255 => "Ccaron",
        256 => "ccaron",
        257 => "dcroat",
        _ => "",
    }
}

/// The standard Macintosh names follow Apple's list entry by entry:
/// index `i` names entry `i` of that list, and no index from 258 on has
/// a standard name.
pub proof fn lemma_mac_names_follow_apple_order(idx: u16)
    ensures
        idx < 258 ==> mac_glyph_name(idx) == Some(apple_standard_glyph_name(idx)),
        idx >= 258 ==> mac_glyph_name(idx) is None,
{
}

/// The letter of the Latin alphabet that standard index `idx` names:
/// `A`..`Z` from index 36, `a`..`z` from index 68.
pub open spec fn mac_letter(idx: u16) -> char {
    if idx < 62 {
        (idx - 36 + 65) as char
    } else {
        (idx - 68 + 97) as char
    }
}

/// The standard names of indices 36 to 61 are the capital letters and
/// those of 68 to 93 the small letters, each name the letter itself, in
/// alphabetical order.
pub proof fn lemma_mac_letter_names(idx: u16)
    requires
        36 <= idx < 62 || 68 <= idx < 94,
    ensures
        mac_glyph_name(idx) matches Some(n) && n@ == seq![mac_letter(idx)],
{
    reveal_strlit("A");
    reveal_strlit("B");
    reveal_strlit("C");
    reveal_strlit("D");
    reveal_strlit("E");
    reveal_strlit("F");
    reveal_strlit("G");
    reveal_strlit("H");
    reveal_strlit("I");
    reveal_strlit("J");
    reveal_strlit("K");
    reveal_strlit("L");
    reveal_strlit("M");
    reveal_strlit("N");
    reveal_strlit("O");
    reveal_strlit("P");
    reveal_strlit("Q");
    reveal_strlit("R");
    reveal_strlit("S");
    reveal_strlit("T");
    reveal_strlit("U");
    reveal_strlit("V");
    reveal_strlit("W");
    reveal_strlit("X");
    reveal_strlit("Y");
    reveal_strlit("Z");
    reveal_strlit("a");
    reveal_strlit("b");
    reveal_strlit("c");
    reveal_strlit("d");
    reveal_strlit("e");
    reveal_strlit("f");
    reveal_strlit("g");
    reveal_strlit("h");
    reveal_strlit("i");
    reveal_strlit("j");
    reveal_strlit("k");
    reveal_strlit("l");
    reveal_strlit("m");
    reveal_strlit("n");
    reveal_strlit("o");
    reveal_strlit("p");
    reveal_strlit("q");
    reveal_strlit("r");
    reveal_strlit("s");
    reveal_strlit("t");
    reveal_strlit("u");
    reveal_strlit("v");
    reveal_strlit("w");
    reveal_strlit("x");
    reveal_strlit("y");
    reveal_strlit("z");
}

/// Return the standard Macintosh glyph name for a standard index, or
/// `None` if `idx >= 258`.
pub fn standard_mac_glyph_name(idx: u16) -> (r: Option<&'static str>)
    ensures
        r == mac_glyph_name(idx),
        r is Some <==> idx < 258,
{
    match idx {
        0 => Some(".notdef"),
        1 => Some(".null"),
        2 => Some("nonmarkingreturn"),
        3 => Some("space"),
        4 => Some("exclam"),
        5 => Some("quotedbl"),
        6 => Some("numbersign"),
        7 => Some("dollar"),
        8 => Some("percent"),
        9 => Some("ampersand"),
        10 => Some("quotesingle"),
        11 => Some("parenleft"),
        12 => Some("parenright"),
        13 => Some("asterisk"),
        14 => Some("plus"),
        15 => Some("comma"),
        16 => Some("hyphen"),
        17 => Some("period"),
        18 => Some("slash"),
        19 => Some("zero"),
        20 => Some("one"),
        21 => Some("two"),
        22 => Some("three"),
        23 => Some("four"),
        24 => Some("five"),
        25 => Some("six"),
        26 => Some("seven"),
        27 => Some("eight"),
        28 => Some("nine"),
        29 => Some("colon"),
        30 => Some("semicolon"),
        31 => Some("less"),
        32 => Some("equal"),
        33 => Some("greater"),
        34 => Some("question"),
        35 => Some("at"),
        36 => Some("A"),
        37 => Some("B"),
        38 => Some("C"),
        39 => Some("D"),
        40 => Some("E"),
        41 => Some("F"),
        42 => Some("G"),
        43 => Some("H"),
        44 => Some("I"),
        45 => Some("J"),
        46 => Some("K"),
        47 => Some("L"),
        48 => Some("M"),
        49 => Some("N"),
        50 => Some("O"),
        51 => Some("P"),
        52 => Some("Q"),
        53 => Some("R"),
        54 => Some("S"),
        55 => Some("T"),
        56 => Some("U"),
        57 => Some("V"),
        58 => Some("W"),
        59 => Some("X"),
        60 => Some("Y"),
        61 => Some("Z"),
        62 => Some("bracketleft"),
        63 => Some("backslash"),
        64 => Some("bracketright"),
        65 => Some("asciicircum"),
        66 => Some("underscore"),
        67 => Some("grave"),
        68 => Some("a"),
        69 => Some("b"),
        70 => Some("c"),
        71 => Some("d"),
        72 => Some("e"),
        73 => Some("f"),
        74 => Some("g"),
        75 => Some("h"),
        76 => Some("i"),
        77 => Some("j"),
        78 => Some("k"),
        79 => Some("l"),
        80 => Some("m"),
        81 => Some("n"),
        82 => Some("o"),
        83 => Some("p"),
        84 => Some("q"),
        85 => Some("r"),
        86 => Some("s"),
        87 => Some("t"),
        88 => Some("u"),
        89 => Some("v"),
        90 => Some("w"),
        91 => Some("x"),
        92 => Some("y"),
        93 => Some("z"),
        94 => Some("braceleft"),
        95 => Some("bar"),
        96 => Some("braceright"),
        97 => Some("asciitilde"),
        98 => Some("Adieresis"),
        99 => Some("Aring"),
        100 => Some("Ccedilla"),
        101 => Some("Eacute"),
        102 => Some("Ntilde"),
        103 => Some("Odieresis"),
        104 => Some("Udieresis"),
        105 => Some("aacute"),
        106 => Some("agrave"),
        107 => Some("acircumflex"),
        108 => Some("adieresis"),
        109 => Some("atilde"),
        110 => Some("aring"),
        111 => Some("ccedilla"),
        112 => Some("eacute"),
        113 => Some("egrave"),
        114 => Some("ecircumflex"),
        115 => Some("edieresis"),
        116 => Some("iacute"),
        117 => Some("igrave"),
        118 => Some("icircumflex"),
        119 => Some("idieresis"),
        120 => Some("ntilde"),
        121 => Some("oacute"),
        122 => Some("ograve"),
        123 => Some("ocircumflex"),
        124 => Some("odieresis"),
        125 => Some("otilde"),
        126 => Some("uacute"),
        127 => Some("ugrave"),
        128 => Some("ucircumflex"),
        129 => Some("udieresis"),
        130 => Some("dagger"),
        131 => Some("degree"),
        132 => Some("cent"),
        133 => Some("sterling"),
        134 => Some("section"),
        135 => Some("bullet"),
        136 => Some("paragraph"),
        137 => Some("germandbls"),
        138 => Some("registered"),
        139 => Some("copyright"),
        140 => Some("trademark"),
        141 => Some("acute"),
        142 => Some("dieresis"),
        143 => Some("notequal"),
        144 => Some("AE"),
        145 => Some("Oslash"),
        146 => Some("infinity"),
        147 => Some("plusminus"),
        148 => Some("lessequal"),
        149 => Some("greaterequal"),
        150 => Some("yen"),
        151 => Some("mu"),
        152 => Some("partialdiff"),
        153 => Some("summation"),
        154 => Some("product"),
        155 => Some("pi"),
        156 => Some("integral"),
        157 => Some("ordfeminine"),
        158 => Some("ordmasculine"),
        159 => Some("Omega"),
        160 => Some("ae"),
        161 => Some("oslash"),
        162 => Some("questiondown"),
        163 => Some("exclamdown"),
        164 => Some("logicalnot"),
        165 => Some("radical"),
        166 => Some("florin"),
        167 => Some("approxequal"),
        168 => Some("Delta"),
        169 => Some("guillemotleft"),
        170 => Some("guillemotright"),
        171 => Some("ellipsis"),
        172 => Some("nonbreakingspace"),
        173 => Some("Agrave"),
        174 => Some("Atilde"),
        175 => Some("Otilde"),
        176 => Some("OE"),
        177 => Some("oe"),
        178 => Some("endash"),
        179 => Some("emdash"),
        180 => Some("quotedblleft"),
        181 => Some("quotedblright"),
        182 => Some("quoteleft"),
        183 => Some("quoteright"),
        184 => Some("divide"),
        185 => Some("lozenge"),
        186 => Some("ydieresis"),
        187 => Some("Ydieresis"),
        188 => Some("fraction"),
        189 => Some("currency"),
        190 => Some("guilsinglleft"),
        191 => Some("guilsinglright"),
        192 => Some("fi"),
        193 => Some("fl"),
        194 => Some("daggerdbl"),
        195 => Some("periodcentered"),
        196 => Some("quotesinglbase"),
        197 => Some("quotedblbase"),
        198 => Some("perthousand"),
        199 => Some("Acircumflex"),
        200 => Some("Ecircumflex"),
        201 => Some("Aacute"),
        202 => Some("Edieresis"),
        203 => Some("Egrave"),
        204 => Some("Iacute"),
        205 => Some("Icircumflex"),
        206 => Some("Idieresis"),
        207 => Some("Igrave"),
        208 => Some("Oacute"),
        209 => Some("Ocircumflex"),
        210 => Some("apple"),
        211 => Some("Ograve"),
        212 => Some("Uacute"),
        213 => Some("Ucircumflex"),
        214 => Some("Ugrave"),
        215 => Some("dotlessi"),
        216 => Some("circumflex"),
        217 => Some("tilde"),
        218 => Some("macron"),
        219 => Some("breve"),
        220 => Some("dotaccent"),
        221 => Some("ring"),
        222 => Some("cedilla"),
        223 => Some("hungarumlaut"),
        224 => Some("ogonek"),
        225 => Some("caron"),
        226 => Some("Lslash"),
        227 => Some("lslash"),
        228 => Some("Scaron"),
        229 => Some("scaron"),
        230 => Some("Zcaron"),
        231 => Some("zcaron"),
        232 => Some("brokenbar"),
        233 => Some("Eth"),
        234 => Some("eth"),
        235 => Some("Yacute"),
        236 => Some("yacute"),
        237 => Some("Thorn"),
        238 => Some("thorn"),
        239 => Some("minus"),
        240 => Some("multiply"),
        241 => Some("onesuperior"),
        242 => Some("twosuperior"),
        243 => Some("threesuperior"),
        244 => Some("onehalf"),
        245 => Some("onequarter"),
        246 => Some("threequarters"),
        247 => Some("franc"),
        248 => Some("Gbreve"),
        249 => Some("gbreve"),
        250 => Some("Idotaccent"),
        251 => Some("Scedilla"),
        252 => Some("scedilla"),
        253 => Some("Cacute"),
        254 => Some("cacute"),
        255 => Some("Ccaron"),
        256 => Some("ccaron"),
        257 => Some("dcroat"),
        _ => None,
    }
}

/// The characters `String::from_utf8_lossy` makes of `bytes`.
pub uninterp spec fn utf8_lossy(bytes: Seq<u8>) -> Seq<char>;

/// Calls `String::from_utf8_lossy` and takes ownership of the result.
/// Claims: the result is named [`utf8_lossy`] of the bytes, and for
/// valid UTF-8 it is exactly the decoded text (the documentation of
/// `from_utf8_lossy` promises this; invalid sequences become U+FFFD,
/// which is left unsaid).
#[verifier::external_body]
fn string_from_utf8_lossy(bytes: &[u8]) -> (r: String)
    ensures
        r@ == utf8_lossy(bytes@),
        valid_utf8(bytes@) ==> r@ == decode_utf8(bytes@),
{
    String::from_utf8_lossy(bytes).into_owned()
}

/// A big-endian 16-bit value.
pub open spec fn be16(b0: u8, b1: u8) -> u16 {
    (b0 as int * 256 + b1 as int) as u16
}

/// A big-endian 32-bit value.
pub open spec fn be32(b0: u8, b1: u8, b2: u8, b3: u8) -> u32 {
    (b0 as int * 0x1000000 + b1 as int * 0x10000 + b2 as int * 0x100 + b3 as int) as u32
}

/// What a `post` table holds, by format: 1.0 names its glyphs by the
/// standard ordering; 2.0 has an index per glyph into the standard
/// ordering (below 258) or its own Pascal strings; 2.5 has a signed
/// offset per glyph into the standard ordering; 3.0 (or an unknown
/// version) names nothing.
pub enum PostModel {
    /// Format 1.0 with its (implied) glyph count.
    Standard { num_glyphs: u16 },
    /// Format 2.0: the glyph name indices and the custom names read.
    Custom { index: Seq<u16>, custom: Seq<Seq<char>> },
    /// Format 2.5: the per-glyph offsets.
    Delta { offsets: Seq<i8> },
    /// Format 3.0 or an unknown version.
    NoNames,
}

/// The greatest custom-name number (`index - 258`) among the first `k`
/// indices, or `-1` when none is custom.
pub open spec fn max_custom(index: Seq<u16>, k: int) -> int
    decreases k,
{
    if k <= 0 {
        -1
    } else {
        let m = max_custom(index, k - 1);
        let v = index[k - 1];
        if v >= 258 && v - 258 > m {
            v - 258
        } else {
            m
        }
    }
}

/// The Pascal strings of `body` read from `cur` on, at most `want` of
/// them, stopping at the end of the data or at a truncated string.
pub open spec fn pascal_strings(body: Seq<u8>, cur: int, want: int) -> Seq<Seq<char>>
    decreases want,
{
    if want <= 0 || cur < 0 || cur >= body.len() {
        Seq::empty()
    } else {
        let len = body[cur] as int;
        if cur + 1 + len > body.len() {
            Seq::empty()
        } else {
            seq![utf8_lossy(body.subrange(cur + 1, cur + 1 + len))] + pascal_strings(
                body,
                cur + 1 + len,
                want - 1,
            )
        }
    }
}

/// The glyph name indices of a format 2.0 body with `n` glyphs.
pub open spec fn name_indices(body: Seq<u8>, n: int) -> Seq<u16> {
    Seq::new(n as nat, |i: int| be16(body[2 + 2 * i], body[3 + 2 * i]))
}

/// Format 2.0 body: `numGlyphs`, one index per glyph, then as many
/// Pascal strings as the indices reference; `None` when the indices do
/// not fit.
pub open spec fn format2_spec(body: Seq<u8>) -> Option<PostModel> {
    if body.len() < 2 {
        None
    } else {
        let n = be16(body[0], body[1]) as int;
        if body.len() < 2 + 2 * n {
            None
        } else {
            let index = name_indices(body, n);
            Some(
                PostModel::Custom {
                    index,
                    custom: pascal_strings(body, 2 + 2 * n, max_custom(index, n) + 1),
                },
            )
        }
    }
}

/// Format 2.5 body: `numGlyphs`, then one signed offset per glyph;
/// `None` when they do not fit.
pub open spec fn format25_spec(body: Seq<u8>) -> Option<PostModel> {
    if body.len() < 2 {
        None
    } else {
        let n = be16(body[0], body[1]) as int;
        if body.len() < 2 + n {
            None
        } else {
            Some(PostModel::Delta { offsets: body.subrange(2, 2 + n).map_values(|x: u8| x as i8) })
        }
    }
}

/// A whole `post` table: `None` below the 32-byte header or when the
/// format 2.0 / 2.5 data does not fit; an unknown version names
/// nothing.
pub open spec fn post_spec(b: Seq<u8>) -> Option<PostModel> {
    if b.len() < 32 {
        None
    } else {
        let version = be32(b[0], b[1], b[2], b[3]);
        let body = b.subrange(32, b.len() as int);
        if version == 0x0001_0000 {
            Some(PostModel::Standard { num_glyphs: 258 })
        } else if version == 0x0002_0000 {
            format2_spec(body)
        } else if version == 0x0002_8000 {
            format25_spec(body)
        } else {
            Some(PostModel::NoNames)
        }
    }
}

/// The name of a standard index, as characters.
pub open spec fn mac_name_chars(idx: u16) -> Option<Seq<char>> {
    match mac_glyph_name(idx) {
        Some(s) => Some(s@),
        None => None,
    }
}

/// The name a table gives glyph `gid`, if any.
pub open spec fn glyph_name_spec(m: PostModel, gid: u16) -> Option<Seq<char>> {
    match m {
        PostModel::Standard { num_glyphs } => if gid < num_glyphs {
            mac_name_chars(gid)
        } else {
            None
        },
        PostModel::Custom { index, custom } => if gid < index.len() {
            let v = index[gid as int];
            if v < 258 {
                mac_name_chars(v)
            } else if v - 258 < custom.len() {
                Some(custom[v - 258])
            } else {
                None
            }
        } else {
            None
        },
        PostModel::Delta { offsets } => if gid < offsets.len() {
            let std = gid + offsets[gid as int];
            if 0 <= std < 258 {
                mac_name_chars(std as u16)
            } else {
                None
            }
        } else {
            None
        },
        PostModel::NoNames => None,
    }
}

#[derive(Debug, Clone)]
enum PostKind {
    Standard { num_glyphs: u16 },
    Custom { glyph_name_index: Vec<u16>, custom: Vec<String> },
    Delta { offsets: Vec<i8> },
    NoNames,
}

/// A parsed `post` table: enough to resolve a glyph ID to its
/// PostScript name.
#[derive(Debug, Clone)]
pub struct PostTable {
    inner: PostKind,
}

spec fn kind_view(k: PostKind) -> PostModel {
    match k {
        PostKind::Standard { num_glyphs } => PostModel::Standard { num_glyphs },
        PostKind::Custom { glyph_name_index, custom } => PostModel::Custom {
            index: glyph_name_index@,
            custom: custom@.map_values(|s: String| s@),
        },
        PostKind::Delta { offsets } => PostModel::Delta { offsets: offsets@ },
        PostKind::NoNames => PostModel::NoNames,
    }
}

impl View for PostTable {
    type V = PostModel;

    closed spec fn view(&self) -> PostModel {
        kind_view(self.inner)
    }
}

fn read_be16(b: &[u8], o: usize) -> (r: u16)
    requires
        o + 1 < b@.len(),
    ensures
        r == be16(b@[o as int], b@[o + 1]),
{
    (b[o] as u16) * 256 + (b[o + 1] as u16)
}

impl PostTable {
    /// Parse a `post` table from its raw bytes: `None` when the buffer
    /// is shorter than the 32-byte header or than the format 2.0 / 2.5
    /// data it declares. An unknown version names no glyphs.
    pub fn parse(b: &[u8]) -> (r: Option<Self>)
        ensures
            match post_spec(b@) {
                Some(m) => r is Some && r->0@ == m,
                None => r is None,
            },
    {
        if b.len() < 32 {
            return None;
        }
        let version = (b[0] as u32) * 0x1000000 + (b[1] as u32) * 0x10000 + (b[2] as u32) * 0x100
            + (b[3] as u32);
        let body = vstd::slice::slice_subrange(b, 32, b.len());
        let inner = if version == 0x0001_0000 {
            PostKind::Standard { num_glyphs: 258 }
        } else if version == 0x0002_0000 {
            match Self::parse_format2(body) {
                Some(k) => k,
                None => {
                    return None;
                },
            }
        } else if version == 0x0002_8000 {
            match Self::parse_format25(body) {
                Some(k) => k,
                None => {
                    return None;
                },
            }
        } else {
            PostKind::NoNames
        };
        Some(PostTable { inner })
    }

    fn parse_format2(body: &[u8]) -> (r: Option<PostKind>)
        ensures
            match format2_spec(body@) {
                Some(m) => r is Some && kind_view(r->0) == m,
                None => r is None,
            },
    {
        if body.len() < 2 {
            return None;
        }
        let num_glyphs = read_be16(body, 0) as usize;
        let idx_end = 2 + num_glyphs * 2;
        if body.len() < idx_end {
            return None;
        }
        let ghost index = name_indices(body@, num_glyphs as int);
        let mut glyph_name_index: Vec<u16> = Vec::new();
        let mut max_c: i64 = -1;
        for i in 0..num_glyphs
            invariant
                idx_end == 2 + num_glyphs * 2,
                idx_end <= body@.len(),
                index == name_indices(body@, num_glyphs as int),
                glyph_name_index@ == index.take(i as int),
                max_c == max_custom(index, i as int),
                -1 <= max_c < 65536,
        {
            let v = read_be16(body, 2 + i * 2);
            if v >= 258 {
                let c = (v - 258) as i64;
                if c > max_c {
                    max_c = c;
                }
            }
            glyph_name_index.push(v);
            assert(glyph_name_index@ =~= index.take(i + 1));
        }
        assert(index.take(num_glyphs as int) =~= index);
        let ghost want = max_c + 1;
        let ghost full = pascal_strings(body@, idx_end as int, want);
        let mut custom: Vec<String> = Vec::new();
        let mut cur = idx_end;
        loop
            invariant_except_break
                custom@.map_values(|s: String| s@) + pascal_strings(
                    body@,
                    cur as int,
                    want - custom@.len(),
                ) == full,
            invariant
                idx_end <= cur <= body@.len(),
                want == max_c + 1,
                0 <= want <= 65536,
                custom@.len() <= want,
                full == pascal_strings(body@, idx_end as int, want),
            ensures
                custom@.map_values(|s: String| s@) == full,
            decreases body@.len() - cur,
        {
            if cur >= body.len() || (custom.len() as i64) > max_c {
                assert(pascal_strings(body@, cur as int, want - custom@.len()) =~= Seq::<
                    Seq<char>,
                >::empty());
                assert(custom@.map_values(|s: String| s@) =~= full);
                break ;
            }
            let len = body[cur] as usize;
            if len > body.len() - (cur + 1) {
                assert(custom@.map_values(|s: String| s@) =~= full);
                break ;
            }
            let name = string_from_utf8_lossy(vstd::slice::slice_subrange(body, cur + 1, cur + 1 + len));
            let ghost before = custom@;
            custom.push(name);
            assert(custom@.map_values(|s: String| s@) =~= before.map_values(|s: String| s@).push(
                name@,
            ));
            cur = cur + 1 + len;
        }
        Some(PostKind::Custom { glyph_name_index, custom })
    }

    fn parse_format25(body: &[u8]) -> (r: Option<PostKind>)
        ensures
            match format25_spec(body@) {
                Some(m) => r is Some && kind_view(r->0) == m,
                None => r is None,
            },
    {
        if body.len() < 2 {
            return None;
        }
        let num_glyphs = read_be16(body, 0) as usize;
        if body.len() < 2 + num_glyphs {
            return None;
        }
        let mut offsets: Vec<i8> = Vec::new();
        for i in 0..num_glyphs
            invariant
                2 + num_glyphs <= body@.len(),
                num_glyphs <= 65535,
                offsets@ == body@.subrange(2, 2 + i as int).map_values(|x: u8| x as i8),
        {
            offsets.push(body[2 + i] as i8);
            assert(offsets@ =~= body@.subrange(2, 2 + i + 1).map_values(|x: u8| x as i8));
        }
        Some(PostKind::Delta { offsets })
    }

    /// Resolve glyph ID `gid` to its PostScript name: `None` for format
    /// 3.0, a glyph the table does not cover, a custom index past the
    /// stored strings, or a 2.5 offset landing outside the standard
    /// ordering.
    pub fn glyph_name(&self, gid: u16) -> (r: Option<&str>)
        ensures
            match glyph_name_spec(self@, gid) {
                Some(n) => r is Some && r->0@ == n,
                None => r is None,
            },
    {
        match &self.inner {
            PostKind::Standard { num_glyphs } => {
                if gid < *num_glyphs {
                    standard_mac_glyph_name(gid)
                } else {
                    None
                }
            },
            PostKind::Custom { glyph_name_index, custom } => {
                if (gid as usize) < glyph_name_index.len() {
                    let v = glyph_name_index[gid as usize];
                    if v < 258 {
                        standard_mac_glyph_name(v)
                    } else {
                        let c = (v - 258) as usize;
                        if c < custom.len() {
                            Some(custom[c].as_str())
                        } else {
                            None
                        }
                    }
                } else {
                    None
                }
            },
            PostKind::Delta { offsets } => {
                if (gid as usize) < offsets.len() {
                    let off = offsets[gid as usize];
                    let std = gid as i32 + off as i32;
                    if 0 <= std && std < 258 {
                        standard_mac_glyph_name(std as u16)
                    } else {
                        None
                    }
                } else {
                    None
                }
            },
            PostKind::NoNames => None,
        }
    }

    /// `true` when the table can name at least some glyphs (any format
    /// but 3.0).
    pub fn has_names(&self) -> (r: bool)
        ensures
            r == !(self@ is NoNames),
    {
        match &self.inner {
            PostKind::NoNames => false,
            _ => true,
        }
    }
}

} // verus!
