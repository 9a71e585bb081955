//! The color grammar: a narrow parser from one component value to an
//! RGBA or keyword color, over the fixed table of extended color
//! keywords, hex notations, and the `rgb`/`rgba`/`hsl`/`hsla` functions.
//!
//! Channels are held as bytes; the alpha channel is held losslessly as
//! the fraction `alpha_num / alpha_den`. The HSL conversion is computed
//! in integer thousandths.

use crate::ast::ComponentValue;
use crate::nth::cv_skip_ws;
use crate::serializer::hex_digit_char;
use crate::support::{chars_to_string, str_to_chars};
use crate::tokenizer::{exec_lower_char, hex_value, is_hex_digit, lower_seq};
use vstd::prelude::*;

verus! {

/// A color with byte channels and an exact rational alpha in [0, 1].
#[derive(Clone, Copy, PartialEq, Eq, Structural, Debug)]
pub struct RGBA {
    pub red: u8,
    pub green: u8,
    pub blue: u8,
    pub alpha_num: u64,
    pub alpha_den: u64,
}

/// A parsed color value.
#[derive(Clone, Copy, PartialEq, Eq, Structural, Debug)]
pub enum Color {
    CurrentColor,
    RGBA(RGBA),
}

/// Compares a character vector with a string literal.
fn chars_eq_str(v: &Vec<char>, lit: &str) -> (r: bool)
    ensures
        r == (v@ == lit@),
{
    let lv = str_to_chars(lit);
    if v.len() != lv.len() {
        return false;
    }
    let mut i: usize = 0;
    while i < v.len()
        invariant
            i <= v@.len() == lv@.len(),
            lv@ == lit@,
            forall|k: int| 0 <= k < i ==> v@[k] == lit@[k],
        decreases v@.len() - i,
    {
        if v[i] != lv[i] {
            return false;
        }
        i = i + 1;
    }
    proof {
        assert(v@ =~= lit@);
    }
    true
}

pub open spec fn kw_a(l: Seq<char>) -> Option<RGBA> {
    if l == "aliceblue"@ {
        Some(RGBA { red: 240, green: 248, blue: 255, alpha_num: 1, alpha_den: 1 })
    } else     if l == "antiquewhite"@ {
        Some(RGBA { red: 250, green: 235, blue: 215, alpha_num: 1, alpha_den: 1 })
    } else     if l == "aqua"@ {
        Some(RGBA { red: 0, green: 255, blue: 255, alpha_num: 1, alpha_den: 1 })
    } else     if l == "aquamarine"@ {
        Some(RGBA { red: 127, green: 255, blue: 212, alpha_num: 1, alpha_den: 1 })
    } else     if l == "azure"@ {
        Some(RGBA { red: 240, green: 255, blue: 255, alpha_num: 1, alpha_den: 1 })
    } else {
        None
    }
}

pub open spec fn kw_b(l: Seq<char>) -> Option<RGBA> {
    if l == "beige"@ {
        Some(RGBA { red: 245, green: 245, blue: 220, alpha_num: 1, alpha_den: 1 })
    } else     if l == "bisque"@ {
        Some(RGBA { red: 255, green: 228, blue: 196, alpha_num: 1, alpha_den: 1 })
    } else     if l == "black"@ {
        Some(RGBA { red: 0, green: 0, blue: 0, alpha_num: 1, alpha_den: 1 })
    } else     if l == "blanchedalmond"@ {
        Some(RGBA { red: 255, green: 235, blue: 205, alpha_num: 1, alpha_den: 1 })
    } else     if l == "blue"@ {
        Some(RGBA { red: 0, green: 0, blue: 255, alpha_num: 1, alpha_den: 1 })
    } else     if l == "blueviolet"@ {
        Some(RGBA { red: 138, green: 43, blue: 226, alpha_num: 1, alpha_den: 1 })
    } else     if l == "brown"@ {
        Some(RGBA { red: 165, green: 42, blue: 42, alpha_num: 1, alpha_den: 1 })
    } else     if l == "burlywood"@ {
        Some(RGBA { red: 222, green: 184, blue: 135, alpha_num: 1, alpha_den: 1 })
    } else {
        None
    }
}

pub open spec fn kw_c(l: Seq<char>) -> Option<RGBA> {
    if l == "cadetblue"@ {
        Some(RGBA { red: 95, green: 158, blue: 160, alpha_num: 1, alpha_den: 1 })
    } else     if l == "chartreuse"@ {
        Some(RGBA { red: 127, green: 255, blue: 0, alpha_num: 1, alpha_den: 1 })
    } else     if l == "chocolate"@ {
        Some(RGBA { red: 210, green: 105, blue: 30, alpha_num: 1, alpha_den: 1 })
    } else     if l == "coral"@ {
        Some(RGBA { red: 255, green: 127, blue: 80, alpha_num: 1, alpha_den: 1 })
    } else     if l == "cornflowerblue"@ {
        Some(RGBA { red: 100, green: 149, blue: 237, alpha_num: 1, alpha_den: 1 })
    } else     if l == "cornsilk"@ {
        Some(RGBA { red: 255, green: 248, blue: 220, alpha_num: 1, alpha_den: 1 })
    } else     if l == "crimson"@ {
        Some(RGBA { red: 220, green: 20, blue: 60, alpha_num: 1, alpha_den: 1 })
    } else     if l == "cyan"@ {
        Some(RGBA { red: 0, green: 255, blue: 255, alpha_num: 1, alpha_den: 1 })
    } else {
        None
    }
}

pub open spec fn kw_d(l: Seq<char>) -> Option<RGBA> {
    if l == "darkblue"@ {
        Some(RGBA { red: 0, green: 0, blue: 139, alpha_num: 1, alpha_den: 1 })
    } else     if l == "darkcyan"@ {
        Some(RGBA { red: 0, green: 139, blue: 139, alpha_num: 1, alpha_den: 1 })
    } else     if l == "darkgoldenrod"@ {
        Some(RGBA { red: 184, green: 134, blue: 11, alpha_num: 1, alpha_den: 1 })
    } else     if l == "darkgray"@ {
        Some(RGBA { red: 169, green: 169, blue: 169, alpha_num: 1, alpha_den: 1 })
    } else     if l == "darkgreen"@ {
        Some(RGBA { red: 0, green: 100, blue: 0, alpha_num: 1, alpha_den: 1 })
    } else     if l == "darkgrey"@ {
        Some(RGBA { red: 169, green: 169, blue: 169, alpha_num: 1, alpha_den: 1 })
    } else     if l == "darkkhaki"@ {
        Some(RGBA { red: 189, green: 183, blue: 107, alpha_num: 1, alpha_den: 1 })
    } else     if l == "darkmagenta"@ {
        Some(RGBA { red: 139, green: 0, blue: 139, alpha_num: 1, alpha_den: 1 })
    } else     if l == "darkolivegreen"@ {
        Some(RGBA { red: 85, green: 107, blue: 47, alpha_num: 1, alpha_den: 1 })
    } else     if l == "darkorange"@ {
        Some(RGBA { red: 255, green: 140, blue: 0, alpha_num: 1, alpha_den: 1 })
    } else     if l == "darkorchid"@ {
        Some(RGBA { red: 153, green: 50, blue: 204, alpha_num: 1, alpha_den: 1 })
    } else     if l == "darkred"@ {
        Some(RGBA { red: 139, green: 0, blue: 0, alpha_num: 1, alpha_den: 1 })
    } else     if l == "darksalmon"@ {
        Some(RGBA { red: 233, green: 150, blue: 122, alpha_num: 1, alpha_den: 1 })
    } else     if l == "darkseagreen"@ {
        Some(RGBA { red: 143, green: 188, blue: 143, alpha_num: 1, alpha_den: 1 })
    } else     if l == "darkslateblue"@ {
        Some(RGBA { red: 72, green: 61, blue: 139, alpha_num: 1, alpha_den: 1 })
    } else     if l == "darkslategray"@ {
        Some(RGBA { red: 47, green: 79, blue: 79, alpha_num: 1, alpha_den: 1 })
    } else     if l == "darkslategrey"@ {
        Some(RGBA { red: 47, green: 79, blue: 79, alpha_num: 1, alpha_den: 1 })
    } else     if l == "darkturquoise"@ {
        Some(RGBA { red: 0, green: 206, blue: 209, alpha_num: 1, alpha_den: 1 })
    } else     if l == "darkviolet"@ {
        Some(RGBA { red: 148, green: 0, blue: 211, alpha_num: 1, alpha_den: 1 })
    } else     if l == "deeppink"@ {
        Some(RGBA { red: 255, green: 20, blue: 147, alpha_num: 1, alpha_den: 1 })
    } else     if l == "deepskyblue"@ {
        Some(RGBA { red: 0, green: 191, blue: 255, alpha_num: 1, alpha_den: 1 })
    } else     if l == "dimgray"@ {
        Some(RGBA { red: 105, green: 105, blue: 105, alpha_num: 1, alpha_den: 1 })
    } else     if l == "dimgrey"@ {
        Some(RGBA { red: 105, green: 105, blue: 105, alpha_num: 1, alpha_den: 1 })
    } else     if l == "dodgerblue"@ {
        Some(RGBA { red: 30, green: 144, blue: 255, alpha_num: 1, alpha_den: 1 })
    } else {
        None
    }
}

pub open spec fn kw_f(l: Seq<char>) -> Option<RGBA> {
    if l == "firebrick"@ {
        Some(RGBA { red: 178, green: 34, blue: 34, alpha_num: 1, alpha_den: 1 })
    } else     if l == "floralwhite"@ {
        Some(RGBA { red: 255, green: 250, blue: 240, alpha_num: 1, alpha_den: 1 })
    } else     if l == "forestgreen"@ {
        Some(RGBA { red: 34, green: 139, blue: 34, alpha_num: 1, alpha_den: 1 })
    } else     if l == "fuchsia"@ {
        Some(RGBA { red: 255, green: 0, blue: 255, alpha_num: 1, alpha_den: 1 })
    } else {
        None
    }
}

pub open spec fn kw_g(l: Seq<char>) -> Option<RGBA> {
    if l == "gainsboro"@ {
        Some(RGBA { red: 220, green: 220, blue: 220, alpha_num: 1, alpha_den: 1 })
    } else     if l == "ghostwhite"@ {
        Some(RGBA { red: 248, green: 248, blue: 255, alpha_num: 1, alpha_den: 1 })
    } else     if l == "gold"@ {
        Some(RGBA { red: 255, green: 215, blue: 0, alpha_num: 1, alpha_den: 1 })
    } else     if l == "goldenrod"@ {
        Some(RGBA { red: 218, green: 165, blue: 32, alpha_num: 1, alpha_den: 1 })
    } else     if l == "gray"@ {
        Some(RGBA { red: 128, green: 128, blue: 128, alpha_num: 1, alpha_den: 1 })
    } else     if l == "green"@ {
        Some(RGBA { red: 0, green: 128, blue: 0, alpha_num: 1, alpha_den: 1 })
    } else     if l == "greenyellow"@ {
        Some(RGBA { red: 173, green: 255, blue: 47, alpha_num: 1, alpha_den: 1 })
    } else     if l == "grey"@ {
        Some(RGBA { red: 128, green: 128, blue: 128, alpha_num: 1, alpha_den: 1 })
    } else {
        None
    }
}

pub open spec fn kw_h(l: Seq<char>) -> Option<RGBA> {
    if l == "honeydew"@ {
        Some(RGBA { red: 240, green: 255, blue: 240, alpha_num: 1, alpha_den: 1 })
    } else     if l == "hotpink"@ {
        Some(RGBA { red: 255, green: 105, blue: 180, alpha_num: 1, alpha_den: 1 })
    } else {
        None
    }
}

pub open spec fn kw_i(l: Seq<char>) -> Option<RGBA> {
    if l == "indianred"@ {
        Some(RGBA { red: 205, green: 92, blue: 92, alpha_num: 1, alpha_den: 1 })
    } else     if l == "indigo"@ {
        Some(RGBA { red: 75, green: 0, blue: 130, alpha_num: 1, alpha_den: 1 })
    } else     if l == "ivory"@ {
        Some(RGBA { red: 255, green: 255, blue: 240, alpha_num: 1, alpha_den: 1 })
    } else {
        None
    }
}

pub open spec fn kw_k(l: Seq<char>) -> Option<RGBA> {
    if l == "khaki"@ {
        Some(RGBA { red: 240, green: 230, blue: 140, alpha_num: 1, alpha_den: 1 })
    } else {
        None
    }
}

pub open spec fn kw_l(l: Seq<char>) -> Option<RGBA> {
    if l == "lavender"@ {
        Some(RGBA { red: 230, green: 230, blue: 250, alpha_num: 1, alpha_den: 1 })
    } else     if l == "lavenderblush"@ {
        Some(RGBA { red: 255, green: 240, blue: 245, alpha_num: 1, alpha_den: 1 })
    } else     if l == "lawngreen"@ {
        Some(RGBA { red: 124, green: 252, blue: 0, alpha_num: 1, alpha_den: 1 })
    } else     if l == "lemonchiffon"@ {
        Some(RGBA { red: 255, green: 250, blue: 205, alpha_num: 1, alpha_den: 1 })
    } else     if l == "lightblue"@ {
        Some(RGBA { red: 173, green: 216, blue: 230, alpha_num: 1, alpha_den: 1 })
    } else     if l == "lightcoral"@ {
        Some(RGBA { red: 240, green: 128, blue: 128, alpha_num: 1, alpha_den: 1 })
    } else     if l == "lightcyan"@ {
        Some(RGBA { red: 224, green: 255, blue: 255, alpha_num: 1, alpha_den: 1 })
    } else     if l == "lightgoldenrodyellow"@ {
        Some(RGBA { red: 250, green: 250, blue: 210, alpha_num: 1, alpha_den: 1 })
    } else     if l == "lightgray"@ {
        Some(RGBA { red: 211, green: 211, blue: 211, alpha_num: 1, alpha_den: 1 })
    } else     if l == "lightgreen"@ {
        Some(RGBA { red: 144, green: 238, blue: 144, alpha_num: 1, alpha_den: 1 })
    } else     if l == "lightgrey"@ {
        Some(RGBA { red: 211, green: 211, blue: 211, alpha_num: 1, alpha_den: 1 })
    } else     if l == "lightpink"@ {
        Some(RGBA { red: 255, green: 182, blue: 193, alpha_num: 1, alpha_den: 1 })
    } else     if l == "lightsalmon"@ {
        Some(RGBA { red: 255, green: 160, blue: 122, alpha_num: 1, alpha_den: 1 })
    } else     if l == "lightseagreen"@ {
        Some(RGBA { red: 32, green: 178, blue: 170, alpha_num: 1, alpha_den: 1 })
    } else     if l == "lightskyblue"@ {
        Some(RGBA { red: 135, green: 206, blue: 250, alpha_num: 1, alpha_den: 1 })
    } else     if l == "lightslategray"@ {
        Some(RGBA { red: 119, green: 136, blue: 153, alpha_num: 1, alpha_den: 1 })
    } else     if l == "lightslategrey"@ {
        Some(RGBA { red: 119, green: 136, blue: 153, alpha_num: 1, alpha_den: 1 })
    } else     if l == "lightsteelblue"@ {
        Some(RGBA { red: 176, green: 196, blue: 222, alpha_num: 1, alpha_den: 1 })
    } else     if l == "lightyellow"@ {
        Some(RGBA { red: 255, green: 255, blue: 224, alpha_num: 1, alpha_den: 1 })
    } else     if l == "lime"@ {
        Some(RGBA { red: 0, green: 255, blue: 0, alpha_num: 1, alpha_den: 1 })
    } else     if l == "limegreen"@ {
        Some(RGBA { red: 50, green: 205, blue: 50, alpha_num: 1, alpha_den: 1 })
    } else     if l == "linen"@ {
        Some(RGBA { red: 250, green: 240, blue: 230, alpha_num: 1, alpha_den: 1 })
    } else {
        None
    }
}

pub open spec fn kw_m(l: Seq<char>) -> Option<RGBA> {
    if l == "magenta"@ {
        Some(RGBA { red: 255, green: 0, blue: 255, alpha_num: 1, alpha_den: 1 })
    } else     if l == "maroon"@ {
        Some(RGBA { red: 128, green: 0, blue: 0, alpha_num: 1, alpha_den: 1 })
    } else     if l == "mediumaquamarine"@ {
        Some(RGBA { red: 102, green: 205, blue: 170, alpha_num: 1, alpha_den: 1 })
    } else     if l == "mediumblue"@ {
        Some(RGBA { red: 0, green: 0, blue: 205, alpha_num: 1, alpha_den: 1 })
    } else     if l == "mediumorchid"@ {
        Some(RGBA { red: 186, green: 85, blue: 211, alpha_num: 1, alpha_den: 1 })
    } else     if l == "mediumpurple"@ {
        Some(RGBA { red: 147, green: 112, blue: 219, alpha_num: 1, alpha_den: 1 })
    } else     if l == "mediumseagreen"@ {
        Some(RGBA { red: 60, green: 179, blue: 113, alpha_num: 1, alpha_den: 1 })
    } else     if l == "mediumslateblue"@ {
        Some(RGBA { red: 123, green: 104, blue: 238, alpha_num: 1, alpha_den: 1 })
    } else     if l == "mediumspringgreen"@ {
        Some(RGBA { red: 0, green: 250, blue: 154, alpha_num: 1, alpha_den: 1 })
    } else     if l == "mediumturquoise"@ {
        Some(RGBA { red: 72, green: 209, blue: 204, alpha_num: 1, alpha_den: 1 })
    } else     if l == "mediumvioletred"@ {
        Some(RGBA { red: 199, green: 21, blue: 133, alpha_num: 1, alpha_den: 1 })
    } else     if l == "midnightblue"@ {
        Some(RGBA { red: 25, green: 25, blue: 112, alpha_num: 1, alpha_den: 1 })
    } else     if l == "mintcream"@ {
        Some(RGBA { red: 245, green: 255, blue: 250, alpha_num: 1, alpha_den: 1 })
    } else     if l == "mistyrose"@ {
        Some(RGBA { red: 255, green: 228, blue: 225, alpha_num: 1, alpha_den: 1 })
    } else     if l == "moccasin"@ {
        Some(RGBA { red: 255, green: 228, blue: 181, alpha_num: 1, alpha_den: 1 })
    } else {
        None
    }
}

pub open spec fn kw_n(l: Seq<char>) -> Option<RGBA> {
    if l == "navajowhite"@ {
        Some(RGBA { red: 255, green: 222, blue: 173, alpha_num: 1, alpha_den: 1 })
    } else     if l == "navy"@ {
        Some(RGBA { red: 0, green: 0, blue: 128, alpha_num: 1, alpha_den: 1 })
    } else {
        None
    }
}

pub open spec fn kw_o(l: Seq<char>) -> Option<RGBA> {
    if l == "oldlace"@ {
        Some(RGBA { red: 253, green: 245, blue: 230, alpha_num: 1, alpha_den: 1 })
    } else     if l == "olive"@ {
        Some(RGBA { red: 128, green: 128, blue: 0, alpha_num: 1, alpha_den: 1 })
    } else     if l == "olivedrab"@ {
        Some(RGBA { red: 107, green: 142, blue: 35, alpha_num: 1, alpha_den: 1 })
    } else     if l == "orange"@ {
        Some(RGBA { red: 255, green: 165, blue: 0, alpha_num: 1, alpha_den: 1 })
    } else     if l == "orangered"@ {
        Some(RGBA { red: 255, green: 69, blue: 0, alpha_num: 1, alpha_den: 1 })
    } else     if l == "orchid"@ {
        Some(RGBA { red: 218, green: 112, blue: 214, alpha_num: 1, alpha_den: 1 })
    } else {
        None
    }
}

pub open spec fn kw_p(l: Seq<char>) -> Option<RGBA> {
    if l == "palegoldenrod"@ {
        Some(RGBA { red: 238, green: 232, blue: 170, alpha_num: 1, alpha_den: 1 })
    } else     if l == "palegreen"@ {
        Some(RGBA { red: 152, green: 251, blue: 152, alpha_num: 1, alpha_den: 1 })
    } else     if l == "paleturquoise"@ {
        Some(RGBA { red: 175, green: 238, blue: 238, alpha_num: 1, alpha_den: 1 })
    } else     if l == "palevioletred"@ {
        Some(RGBA { red: 219, green: 112, blue: 147, alpha_num: 1, alpha_den: 1 })
    } else     if l == "papayawhip"@ {
        Some(RGBA { red: 255, green: 239, blue: 213, alpha_num: 1, alpha_den: 1 })
    } else     if l == "peachpuff"@ {
        Some(RGBA { red: 255, green: 218, blue: 185, alpha_num: 1, alpha_den: 1 })
    } else     if l == "peru"@ {
        Some(RGBA { red: 205, green: 133, blue: 63, alpha_num: 1, alpha_den: 1 })
    } else     if l == "pink"@ {
        Some(RGBA { red: 255, green: 192, blue: 203, alpha_num: 1, alpha_den: 1 })
    } else     if l == "plum"@ {
        Some(RGBA { red: 221, green: 160, blue: 221, alpha_num: 1, alpha_den: 1 })
    } else     if l == "powderblue"@ {
        Some(RGBA { red: 176, green: 224, blue: 230, alpha_num: 1, alpha_den: 1 })
    } else     if l == "purple"@ {
        Some(RGBA { red: 128, green: 0, blue: 128, alpha_num: 1, alpha_den: 1 })
    } else {
        None
    }
}

pub open spec fn kw_r(l: Seq<char>) -> Option<RGBA> {
    if l == "red"@ {
        Some(RGBA { red: 255, green: 0, blue: 0, alpha_num: 1, alpha_den: 1 })
    } else     if l == "rosybrown"@ {
        Some(RGBA { red: 188, green: 143, blue: 143, alpha_num: 1, alpha_den: 1 })
    } else     if l == "royalblue"@ {
        Some(RGBA { red: 65, green: 105, blue: 225, alpha_num: 1, alpha_den: 1 })
    } else {
        None
    }
}

pub open spec fn kw_s(l: Seq<char>) -> Option<RGBA> {
    if l == "saddlebrown"@ {
        Some(RGBA { red: 139, green: 69, blue: 19, alpha_num: 1, alpha_den: 1 })
    } else     if l == "salmon"@ {
        Some(RGBA { red: 250, green: 128, blue: 114, alpha_num: 1, alpha_den: 1 })
    } else     if l == "sandybrown"@ {
        Some(RGBA { red: 244, green: 164, blue: 96, alpha_num: 1, alpha_den: 1 })
    } else     if l == "seagreen"@ {
        Some(RGBA { red: 46, green: 139, blue: 87, alpha_num: 1, alpha_den: 1 })
    } else     if l == "seashell"@ {
        Some(RGBA { red: 255, green: 245, blue: 238, alpha_num: 1, alpha_den: 1 })
    } else     if l == "sienna"@ {
        Some(RGBA { red: 160, green: 82, blue: 45, alpha_num: 1, alpha_den: 1 })
    } else     if l == "silver"@ {
        Some(RGBA { red: 192, green: 192, blue: 192, alpha_num: 1, alpha_den: 1 })
    } else     if l == "skyblue"@ {
        Some(RGBA { red: 135, green: 206, blue: 235, alpha_num: 1, alpha_den: 1 })
    } else     if l == "slateblue"@ {
        Some(RGBA { red: 106, green: 90, blue: 205, alpha_num: 1, alpha_den: 1 })
    } else     if l == "slategray"@ {
        Some(RGBA { red: 112, green: 128, blue: 144, alpha_num: 1, alpha_den: 1 })
    } else     if l == "slategrey"@ {
        Some(RGBA { red: 112, green: 128, blue: 144, alpha_num: 1, alpha_den: 1 })
    } else     if l == "snow"@ {
        Some(RGBA { red: 255, green: 250, blue: 250, alpha_num: 1, alpha_den: 1 })
    } else     if l == "springgreen"@ {
        Some(RGBA { red: 0, green: 255, blue: 127, alpha_num: 1, alpha_den: 1 })
    } else     if l == "steelblue"@ {
        Some(RGBA { red: 70, green: 130, blue: 180, alpha_num: 1, alpha_den: 1 })
    } else {
        None
    }
}

pub open spec fn kw_t(l: Seq<char>) -> Option<RGBA> {
    if l == "tan"@ {
        Some(RGBA { red: 210, green: 180, blue: 140, alpha_num: 1, alpha_den: 1 })
    } else     if l == "teal"@ {
        Some(RGBA { red: 0, green: 128, blue: 128, alpha_num: 1, alpha_den: 1 })
    } else     if l == "thistle"@ {
        Some(RGBA { red: 216, green: 191, blue: 216, alpha_num: 1, alpha_den: 1 })
    } else     if l == "tomato"@ {
        Some(RGBA { red: 255, green: 99, blue: 71, alpha_num: 1, alpha_den: 1 })
    } else     if l == "turquoise"@ {
        Some(RGBA { red: 64, green: 224, blue: 208, alpha_num: 1, alpha_den: 1 })
    } else {
        None
    }
}

pub open spec fn kw_v(l: Seq<char>) -> Option<RGBA> {
    if l == "violet"@ {
        Some(RGBA { red: 238, green: 130, blue: 238, alpha_num: 1, alpha_den: 1 })
    } else {
        None
    }
}

pub open spec fn kw_w(l: Seq<char>) -> Option<RGBA> {
    if l == "wheat"@ {
        Some(RGBA { red: 245, green: 222, blue: 179, alpha_num: 1, alpha_den: 1 })
    } else     if l == "white"@ {
        Some(RGBA { red: 255, green: 255, blue: 255, alpha_num: 1, alpha_den: 1 })
    } else     if l == "whitesmoke"@ {
        Some(RGBA { red: 245, green: 245, blue: 245, alpha_num: 1, alpha_den: 1 })
    } else {
        None
    }
}

pub open spec fn kw_y(l: Seq<char>) -> Option<RGBA> {
    if l == "yellow"@ {
        Some(RGBA { red: 255, green: 255, blue: 0, alpha_num: 1, alpha_den: 1 })
    } else     if l == "yellowgreen"@ {
        Some(RGBA { red: 154, green: 205, blue: 50, alpha_num: 1, alpha_den: 1 })
    } else {
        None
    }
}

/// The fixed table of the extended color keywords, case-folded; keyed by
/// the first letter to keep each branch small.
pub open spec fn keyword_color(l: Seq<char>) -> Option<RGBA> {
    if l.len() > 0 && l[0] == 'a' {
        kw_a(l)
    } else     if l.len() > 0 && l[0] == 'b' {
        kw_b(l)
    } else     if l.len() > 0 && l[0] == 'c' {
        kw_c(l)
    } else     if l.len() > 0 && l[0] == 'd' {
        kw_d(l)
    } else     if l.len() > 0 && l[0] == 'f' {
        kw_f(l)
    } else     if l.len() > 0 && l[0] == 'g' {
        kw_g(l)
    } else     if l.len() > 0 && l[0] == 'h' {
        kw_h(l)
    } else     if l.len() > 0 && l[0] == 'i' {
        kw_i(l)
    } else     if l.len() > 0 && l[0] == 'k' {
        kw_k(l)
    } else     if l.len() > 0 && l[0] == 'l' {
        kw_l(l)
    } else     if l.len() > 0 && l[0] == 'm' {
        kw_m(l)
    } else     if l.len() > 0 && l[0] == 'n' {
        kw_n(l)
    } else     if l.len() > 0 && l[0] == 'o' {
        kw_o(l)
    } else     if l.len() > 0 && l[0] == 'p' {
        kw_p(l)
    } else     if l.len() > 0 && l[0] == 'r' {
        kw_r(l)
    } else     if l.len() > 0 && l[0] == 's' {
        kw_s(l)
    } else     if l.len() > 0 && l[0] == 't' {
        kw_t(l)
    } else     if l.len() > 0 && l[0] == 'v' {
        kw_v(l)
    } else     if l.len() > 0 && l[0] == 'w' {
        kw_w(l)
    } else     if l.len() > 0 && l[0] == 'y' {
        kw_y(l)
    } else {
        None
    }
}

fn exec_kw_a(l: &Vec<char>) -> (r: Option<RGBA>)
    ensures
        r == kw_a(l@),
{
    if chars_eq_str(l, "aliceblue") {
        Some(RGBA { red: 240, green: 248, blue: 255, alpha_num: 1, alpha_den: 1 })
    } else     if chars_eq_str(l, "antiquewhite") {
        Some(RGBA { red: 250, green: 235, blue: 215, alpha_num: 1, alpha_den: 1 })
    } else     if chars_eq_str(l, "aqua") {
        Some(RGBA { red: 0, green: 255, blue: 255, alpha_num: 1, alpha_den: 1 })
    } else     if chars_eq_str(l, "aquamarine") {
        Some(RGBA { red: 127, green: 255, blue: 212, alpha_num: 1, alpha_den: 1 })
    } else     if chars_eq_str(l, "azure") {
        Some(RGBA { red: 240, green: 255, blue: 255, alpha_num: 1, alpha_den: 1 })
    } else {
        None
    }
}

fn exec_kw_b(l: &Vec<char>) -> (r: Option<RGBA>)
    ensures
        r == kw_b(l@),
{
    if chars_eq_str(l, "beige") {
        Some(RGBA { red: 245, green: 245, blue: 220, alpha_num: 1, alpha_den: 1 })
    } else     if chars_eq_str(l, "bisque") {
        Some(RGBA { red: 255, green: 228, blue: 196, alpha_num: 1, alpha_den: 1 })
    } else     if chars_eq_str(l, "black") {
        Some(RGBA { red: 0, green: 0, blue: 0, alpha_num: 1, alpha_den: 1 })
    } else     if chars_eq_str(l, "blanchedalmond") {
        Some(RGBA { red: 255, green: 235, blue: 205, alpha_num: 1, alpha_den: 1 })
    } else     if chars_eq_str(l, "blue") {
        Some(RGBA { red: 0, green: 0, blue: 255, alpha_num: 1, alpha_den: 1 })
    } else     if chars_eq_str(l, "blueviolet") {
        Some(RGBA { red: 138, green: 43, blue: 226, alpha_num: 1, alpha_den: 1 })
    } else     if chars_eq_str(l, "brown") {
        Some(RGBA { red: 165, green: 42, blue: 42, alpha_num: 1, alpha_den: 1 })
    } else     if chars_eq_str(l, "burlywood") {
        Some(RGBA { red: 222, green: 184, blue: 135, alpha_num: 1, alpha_den: 1 })
    } else {
        None
    }
}

fn exec_kw_c(l: &Vec<char>) -> (r: Option<RGBA>)
    ensures
        r == kw_c(l@),
{
    if chars_eq_str(l, "cadetblue") {
        Some(RGBA { red: 95, green: 158, blue: 160, alpha_num: 1, alpha_den: 1 })
    } else     if chars_eq_str(l, "chartreuse") {
        Some(RGBA { red: 127, green: 255, blue: 0, alpha_num: 1, alpha_den: 1 })
    } else     if chars_eq_str(l, "chocolate") {
        Some(RGBA { red: 210, green: 105, blue: 30, alpha_num: 1, alpha_den: 1 })
    } else     if chars_eq_str(l, "coral") {
        Some(RGBA { red: 255, green: 127, blue: 80, alpha_num: 1, alpha_den: 1 })
    } else     if chars_eq_str(l, "cornflowerblue") {
        Some(RGBA { red: 100, green: 149, blue: 237, alpha_num: 1, alpha_den: 1 })
    } else     if chars_eq_str(l, "cornsilk") {
        Some(RGBA { red: 255, green: 248, blue: 220, alpha_num: 1, alpha_den: 1 })
    } else     if chars_eq_str(l, "crimson") {
        Some(RGBA { red: 220, green: 20, blue: 60, alpha_num: 1, alpha_den: 1 })
    } else     if chars_eq_str(l, "cyan") {
        Some(RGBA { red: 0, green: 255, blue: 255, alpha_num: 1, alpha_den: 1 })
    } else {
        None
    }
}

fn exec_kw_d(l: &Vec<char>) -> (r: Option<RGBA>)
    ensures
        r == kw_d(l@),
{
    if chars_eq_str(l, "darkblue") {
        Some(RGBA { red: 0, green: 0, blue: 139, alpha_num: 1, alpha_den: 1 })
    } else     if chars_eq_str(l, "darkcyan") {
        Some(RGBA { red: 0, green: 139, blue: 139, alpha_num: 1, alpha_den: 1 })
    } else     if chars_eq_str(l, "darkgoldenrod") {
        Some(RGBA { red: 184, green: 134, blue: 11, alpha_num: 1, alpha_den: 1 })
    } else     if chars_eq_str(l, "darkgray") {
        Some(RGBA { red: 169, green: 169, blue: 169, alpha_num: 1, alpha_den: 1 })
    } else     if chars_eq_str(l, "darkgreen") {
        Some(RGBA { red: 0, green: 100, blue: 0, alpha_num: 1, alpha_den: 1 })
    } else     if chars_eq_str(l, "darkgrey") {
        Some(RGBA { red: 169, green: 169, blue: 169, alpha_num: 1, alpha_den: 1 })
    } else     if chars_eq_str(l, "darkkhaki") {
        Some(RGBA { red: 189, green: 183, blue: 107, alpha_num: 1, alpha_den: 1 })
    } else     if chars_eq_str(l, "darkmagenta") {
        Some(RGBA { red: 139, green: 0, blue: 139, alpha_num: 1, alpha_den: 1 })
    } else     if chars_eq_str(l, "darkolivegreen") {
        Some(RGBA { red: 85, green: 107, blue: 47, alpha_num: 1, alpha_den: 1 })
    } else     if chars_eq_str(l, "darkorange") {
        Some(RGBA { red: 255, green: 140, blue: 0, alpha_num: 1, alpha_den: 1 })
    } else     if chars_eq_str(l, "darkorchid") {
        Some(RGBA { red: 153, green: 50, blue: 204, alpha_num: 1, alpha_den: 1 })
    } else     if chars_eq_str(l, "darkred") {
        Some(RGBA { red: 139, green: 0, blue: 0, alpha_num: 1, alpha_den: 1 })
    } else     if chars_eq_str(l, "darksalmon") {
        Some(RGBA { red: 233, green: 150, blue: 122, alpha_num: 1, alpha_den: 1 })
    } else     if chars_eq_str(l, "darkseagreen") {
        Some(RGBA { red: 143, green: 188, blue: 143, alpha_num: 1, alpha_den: 1 })
    } else     if chars_eq_str(l, "darkslateblue") {
        Some(RGBA { red: 72, green: 61, blue: 139, alpha_num: 1, alpha_den: 1 })
    } else     if chars_eq_str(l, "darkslategray") {
        Some(RGBA { red: 47, green: 79, blue: 79, alpha_num: 1, alpha_den: 1 })
    } else     if chars_eq_str(l, "darkslategrey") {
        Some(RGBA { red: 47, green: 79, blue: 79, alpha_num: 1, alpha_den: 1 })
    } else     if chars_eq_str(l, "darkturquoise") {
        Some(RGBA { red: 0, green: 206, blue: 209, alpha_num: 1, alpha_den: 1 })
    } else     if chars_eq_str(l, "darkviolet") {
        Some(RGBA { red: 148, green: 0, blue: 211, alpha_num: 1, alpha_den: 1 })
    } else     if chars_eq_str(l, "deeppink") {
        Some(RGBA { red: 255, green: 20, blue: 147, alpha_num: 1, alpha_den: 1 })
    } else     if chars_eq_str(l, "deepskyblue") {
        Some(RGBA { red: 0, green: 191, blue: 255, alpha_num: 1, alpha_den: 1 })
    } else     if chars_eq_str(l, "dimgray") {
        Some(RGBA { red: 105, green: 105, blue: 105, alpha_num: 1, alpha_den: 1 })
    } else     if chars_eq_str(l, "dimgrey") {
        Some(RGBA { red: 105, green: 105, blue: 105, alpha_num: 1, alpha_den: 1 })
    } else     if chars_eq_str(l, "dodgerblue") {
        Some(RGBA { red: 30, green: 144, blue: 255, alpha_num: 1, alpha_den: 1 })
    } else {
        None
    }
}

fn exec_kw_f(l: &Vec<char>) -> (r: Option<RGBA>)
    ensures
        r == kw_f(l@),
{
    if chars_eq_str(l, "firebrick") {
        Some(RGBA { red: 178, green: 34, blue: 34, alpha_num: 1, alpha_den: 1 })
    } else     if chars_eq_str(l, "floralwhite") {
        Some(RGBA { red: 255, green: 250, blue: 240, alpha_num: 1, alpha_den: 1 })
    } else     if chars_eq_str(l, "forestgreen") {
        Some(RGBA { red: 34, green: 139, blue: 34, alpha_num: 1, alpha_den: 1 })
    } else     if chars_eq_str(l, "fuchsia") {
        Some(RGBA { red: 255, green: 0, blue: 255, alpha_num: 1, alpha_den: 1 })
    } else {
        None
    }
}

fn exec_kw_g(l: &Vec<char>) -> (r: Option<RGBA>)
    ensures
        r == kw_g(l@),
{
    if chars_eq_str(l, "gainsboro") {
        Some(RGBA { red: 220, green: 220, blue: 220, alpha_num: 1, alpha_den: 1 })
    } else     if chars_eq_str(l, "ghostwhite") {
        Some(RGBA { red: 248, green: 248, blue: 255, alpha_num: 1, alpha_den: 1 })
    } else     if chars_eq_str(l, "gold") {
        Some(RGBA { red: 255, green: 215, blue: 0, alpha_num: 1, alpha_den: 1 })
    } else     if chars_eq_str(l, "goldenrod") {
        Some(RGBA { red: 218, green: 165, blue: 32, alpha_num: 1, alpha_den: 1 })
    } else     if chars_eq_str(l, "gray") {
        Some(RGBA { red: 128, green: 128, blue: 128, alpha_num: 1, alpha_den: 1 })
    } else     if chars_eq_str(l, "green") {
        Some(RGBA { red: 0, green: 128, blue: 0, alpha_num: 1, alpha_den: 1 })
    } else     if chars_eq_str(l, "greenyellow") {
        Some(RGBA { red: 173, green: 255, blue: 47, alpha_num: 1, alpha_den: 1 })
    } else     if chars_eq_str(l, "grey") {
        Some(RGBA { red: 128, green: 128, blue: 128, alpha_num: 1, alpha_den: 1 })
    } else {
        None
    }
}

fn exec_kw_h(l: &Vec<char>) -> (r: Option<RGBA>)
    ensures
        r == kw_h(l@),
{
    if chars_eq_str(l, "honeydew") {
        Some(RGBA { red: 240, green: 255, blue: 240, alpha_num: 1, alpha_den: 1 })
    } else     if chars_eq_str(l, "hotpink") {
        Some(RGBA { red: 255, green: 105, blue: 180, alpha_num: 1, alpha_den: 1 })
    } else {
        None
    }
}

fn exec_kw_i(l: &Vec<char>) -> (r: Option<RGBA>)
    ensures
        r == kw_i(l@),
{
    if chars_eq_str(l, "indianred") {
        Some(RGBA { red: 205, green: 92, blue: 92, alpha_num: 1, alpha_den: 1 })
    } else     if chars_eq_str(l, "indigo") {
        Some(RGBA { red: 75, green: 0, blue: 130, alpha_num: 1, alpha_den: 1 })
    } else     if chars_eq_str(l, "ivory") {
        Some(RGBA { red: 255, green: 255, blue: 240, alpha_num: 1, alpha_den: 1 })
    } else {
        None
    }
}

fn exec_kw_k(l: &Vec<char>) -> (r: Option<RGBA>)
    ensures
        r == kw_k(l@),
{
    if chars_eq_str(l, "khaki") {
        Some(RGBA { red: 240, green: 230, blue: 140, alpha_num: 1, alpha_den: 1 })
    } else {
        None
    }
}

fn exec_kw_l(l: &Vec<char>) -> (r: Option<RGBA>)
    ensures
        r == kw_l(l@),
{
    if chars_eq_str(l, "lavender") {
        Some(RGBA { red: 230, green: 230, blue: 250, alpha_num: 1, alpha_den: 1 })
    } else     if chars_eq_str(l, "lavenderblush") {
        Some(RGBA { red: 255, green: 240, blue: 245, alpha_num: 1, alpha_den: 1 })
    } else     if chars_eq_str(l, "lawngreen") {
        Some(RGBA { red: 124, green: 252, blue: 0, alpha_num: 1, alpha_den: 1 })
    } else     if chars_eq_str(l, "lemonchiffon") {
        Some(RGBA { red: 255, green: 250, blue: 205, alpha_num: 1, alpha_den: 1 })
    } else     if chars_eq_str(l, "lightblue") {
        Some(RGBA { red: 173, green: 216, blue: 230, alpha_num: 1, alpha_den: 1 })
    } else     if chars_eq_str(l, "lightcoral") {
        Some(RGBA { red: 240, green: 128, blue: 128, alpha_num: 1, alpha_den: 1 })
    } else     if chars_eq_str(l, "lightcyan") {
        Some(RGBA { red: 224, green: 255, blue: 255, alpha_num: 1, alpha_den: 1 })
    } else     if chars_eq_str(l, "lightgoldenrodyellow") {
        Some(RGBA { red: 250, green: 250, blue: 210, alpha_num: 1, alpha_den: 1 })
    } else     if chars_eq_str(l, "lightgray") {
        Some(RGBA { red: 211, green: 211, blue: 211, alpha_num: 1, alpha_den: 1 })
    } else     if chars_eq_str(l, "lightgreen") {
        Some(RGBA { red: 144, green: 238, blue: 144, alpha_num: 1, alpha_den: 1 })
    } else     if chars_eq_str(l, "lightgrey") {
        Some(RGBA { red: 211, green: 211, blue: 211, alpha_num: 1, alpha_den: 1 })
    } else     if chars_eq_str(l, "lightpink") {
        Some(RGBA { red: 255, green: 182, blue: 193, alpha_num: 1, alpha_den: 1 })
    } else     if chars_eq_str(l, "lightsalmon") {
        Some(RGBA { red: 255, green: 160, blue: 122, alpha_num: 1, alpha_den: 1 })
    } else     if chars_eq_str(l, "lightseagreen") {
        Some(RGBA { red: 32, green: 178, blue: 170, alpha_num: 1, alpha_den: 1 })
    } else     if chars_eq_str(l, "lightskyblue") {
        Some(RGBA { red: 135, green: 206, blue: 250, alpha_num: 1, alpha_den: 1 })
    } else     if chars_eq_str(l, "lightslategray") {
        Some(RGBA { red: 119, green: 136, blue: 153, alpha_num: 1, alpha_den: 1 })
    } else     if chars_eq_str(l, "lightslategrey") {
        Some(RGBA { red: 119, green: 136, blue: 153, alpha_num: 1, alpha_den: 1 })
    } else     if chars_eq_str(l, "lightsteelblue") {
        Some(RGBA { red: 176, green: 196, blue: 222, alpha_num: 1, alpha_den: 1 })
    } else     if chars_eq_str(l, "lightyellow") {
        Some(RGBA { red: 255, green: 255, blue: 224, alpha_num: 1, alpha_den: 1 })
    } else     if chars_eq_str(l, "lime") {
        Some(RGBA { red: 0, green: 255, blue: 0, alpha_num: 1, alpha_den: 1 })
    } else     if chars_eq_str(l, "limegreen") {
        Some(RGBA { red: 50, green: 205, blue: 50, alpha_num: 1, alpha_den: 1 })
    } else     if chars_eq_str(l, "linen") {
        Some(RGBA { red: 250, green: 240, blue: 230, alpha_num: 1, alpha_den: 1 })
    } else {
        None
    }
}

fn exec_kw_m(l: &Vec<char>) -> (r: Option<RGBA>)
    ensures
        r == kw_m(l@),
{
    if chars_eq_str(l, "magenta") {
        Some(RGBA { red: 255, green: 0, blue: 255, alpha_num: 1, alpha_den: 1 })
    } else     if chars_eq_str(l, "maroon") {
        Some(RGBA { red: 128, green: 0, blue: 0, alpha_num: 1, alpha_den: 1 })
    } else     if chars_eq_str(l, "mediumaquamarine") {
        Some(RGBA { red: 102, green: 205, blue: 170, alpha_num: 1, alpha_den: 1 })
    } else     if chars_eq_str(l, "mediumblue") {
        Some(RGBA { red: 0, green: 0, blue: 205, alpha_num: 1, alpha_den: 1 })
    } else     if chars_eq_str(l, "mediumorchid") {
        Some(RGBA { red: 186, green: 85, blue: 211, alpha_num: 1, alpha_den: 1 })
    } else     if chars_eq_str(l, "mediumpurple") {
        Some(RGBA { red: 147, green: 112, blue: 219, alpha_num: 1, alpha_den: 1 })
    } else     if chars_eq_str(l, "mediumseagreen") {
        Some(RGBA { red: 60, green: 179, blue: 113, alpha_num: 1, alpha_den: 1 })
    } else     if chars_eq_str(l, "mediumslateblue") {
        Some(RGBA { red: 123, green: 104, blue: 238, alpha_num: 1, alpha_den: 1 })
    } else     if chars_eq_str(l, "mediumspringgreen") {
        Some(RGBA { red: 0, green: 250, blue: 154, alpha_num: 1, alpha_den: 1 })
    } else     if chars_eq_str(l, "mediumturquoise") {
        Some(RGBA { red: 72, green: 209, blue: 204, alpha_num: 1, alpha_den: 1 })
    } else     if chars_eq_str(l, "mediumvioletred") {
        Some(RGBA { red: 199, green: 21, blue: 133, alpha_num: 1, alpha_den: 1 })
    } else     if chars_eq_str(l, "midnightblue") {
        Some(RGBA { red: 25, green: 25, blue: 112, alpha_num: 1, alpha_den: 1 })
    } else     if chars_eq_str(l, "mintcream") {
        Some(RGBA { red: 245, green: 255, blue: 250, alpha_num: 1, alpha_den: 1 })
    } else     if chars_eq_str(l, "mistyrose") {
        Some(RGBA { red: 255, green: 228, blue: 225, alpha_num: 1, alpha_den: 1 })
    } else     if chars_eq_str(l, "moccasin") {
        Some(RGBA { red: 255, green: 228, blue: 181, alpha_num: 1, alpha_den: 1 })
    } else {
        None
    }
}

fn exec_kw_n(l: &Vec<char>) -> (r: Option<RGBA>)
    ensures
        r == kw_n(l@),
{
    if chars_eq_str(l, "navajowhite") {
        Some(RGBA { red: 255, green: 222, blue: 173, alpha_num: 1, alpha_den: 1 })
    } else     if chars_eq_str(l, "navy") {
        Some(RGBA { red: 0, green: 0, blue: 128, alpha_num: 1, alpha_den: 1 })
    } else {
        None
    }
}

fn exec_kw_o(l: &Vec<char>) -> (r: Option<RGBA>)
    ensures
        r == kw_o(l@),
{
    if chars_eq_str(l, "oldlace") {
        Some(RGBA { red: 253, green: 245, blue: 230, alpha_num: 1, alpha_den: 1 })
    } else     if chars_eq_str(l, "olive") {
        Some(RGBA { red: 128, green: 128, blue: 0, alpha_num: 1, alpha_den: 1 })
    } else     if chars_eq_str(l, "olivedrab") {
        Some(RGBA { red: 107, green: 142, blue: 35, alpha_num: 1, alpha_den: 1 })
    } else     if chars_eq_str(l, "orange") {
        Some(RGBA { red: 255, green: 165, blue: 0, alpha_num: 1, alpha_den: 1 })
    } else     if chars_eq_str(l, "orangered") {
        Some(RGBA { red: 255, green: 69, blue: 0, alpha_num: 1, alpha_den: 1 })
    } else     if chars_eq_str(l, "orchid") {
        Some(RGBA { red: 218, green: 112, blue: 214, alpha_num: 1, alpha_den: 1 })
    } else {
        None
    }
}

fn exec_kw_p(l: &Vec<char>) -> (r: Option<RGBA>)
    ensures
        r == kw_p(l@),
{
    if chars_eq_str(l, "palegoldenrod") {
        Some(RGBA { red: 238, green: 232, blue: 170, alpha_num: 1, alpha_den: 1 })
    } else     if chars_eq_str(l, "palegreen") {
        Some(RGBA { red: 152, green: 251, blue: 152, alpha_num: 1, alpha_den: 1 })
    } else     if chars_eq_str(l, "paleturquoise") {
        Some(RGBA { red: 175, green: 238, blue: 238, alpha_num: 1, alpha_den: 1 })
    } else     if chars_eq_str(l, "palevioletred") {
        Some(RGBA { red: 219, green: 112, blue: 147, alpha_num: 1, alpha_den: 1 })
    } else     if chars_eq_str(l, "papayawhip") {
        Some(RGBA { red: 255, green: 239, blue: 213, alpha_num: 1, alpha_den: 1 })
    } else     if chars_eq_str(l, "peachpuff") {
        Some(RGBA { red: 255, green: 218, blue: 185, alpha_num: 1, alpha_den: 1 })
    } else     if chars_eq_str(l, "peru") {
        Some(RGBA { red: 205, green: 133, blue: 63, alpha_num: 1, alpha_den: 1 })
    } else     if chars_eq_str(l, "pink") {
        Some(RGBA { red: 255, green: 192, blue: 203, alpha_num: 1, alpha_den: 1 })
    } else     if chars_eq_str(l, "plum") {
        Some(RGBA { red: 221, green: 160, blue: 221, alpha_num: 1, alpha_den: 1 })
    } else     if chars_eq_str(l, "powderblue") {
        Some(RGBA { red: 176, green: 224, blue: 230, alpha_num: 1, alpha_den: 1 })
    } else     if chars_eq_str(l, "purple") {
        Some(RGBA { red: 128, green: 0, blue: 128, alpha_num: 1, alpha_den: 1 })
    } else {
        None
    }
}

fn exec_kw_r(l: &Vec<char>) -> (r: Option<RGBA>)
    ensures
        r == kw_r(l@),
{
    if chars_eq_str(l, "red") {
        Some(RGBA { red: 255, green: 0, blue: 0, alpha_num: 1, alpha_den: 1 })
    } else     if chars_eq_str(l, "rosybrown") {
        Some(RGBA { red: 188, green: 143, blue: 143, alpha_num: 1, alpha_den: 1 })
    } else     if chars_eq_str(l, "royalblue") {
        Some(RGBA { red: 65, green: 105, blue: 225, alpha_num: 1, alpha_den: 1 })
    } else {
        None
    }
}

fn exec_kw_s(l: &Vec<char>) -> (r: Option<RGBA>)
    ensures
        r == kw_s(l@),
{
    if chars_eq_str(l, "saddlebrown") {
        Some(RGBA { red: 139, green: 69, blue: 19, alpha_num: 1, alpha_den: 1 })
    } else     if chars_eq_str(l, "salmon") {
        Some(RGBA { red: 250, green: 128, blue: 114, alpha_num: 1, alpha_den: 1 })
    } else     if chars_eq_str(l, "sandybrown") {
        Some(RGBA { red: 244, green: 164, blue: 96, alpha_num: 1, alpha_den: 1 })
    } else     if chars_eq_str(l, "seagreen") {
        Some(RGBA { red: 46, green: 139, blue: 87, alpha_num: 1, alpha_den: 1 })
    } else     if chars_eq_str(l, "seashell") {
        Some(RGBA { red: 255, green: 245, blue: 238, alpha_num: 1, alpha_den: 1 })
    } else     if chars_eq_str(l, "sienna") {
        Some(RGBA { red: 160, green: 82, blue: 45, alpha_num: 1, alpha_den: 1 })
    } else     if chars_eq_str(l, "silver") {
        Some(RGBA { red: 192, green: 192, blue: 192, alpha_num: 1, alpha_den: 1 })
    } else     if chars_eq_str(l, "skyblue") {
        Some(RGBA { red: 135, green: 206, blue: 235, alpha_num: 1, alpha_den: 1 })
    } else     if chars_eq_str(l, "slateblue") {
        Some(RGBA { red: 106, green: 90, blue: 205, alpha_num: 1, alpha_den: 1 })
    } else     if chars_eq_str(l, "slategray") {
        Some(RGBA { red: 112, green: 128, blue: 144, alpha_num: 1, alpha_den: 1 })
    } else     if chars_eq_str(l, "slategrey") {
        Some(RGBA { red: 112, green: 128, blue: 144, alpha_num: 1, alpha_den: 1 })
    } else     if chars_eq_str(l, "snow") {
        Some(RGBA { red: 255, green: 250, blue: 250, alpha_num: 1, alpha_den: 1 })
    } else     if chars_eq_str(l, "springgreen") {
        Some(RGBA { red: 0, green: 255, blue: 127, alpha_num: 1, alpha_den: 1 })
    } else     if chars_eq_str(l, "steelblue") {
        Some(RGBA { red: 70, green: 130, blue: 180, alpha_num: 1, alpha_den: 1 })
    } else {
        None
    }
}

fn exec_kw_t(l: &Vec<char>) -> (r: Option<RGBA>)
    ensures
        r == kw_t(l@),
{
    if chars_eq_str(l, "tan") {
        Some(RGBA { red: 210, green: 180, blue: 140, alpha_num: 1, alpha_den: 1 })
    } else     if chars_eq_str(l, "teal") {
        Some(RGBA { red: 0, green: 128, blue: 128, alpha_num: 1, alpha_den: 1 })
    } else     if chars_eq_str(l, "thistle") {
        Some(RGBA { red: 216, green: 191, blue: 216, alpha_num: 1, alpha_den: 1 })
    } else     if chars_eq_str(l, "tomato") {
        Some(RGBA { red: 255, green: 99, blue: 71, alpha_num: 1, alpha_den: 1 })
    } else     if chars_eq_str(l, "turquoise") {
        Some(RGBA { red: 64, green: 224, blue: 208, alpha_num: 1, alpha_den: 1 })
    } else {
        None
    }
}

fn exec_kw_v(l: &Vec<char>) -> (r: Option<RGBA>)
    ensures
        r == kw_v(l@),
{
    if chars_eq_str(l, "violet") {
        Some(RGBA { red: 238, green: 130, blue: 238, alpha_num: 1, alpha_den: 1 })
    } else {
        None
    }
}

fn exec_kw_w(l: &Vec<char>) -> (r: Option<RGBA>)
    ensures
        r == kw_w(l@),
{
    if chars_eq_str(l, "wheat") {
        Some(RGBA { red: 245, green: 222, blue: 179, alpha_num: 1, alpha_den: 1 })
    } else     if chars_eq_str(l, "white") {
        Some(RGBA { red: 255, green: 255, blue: 255, alpha_num: 1, alpha_den: 1 })
    } else     if chars_eq_str(l, "whitesmoke") {
        Some(RGBA { red: 245, green: 245, blue: 245, alpha_num: 1, alpha_den: 1 })
    } else {
        None
    }
}

fn exec_kw_y(l: &Vec<char>) -> (r: Option<RGBA>)
    ensures
        r == kw_y(l@),
{
    if chars_eq_str(l, "yellow") {
        Some(RGBA { red: 255, green: 255, blue: 0, alpha_num: 1, alpha_den: 1 })
    } else     if chars_eq_str(l, "yellowgreen") {
        Some(RGBA { red: 154, green: 205, blue: 50, alpha_num: 1, alpha_den: 1 })
    } else {
        None
    }
}

fn exec_keyword_color(l: &Vec<char>) -> (r: Option<RGBA>)
    ensures
        r == keyword_color(l@),
{
    if l.len() > 0 && l[0] == 'a' {
        exec_kw_a(l)
    } else     if l.len() > 0 && l[0] == 'b' {
        exec_kw_b(l)
    } else     if l.len() > 0 && l[0] == 'c' {
        exec_kw_c(l)
    } else     if l.len() > 0 && l[0] == 'd' {
        exec_kw_d(l)
    } else     if l.len() > 0 && l[0] == 'f' {
        exec_kw_f(l)
    } else     if l.len() > 0 && l[0] == 'g' {
        exec_kw_g(l)
    } else     if l.len() > 0 && l[0] == 'h' {
        exec_kw_h(l)
    } else     if l.len() > 0 && l[0] == 'i' {
        exec_kw_i(l)
    } else     if l.len() > 0 && l[0] == 'k' {
        exec_kw_k(l)
    } else     if l.len() > 0 && l[0] == 'l' {
        exec_kw_l(l)
    } else     if l.len() > 0 && l[0] == 'm' {
        exec_kw_m(l)
    } else     if l.len() > 0 && l[0] == 'n' {
        exec_kw_n(l)
    } else     if l.len() > 0 && l[0] == 'o' {
        exec_kw_o(l)
    } else     if l.len() > 0 && l[0] == 'p' {
        exec_kw_p(l)
    } else     if l.len() > 0 && l[0] == 'r' {
        exec_kw_r(l)
    } else     if l.len() > 0 && l[0] == 's' {
        exec_kw_s(l)
    } else     if l.len() > 0 && l[0] == 't' {
        exec_kw_t(l)
    } else     if l.len() > 0 && l[0] == 'v' {
        exec_kw_v(l)
    } else     if l.len() > 0 && l[0] == 'w' {
        exec_kw_w(l)
    } else     if l.len() > 0 && l[0] == 'y' {
        exec_kw_y(l)
    } else {
        None
    }
}

// ---------------------------------------------------------------------------
// Hex colors.
// ---------------------------------------------------------------------------

/// Every character of `s` is a hex digit.
pub open spec fn all_hex(s: Seq<char>) -> bool {
    forall|k: int| 0 <= k < s.len() ==> is_hex_digit(#[trigger] s[k])
}

/// The byte with both nibbles equal to the digit `c`.
pub open spec fn dup_nibble(c: char) -> u8 {
    (hex_value(c) * 17) as u8
}

pub open spec fn byte_of(hi: char, lo: char) -> u8 {
    (hex_value(hi) * 16 + hex_value(lo)) as u8
}

/// The color a hash token of 3, 4, 6 or 8 hex digits denotes; 3- and
/// 4-digit forms duplicate each nibble, 4- and 8-digit forms carry an
/// alpha numerator over 255.
pub open spec fn hex_color(s: Seq<char>) -> Option<Color> {
    if !all_hex(s) {
        None
    } else if s.len() == 3 {
        Some(
            Color::RGBA(
                RGBA {
                    red: dup_nibble(s[0]),
                    green: dup_nibble(s[1]),
                    blue: dup_nibble(s[2]),
                    alpha_num: 1,
                    alpha_den: 1,
                },
            ),
        )
    } else if s.len() == 4 {
        Some(
            Color::RGBA(
                RGBA {
                    red: dup_nibble(s[0]),
                    green: dup_nibble(s[1]),
                    blue: dup_nibble(s[2]),
                    alpha_num: dup_nibble(s[3]) as u64,
                    alpha_den: 255,
                },
            ),
        )
    } else if s.len() == 6 {
        Some(
            Color::RGBA(
                RGBA {
                    red: byte_of(s[0], s[1]),
                    green: byte_of(s[2], s[3]),
                    blue: byte_of(s[4], s[5]),
                    alpha_num: 1,
                    alpha_den: 1,
                },
            ),
        )
    } else if s.len() == 8 {
        Some(
            Color::RGBA(
                RGBA {
                    red: byte_of(s[0], s[1]),
                    green: byte_of(s[2], s[3]),
                    blue: byte_of(s[4], s[5]),
                    alpha_num: byte_of(s[6], s[7]) as u64,
                    alpha_den: 255,
                },
            ),
        )
    } else {
        None
    }
}

fn exec_hex_color(s: &Vec<char>) -> (r: Option<Color>)
    ensures
        r == hex_color(s@),
{
    let n = s.len();
    if !(n == 3 || n == 4 || n == 6 || n == 8) {
        proof {
            if all_hex(s@) {
            }
        }
        return None;
    }
    let mut i: usize = 0;
    while i < n
        invariant
            i <= n == s@.len(),
            forall|k: int| 0 <= k < i ==> is_hex_digit(#[trigger] s@[k]),
        decreases n - i,
    {
        if !crate::tokenizer::exec_is_hex_digit_pub(s[i]) {
            return None;
        }
        i = i + 1;
    }
    proof {
        assert(all_hex(s@));
    }
    if n == 3 {
        Some(
            Color::RGBA(
                RGBA {
                    red: exec_dup_nibble(s[0]),
                    green: exec_dup_nibble(s[1]),
                    blue: exec_dup_nibble(s[2]),
                    alpha_num: 1,
                    alpha_den: 1,
                },
            ),
        )
    } else if n == 4 {
        Some(
            Color::RGBA(
                RGBA {
                    red: exec_dup_nibble(s[0]),
                    green: exec_dup_nibble(s[1]),
                    blue: exec_dup_nibble(s[2]),
                    alpha_num: exec_dup_nibble(s[3]) as u64,
                    alpha_den: 255,
                },
            ),
        )
    } else if n == 6 {
        Some(
            Color::RGBA(
                RGBA {
                    red: exec_byte_of(s[0], s[1]),
                    green: exec_byte_of(s[2], s[3]),
                    blue: exec_byte_of(s[4], s[5]),
                    alpha_num: 1,
                    alpha_den: 1,
                },
            ),
        )
    } else {
        Some(
            Color::RGBA(
                RGBA {
                    red: exec_byte_of(s[0], s[1]),
                    green: exec_byte_of(s[2], s[3]),
                    blue: exec_byte_of(s[4], s[5]),
                    alpha_num: exec_byte_of(s[6], s[7]) as u64,
                    alpha_den: 255,
                },
            ),
        )
    }
}

fn exec_dup_nibble(c: char) -> (r: u8)
    requires
        is_hex_digit(c),
    ensures
        r == dup_nibble(c),
{
    (crate::tokenizer::exec_hex_value_pub(c) * 17) as u8
}

fn exec_byte_of(hi: char, lo: char) -> (r: u8)
    requires
        is_hex_digit(hi),
        is_hex_digit(lo),
    ensures
        r == byte_of(hi, lo),
{
    (crate::tokenizer::exec_hex_value_pub(hi) * 16 + crate::tokenizer::exec_hex_value_pub(lo)) as u8
}

// ---------------------------------------------------------------------------
// rgb()/rgba() and hsl()/hsla() arguments.
// ---------------------------------------------------------------------------

/// Rounds `numer * mul / (denom * div)` to the nearest integer and clamps
/// into a byte; negative values clamp to zero.
pub open spec fn chan_round(numer: i64, denom: u64, mul: int, div: int) -> u8 {
    if numer <= 0 || denom == 0 {
        0
    } else {
        let q = (2 * numer * mul + denom * div) / (2 * denom * div);
        if q > 255 {
            255
        } else {
            q as u8
        }
    }
}

fn exec_chan_round(numer: i64, denom: u64, mul: u64, div: u64) -> (r: u8)
    requires
        1 <= mul <= 1000,
        1 <= div <= 1000,
    ensures
        r == chan_round(numer, denom, mul as int, div as int),
{
    if numer <= 0 || denom == 0 {
        0
    } else {
        proof {
            assert(2 * (numer as int) * (mul as int) <= 0x7FFF_FFFF_FFFF_FFFF * 2000
                && (denom as int) * (div as int) <= 0xFFFF_FFFF_FFFF_FFFF * 1000)
                by (nonlinear_arith)
                requires
                    0 < numer <= 0x7FFF_FFFF_FFFF_FFFFi64,
                    1 <= mul <= 1000,
                    1 <= div <= 1000,
                    1 <= denom <= 0xFFFF_FFFF_FFFF_FFFFu64,
            ;
            assert(2 <= 2 * (denom as int) * (div as int) <= 2 * 0xFFFF_FFFF_FFFF_FFFF * 1000)
                by (nonlinear_arith)
                requires
                    1 <= div <= 1000,
                    1 <= denom <= 0xFFFF_FFFF_FFFF_FFFFu64,
            ;
        }
        let top: i128 = 2 * (numer as i128) * (mul as i128) + (denom as i128) * (div as i128);
        let bot: i128 = 2 * (denom as i128) * (div as i128);
        let q = top / bot;
        if q > 255 {
            255
        } else {
            q as u8
        }
    }
}

/// The alpha fraction a number token denotes, clamped into [0, 1].
pub open spec fn alpha_of(numer: i64, denom: u64) -> (u64, u64) {
    if numer <= 0 {
        (0, 1)
    } else if denom == 0 || numer as int >= denom {
        (1, 1)
    } else {
        (numer as u64, denom)
    }
}

fn exec_alpha_of(numer: i64, denom: u64) -> (r: (u64, u64))
    ensures
        r == alpha_of(numer, denom),
{
    if numer <= 0 {
        (0, 1)
    } else if numer as u64 >= denom {
        (1, 1)
    } else {
        (numer as u64, denom)
    }
}

/// The index of the value after `[ws]* , [ws]*` starting at `j`, or -1.
pub open spec fn after_comma(args: Seq<ComponentValue>, j: int) -> int {
    let k = cv_skip_ws(args, j);
    if 0 <= k < args.len() && args[k] is Comma {
        cv_skip_ws(args, k + 1)
    } else {
        -1
    }
}

fn exec_after_comma(args: &Vec<ComponentValue>, j: usize) -> (r: (bool, usize))
    requires
        j <= args@.len(),
    ensures
        r.0 ==> r.1 as int == after_comma(args@, j as int) && j <= r.1 <= args@.len(),
        !r.0 ==> after_comma(args@, j as int) == -1,
{
    let k = exec_cv_skip_ws_pub(args, j);
    if k < args.len() && matches!(args[k], ComponentValue::Comma) {
        (true, exec_cv_skip_ws_pub(args, k + 1))
    } else {
        (false, 0)
    }
}

fn exec_cv_skip_ws_pub(toks: &Vec<ComponentValue>, i: usize) -> (r: usize)
    requires
        i <= toks@.len(),
    ensures
        r as int == cv_skip_ws(toks@, i as int),
        i <= r <= toks@.len(),
    decreases toks@.len() - i,
{
    if i < toks.len() && matches!(toks[i], ComponentValue::WhiteSpace) {
        exec_cv_skip_ws_pub(toks, i + 1)
    } else {
        i
    }
}

/// The channel value of an `rgb()` argument; `percent` fixes which kind
/// all three channels must have.
pub open spec fn chan_kind_ok(cv: ComponentValue, percent: bool) -> bool {
    if percent {
        cv is Percentage
    } else {
        cv is Number
    }
}

pub open spec fn chan_of(cv: ComponentValue, percent: bool) -> u8 {
    match cv {
        ComponentValue::Number(nv) => chan_round(nv.numerator, nv.denominator, 1, 1),
        ComponentValue::Percentage(nv) => chan_round(nv.numerator, nv.denominator, 255, 100),
        _ => 0,
    }
}

/// The color an `rgb()`/`rgba()` argument run denotes: three channels of
/// one kind, comma-separated, an optional numeric alpha.
pub open spec fn rgb_color(args: Seq<ComponentValue>) -> Option<Color> {
    let i0 = cv_skip_ws(args, 0);
    if !(0 <= i0 < args.len()) || !(args[i0] is Number || args[i0] is Percentage) {
        None
    } else {
        let percent = args[i0] is Percentage;
        let i1 = after_comma(args, i0 + 1);
        if !(0 <= i1 < args.len()) || !chan_kind_ok(args[i1], percent) {
            None
        } else {
            let i2 = after_comma(args, i1 + 1);
            if !(0 <= i2 < args.len()) || !chan_kind_ok(args[i2], percent) {
                None
            } else {
                let red = chan_of(args[i0], percent);
                let green = chan_of(args[i1], percent);
                let blue = chan_of(args[i2], percent);
                let j = cv_skip_ws(args, i2 + 1);
                if j >= args.len() {
                    Some(
                        Color::RGBA(
                            RGBA { red, green, blue, alpha_num: 1, alpha_den: 1 },
                        ),
                    )
                } else {
                    let ia = after_comma(args, i2 + 1);
                    if !(0 <= ia < args.len()) || !(args[ia] is Number) {
                        None
                    } else {
                        match args[ia] {
                            ComponentValue::Number(nv) => if cv_skip_ws(args, ia + 1)
                                >= args.len() {
                                let a = alpha_of(nv.numerator, nv.denominator);
                                Some(
                                    Color::RGBA(
                                        RGBA {
                                            red,
                                            green,
                                            blue,
                                            alpha_num: a.0,
                                            alpha_den: a.1,
                                        },
                                    ),
                                )
                            } else {
                                None
                            },
                            _ => None,
                        }
                    }
                }
            }
        }
    }
}

// ---------------------------------------------------------------------------
// HSL conversion, in integer thousandths.
// ---------------------------------------------------------------------------

/// The hue in thousandths of a degree, reduced modulo one turn.
pub open spec fn hue_fix(numer: i64, denom: u64) -> int {
    if denom == 0 {
        0
    } else {
    let av = if numer < 0 {
        -(numer as int)
    } else {
        numer as int
    };
    let scaled = (2 * av * 1000 + denom) / (2 * denom);
    if numer < 0 {
        (360000 - (scaled % 360000)) % 360000
    } else {
        scaled % 360000
    }
    }
}

/// A percentage in thousandths, clamped into [0, 1000].
pub open spec fn pct_fix(numer: i64, denom: u64) -> int {
    if numer <= 0 || denom == 0 {
        0
    } else {
        let q = (2 * numer * 10 + denom) / (2 * denom);
        if q > 1000 {
            1000
        } else {
            q
        }
    }
}

pub open spec fn hue_to_rgb(m1: int, m2: int, h: int) -> int {
    let d = if m2 >= m1 {
        m2 - m1
    } else {
        0
    };
    if h < 60000 {
        m1 + d * h / 60000
    } else if h < 180000 {
        m2
    } else if h < 240000 {
        m1 + d * (240000 - h) / 60000
    } else {
        m1
    }
}

/// The byte channels of an HSL color given in thousandths.
pub open spec fn hsl_bytes(h: int, s: int, l: int) -> (u8, u8, u8) {
    let m2 = if l <= 500 {
        l * (1000 + s) / 1000
    } else {
        l + s - l * s / 1000
    };
    let m1 = if 2 * l >= m2 {
        2 * l - m2
    } else {
        0
    };
    let r = hue_to_rgb(m1, m2, (h + 120000) % 360000);
    let g = hue_to_rgb(m1, m2, h % 360000);
    let b = hue_to_rgb(m1, m2, (h + 240000) % 360000);
    (chan1000(r), chan1000(g), chan1000(b))
}

/// Scales a thousandths channel to a byte.
pub open spec fn chan1000(c: int) -> u8 {
    if c <= 0 {
        0
    } else {
        let q = (2 * c * 255 + 1000) / 2000;
        if q > 255 {
            255
        } else {
            q as u8
        }
    }
}

/// The color an `hsl()`/`hsla()` argument run denotes.
pub open spec fn hsl_color(args: Seq<ComponentValue>) -> Option<Color> {
    let i0 = cv_skip_ws(args, 0);
    if !(0 <= i0 < args.len()) || !(args[i0] is Number) {
        None
    } else {
        let i1 = after_comma(args, i0 + 1);
        if !(0 <= i1 < args.len()) || !(args[i1] is Percentage) {
            None
        } else {
            let i2 = after_comma(args, i1 + 1);
            if !(0 <= i2 < args.len()) || !(args[i2] is Percentage) {
                None
            } else {
                let rgbv = hsl_args_bytes(args[i0], args[i1], args[i2]);
                let j = cv_skip_ws(args, i2 + 1);
                if j >= args.len() {
                    Some(
                        Color::RGBA(
                            RGBA {
                                red: rgbv.0,
                                green: rgbv.1,
                                blue: rgbv.2,
                                alpha_num: 1,
                                alpha_den: 1,
                            },
                        ),
                    )
                } else {
                    let ia = after_comma(args, i2 + 1);
                    if !(0 <= ia < args.len()) || !(args[ia] is Number) {
                        None
                    } else {
                        match args[ia] {
                            ComponentValue::Number(nv) => if cv_skip_ws(args, ia + 1)
                                >= args.len() {
                                let a = alpha_of(nv.numerator, nv.denominator);
                                Some(
                                    Color::RGBA(
                                        RGBA {
                                            red: rgbv.0,
                                            green: rgbv.1,
                                            blue: rgbv.2,
                                            alpha_num: a.0,
                                            alpha_den: a.1,
                                        },
                                    ),
                                )
                            } else {
                                None
                            },
                            _ => None,
                        }
                    }
                }
            }
        }
    }
}

pub open spec fn hsl_args_bytes(
    hcv: ComponentValue,
    scv: ComponentValue,
    lcv: ComponentValue,
) -> (u8, u8, u8) {
    match (hcv, scv, lcv) {
        (
            ComponentValue::Number(hn),
            ComponentValue::Percentage(sn),
            ComponentValue::Percentage(ln),
        ) => hsl_bytes(
            hue_fix(hn.numerator, hn.denominator),
            pct_fix(sn.numerator, sn.denominator),
            pct_fix(ln.numerator, ln.denominator),
        ),
        _ => (0, 0, 0),
    }
}

/// The keyword for the currentColor value, case-folded.
pub open spec fn currentcolor_kw() -> Seq<char> {
    seq!['c', 'u', 'r', 'r', 'e', 'n', 't', 'c', 'o', 'l', 'o', 'r']
}

pub open spec fn transparent_kw() -> Seq<char> {
    seq!['t', 'r', 'a', 'n', 's', 'p', 'a', 'r', 'e', 'n', 't']
}

/// What `Color::parse` accepts, for every component value.
pub open spec fn spec_color(cv: ComponentValue) -> Option<Color> {
    match cv {
        ComponentValue::Ident(n) => {
            let l = lower_seq(n@);
            if l == currentcolor_kw() {
                Some(Color::CurrentColor)
            } else if l == transparent_kw() {
                Some(
                    Color::RGBA(
                        RGBA { red: 0, green: 0, blue: 0, alpha_num: 0, alpha_den: 1 },
                    ),
                )
            } else {
                match keyword_color(l) {
                    Some(rgba) => Some(Color::RGBA(rgba)),
                    None => None,
                }
            }
        },
        ComponentValue::Hash(s) => hex_color(s@),
        ComponentValue::IDHash(s) => hex_color(s@),
        ComponentValue::Function(name, args) => {
            let l = lower_seq(name@);
            if l == seq!['r', 'g', 'b'] || l == seq!['r', 'g', 'b', 'a'] {
                rgb_color(args@)
            } else if l == seq!['h', 's', 'l'] || l == seq!['h', 's', 'l', 'a'] {
                hsl_color(args@)
            } else {
                None
            }
        },
        _ => None,
    }
}

// ---------------------------------------------------------------------------
// Executable rgb()/hsl() reading.
// ---------------------------------------------------------------------------

fn exec_chan_of(cv: &ComponentValue, percent: bool) -> (r: u8)
    requires
        chan_kind_ok(*cv, percent),
    ensures
        r == chan_of(*cv, percent),
{
    match cv {
        ComponentValue::Number(nv) => exec_chan_round(nv.numerator, nv.denominator, 1, 1),
        ComponentValue::Percentage(nv) => exec_chan_round(nv.numerator, nv.denominator, 255, 100),
        _ => {
            proof {
                assert(false);
            }
            0
        },
    }
}

fn exec_rgb_color(args: &Vec<ComponentValue>) -> (r: Result<Color, ()>)
    ensures
        match rgb_color(args@) {
            Some(c) => r == Ok::<Color, ()>(c),
            None => r == Err::<Color, ()>(()),
        },
{
    let i0 = exec_cv_skip_ws_pub(args, 0);
    if i0 >= args.len() || !(matches!(args[i0], ComponentValue::Number(_)) || matches!(
        args[i0],
        ComponentValue::Percentage(_),
    )) {
        return Err(());
    }
    let percent = matches!(args[i0], ComponentValue::Percentage(_));
    let (ok1, i1) = exec_after_comma(args, i0 + 1);
    if !ok1 || i1 >= args.len() || !(if percent {
        matches!(args[i1], ComponentValue::Percentage(_))
    } else {
        matches!(args[i1], ComponentValue::Number(_))
    }) {
        return Err(());
    }
    let (ok2, i2) = exec_after_comma(args, i1 + 1);
    if !ok2 || i2 >= args.len() || !(if percent {
        matches!(args[i2], ComponentValue::Percentage(_))
    } else {
        matches!(args[i2], ComponentValue::Number(_))
    }) {
        return Err(());
    }
    let red = exec_chan_of(&args[i0], percent);
    let green = exec_chan_of(&args[i1], percent);
    let blue = exec_chan_of(&args[i2], percent);
    let j = exec_cv_skip_ws_pub(args, i2 + 1);
    if j >= args.len() {
        return Ok(Color::RGBA(RGBA { red, green, blue, alpha_num: 1, alpha_den: 1 }));
    }
    let (oka, ia) = exec_after_comma(args, i2 + 1);
    if !oka || ia >= args.len() {
        return Err(());
    }
    match &args[ia] {
        ComponentValue::Number(nv) => {
            if exec_cv_skip_ws_pub(args, ia + 1) >= args.len() {
                let a = exec_alpha_of(nv.numerator, nv.denominator);
                Ok(Color::RGBA(RGBA { red, green, blue, alpha_num: a.0, alpha_den: a.1 }))
            } else {
                Err(())
            }
        },
        _ => Err(()),
    }
}

fn exec_hue_fix(numer: i64, denom: u64) -> (r: u64)
    ensures
        r as int == hue_fix(numer, denom),
        r < 360000,
{
    if denom == 0 {
        proof {
            assert(hue_fix(numer, denom) == 0);
        }
        return 0;
    }
    let av: u128 = if numer < 0 {
        if numer == i64::MIN {
            0x8000_0000_0000_0000u128
        } else {
            (-numer) as u128
        }
    } else {
        numer as u128
    };
    let scaled = ((2 * av * 1000 + denom as u128) / (2 * denom as u128)) % 360000;
    let s64 = scaled as u64;
    if numer < 0 {
        ((360000 - s64) % 360000) as u64
    } else {
        s64
    }
}

fn exec_pct_fix(numer: i64, denom: u64) -> (r: u64)
    ensures
        r as int == pct_fix(numer, denom),
        r <= 1000,
{
    if numer <= 0 {
        0
    } else if denom == 0 {
        proof {
            assert(pct_fix(numer, denom) == 0);
        }
        0
    } else {
        let q = (2 * (numer as u128) * 10 + denom as u128) / (2 * denom as u128);
        if q > 1000 {
            1000
        } else {
            q as u64
        }
    }
}

fn exec_hue_to_rgb(m1: u64, m2: u64, h: u64) -> (r: u64)
    requires
        m1 <= 2000,
        m2 <= 2000,
        h < 360000,
    ensures
        r as int == hue_to_rgb(m1 as int, m2 as int, h as int),
        r <= 4000,
{
    let d: u64 = if m2 >= m1 {
        m2 - m1
    } else {
        0
    };
    if h < 60000 {
        proof {
            assert(d * h <= 2000 * 60000) by (nonlinear_arith)
                requires
                    d <= 2000,
                    h < 60000,
            ;
        }
        m1 + d * h / 60000
    } else if h < 180000 {
        m2
    } else if h < 240000 {
        proof {
            assert(d * (240000 - h) <= 2000 * 60000) by (nonlinear_arith)
                requires
                    d <= 2000,
                    180000 <= h < 240000,
            ;
        }
        m1 + d * (240000 - h) / 60000
    } else {
        m1
    }
}

fn exec_chan1000(c: u64) -> (r: u8)
    requires
        c <= 4000,
    ensures
        r == chan1000(c as int),
{
    let q = (2 * c * 255 + 1000) / 2000;
    if q > 255 {
        255
    } else {
        q as u8
    }
}

fn exec_hsl_bytes(h: u64, s: u64, l: u64) -> (r: (u8, u8, u8))
    requires
        h < 360000,
        s <= 1000,
        l <= 1000,
    ensures
        r == hsl_bytes(h as int, s as int, l as int),
{
    proof {
        assert(l * s / 1000 <= s && l * s <= 1_000_000 && l * (1000 + s) <= 2_000_000 && l * (
        1000 + s) / 1000 <= 2000) by (nonlinear_arith)
            requires
                l <= 1000,
                0 <= s <= 1000,
        ;
    }
    let m2: u64 = if l <= 500 {
        l * (1000 + s) / 1000
    } else {
        l + s - l * s / 1000
    };
    let m1: u64 = if 2 * l >= m2 {
        2 * l - m2
    } else {
        0
    };
    let r = exec_hue_to_rgb(m1, m2, (h + 120000) % 360000);
    let g = exec_hue_to_rgb(m1, m2, h % 360000);
    let b = exec_hue_to_rgb(m1, m2, (h + 240000) % 360000);
    (exec_chan1000(r), exec_chan1000(g), exec_chan1000(b))
}

fn exec_hsl_color(args: &Vec<ComponentValue>) -> (r: Result<Color, ()>)
    ensures
        match hsl_color(args@) {
            Some(c) => r == Ok::<Color, ()>(c),
            None => r == Err::<Color, ()>(()),
        },
{
    let i0 = exec_cv_skip_ws_pub(args, 0);
    if i0 >= args.len() || !matches!(args[i0], ComponentValue::Number(_)) {
        return Err(());
    }
    let (ok1, i1) = exec_after_comma(args, i0 + 1);
    if !ok1 || i1 >= args.len() || !matches!(args[i1], ComponentValue::Percentage(_)) {
        return Err(());
    }
    let (ok2, i2) = exec_after_comma(args, i1 + 1);
    if !ok2 || i2 >= args.len() || !matches!(args[i2], ComponentValue::Percentage(_)) {
        return Err(());
    }
    proof {
        assert(args@[i0 as int] is Number && args@[i1 as int] is Percentage && args@[i2 as int]
            is Percentage);
    }
    let rgbv: (u8, u8, u8) = match (&args[i0], &args[i1], &args[i2]) {
        (
            ComponentValue::Number(hn),
            ComponentValue::Percentage(sn),
            ComponentValue::Percentage(ln),
        ) => {
            let h = exec_hue_fix(hn.numerator, hn.denominator);
            let s = exec_pct_fix(sn.numerator, sn.denominator);
            let l = exec_pct_fix(ln.numerator, ln.denominator);
            exec_hsl_bytes(h, s, l)
        },
        _ => {
            proof {
                assert(false);
            }
            (0, 0, 0)
        },
    };
    proof {
        assert(rgbv == hsl_args_bytes(args@[i0 as int], args@[i1 as int], args@[i2 as int]));
    }
    let j = exec_cv_skip_ws_pub(args, i2 + 1);
    if j >= args.len() {
        return Ok(
            Color::RGBA(
                RGBA {
                    red: rgbv.0,
                    green: rgbv.1,
                    blue: rgbv.2,
                    alpha_num: 1,
                    alpha_den: 1,
                },
            ),
        );
    }
    let (oka, ia) = exec_after_comma(args, i2 + 1);
    if !oka || ia >= args.len() {
        return Err(());
    }
    match &args[ia] {
        ComponentValue::Number(nv) => {
            if exec_cv_skip_ws_pub(args, ia + 1) >= args.len() {
                let a = exec_alpha_of(nv.numerator, nv.denominator);
                Ok(
                    Color::RGBA(
                        RGBA {
                            red: rgbv.0,
                            green: rgbv.1,
                            blue: rgbv.2,
                            alpha_num: a.0,
                            alpha_den: a.1,
                        },
                    ),
                )
            } else {
                Err(())
            }
        },
        _ => Err(()),
    }
}

impl Color {
    /// Reads a color from one component value: `currentColor`, a color
    /// keyword, a hex hash, or an `rgb`/`rgba`/`hsl`/`hsla` function.
    #[verifier::rlimit(100)]
    pub fn parse(cv: &ComponentValue) -> (r: Result<Color, ()>)
        ensures
            match spec_color(*cv) {
                Some(c) => r == Ok::<Color, ()>(c),
                None => r == Err::<Color, ()>(()),
            },
    {
        match cv {
            ComponentValue::Ident(n) => {
                let l = crate::tokenizer::lower_chars(n);
                proof {
                    reveal_strlit("currentcolor");
                    reveal_strlit("transparent");
                    assert("currentcolor"@ =~= currentcolor_kw());
                    assert("transparent"@ =~= transparent_kw());
                }
                if chars_eq_str(&l, "currentcolor") {
                    Ok(Color::CurrentColor)
                } else if chars_eq_str(&l, "transparent") {
                    Ok(
                        Color::RGBA(
                            RGBA { red: 0, green: 0, blue: 0, alpha_num: 0, alpha_den: 1 },
                        ),
                    )
                } else {
                    match exec_keyword_color(&l) {
                        Some(rgba) => Ok(Color::RGBA(rgba)),
                        None => Err(()),
                    }
                }
            },
            ComponentValue::Hash(s) => {
                let v = str_to_chars(s.as_str());
                match exec_hex_color(&v) {
                    Some(c) => Ok(c),
                    None => Err(()),
                }
            },
            ComponentValue::IDHash(s) => {
                let v = str_to_chars(s.as_str());
                match exec_hex_color(&v) {
                    Some(c) => Ok(c),
                    None => Err(()),
                }
            },
            ComponentValue::Function(name, args) => {
                let l = crate::tokenizer::lower_chars(name);
                let is_rgb = chars_eq_str(&l, "rgb") || chars_eq_str(&l, "rgba");
                let is_hsl = chars_eq_str(&l, "hsl") || chars_eq_str(&l, "hsla");
                proof {
                    reveal_strlit("rgb");
                    reveal_strlit("rgba");
                    reveal_strlit("hsl");
                    reveal_strlit("hsla");
                    assert("rgb"@ =~= seq!['r', 'g', 'b']);
                    assert("rgba"@ =~= seq!['r', 'g', 'b', 'a']);
                    assert("hsl"@ =~= seq!['h', 's', 'l']);
                    assert("hsla"@ =~= seq!['h', 's', 'l', 'a']);
                }
                if is_rgb {
                    exec_rgb_color(args)
                } else if is_hsl {
                    exec_hsl_color(args)
                } else {
                    Err(())
                }
            },
            _ => Err(()),
        }
    }
}

// ---------------------------------------------------------------------------
// Color serialization.
// ---------------------------------------------------------------------------

pub open spec fn digit_char_of(d: int) -> char {
    ((0x30 + if 0 <= d <= 9 {
        d
    } else {
        0
    }) as u8) as char
}

/// The decimal digits of a non-negative integer.
pub open spec fn dec_of(v: int) -> Seq<char>
    decreases v,
{
    if v < 10 {
        seq![digit_char_of(if v < 0 {
            0
        } else {
            v
        })]
    } else {
        dec_of(v / 10) + seq![digit_char_of(v % 10)]
    }
}

/// Decimal fraction digits of `rem / den` by long division, at most `k`
/// digits, stopping when the remainder runs out.
pub open spec fn frac_digits(rem: int, den: int, k: int) -> Seq<char>
    decreases k,
{
    if k <= 0 || rem <= 0 || den <= 0 {
        Seq::empty()
    } else {
        let d = rem * 10 / den;
        seq![digit_char_of(d)] + frac_digits(rem * 10 - d * den, den, k - 1)
    }
}

/// The alpha channel as decimal text.
pub open spec fn alpha_text(num: int, den: int) -> Seq<char> {
    if num <= 0 {
        seq!['0']
    } else {
        seq!['0', '.'] + frac_digits(if num > den {
            den - 1
        } else {
            num
        }, den, 12)
    }
}

/// The serialization of a color: the `currentColor` keyword, or
/// `rgb(R, G, B)` when the alpha is one, or `rgba(R, G, B, A)` with the
/// alpha as a decimal fraction.
pub open spec fn serialize_color(c: Color) -> Seq<char> {
    match c {
        Color::CurrentColor => seq!['c', 'u', 'r', 'r', 'e', 'n', 't', 'C', 'o', 'l', 'o', 'r'],
        Color::RGBA(r) => {
            let channels = dec_of(r.red as int) + seq![',', ' '] + dec_of(r.green as int)
                + seq![',', ' '] + dec_of(r.blue as int);
            if r.alpha_num == r.alpha_den {
                seq!['r', 'g', 'b', '('] + channels + seq![')']
            } else {
                seq!['r', 'g', 'b', 'a', '('] + channels + seq![',', ' '] + alpha_text(
                    r.alpha_num as int,
                    r.alpha_den as int,
                ) + seq![')']
            }
        },
    }
}

fn push_dec(out: &mut Vec<char>, v: u64)
    ensures
        final(out)@ == old(out)@ + dec_of(v as int),
    decreases v,
{
    if v < 10 {
        out.push(((0x30 + v) as u8) as char);
        proof {
            assert(final(out)@ =~= old(out)@ + dec_of(v as int));
        }
    } else {
        push_dec(out, v / 10);
        out.push(((0x30 + v % 10) as u8) as char);
        proof {
            assert(final(out)@ =~= old(out)@ + dec_of(v as int));
        }
    }
}

fn push_frac(out: &mut Vec<char>, rem: u64, den: u64, k: u64)
    requires
        rem < den,
    ensures
        final(out)@ == old(out)@ + frac_digits(rem as int, den as int, k as int),
    decreases k,
{
    if k == 0 || rem == 0 {
        proof {
            assert(final(out)@ =~= old(out)@ + frac_digits(rem as int, den as int, k as int));
        }
    } else {
        let wide = (rem as u128) * 10;
        let dq = wide / (den as u128);
        proof {
            assert(dq * (den as int) <= wide && dq <= 9 && wide - dq * (den as int) < den as int)
                by (nonlinear_arith)
                requires
                    0 < den,
                    0 <= (rem as int) < den,
                    wide == (rem as int) * 10,
                    dq == wide as int / (den as int),
            ;
        }
        let d = dq as u64;
        let rem2 = (wide - dq * (den as u128)) as u64;
        out.push(((0x30 + d) as u8) as char);
        push_frac(out, rem2, den, k - 1);
        proof {
            assert(final(out)@ =~= old(out)@ + frac_digits(rem as int, den as int, k as int));
        }
    }
}

impl Color {
    /// Renders this color to CSS text.
    #[verifier::rlimit(100)]
    pub fn to_css_string(&self) -> (r: String)
        ensures
            r@ == serialize_color(*self),
    {
        let mut out: Vec<char> = Vec::new();
        match self {
            Color::CurrentColor => {
                crate::serializer::push_str_chars(&mut out, "currentColor");
                proof {
                    reveal_strlit("currentColor");
                    assert(out@ =~= serialize_color(*self));
                }
            },
            Color::RGBA(rgba) => {
                if rgba.alpha_num == rgba.alpha_den {
                    crate::serializer::push_str_chars(&mut out, "rgb(");
                    proof {
                        reveal_strlit("rgb(");
                    }
                } else {
                    crate::serializer::push_str_chars(&mut out, "rgba(");
                    proof {
                        reveal_strlit("rgba(");
                    }
                }
                push_dec(&mut out, rgba.red as u64);
                out.push(',');
                out.push(' ');
                push_dec(&mut out, rgba.green as u64);
                out.push(',');
                out.push(' ');
                push_dec(&mut out, rgba.blue as u64);
                if rgba.alpha_num != rgba.alpha_den {
                    out.push(',');
                    out.push(' ');
                    if rgba.alpha_num == 0 {
                        out.push('0');
                        proof {
                            assert(alpha_text(rgba.alpha_num as int, rgba.alpha_den as int)
                                =~= seq!['0']);
                        }
                    } else {
                        out.push('0');
                        out.push('.');
                        if rgba.alpha_den > 0 {
                            let capped = if rgba.alpha_num > rgba.alpha_den {
                                rgba.alpha_den - 1
                            } else {
                                rgba.alpha_num
                            };
                            push_frac(&mut out, capped, rgba.alpha_den, 12);
                        }
                    }
                }
                out.push(')');
                proof {
                    assert(out@ =~= serialize_color(*self));
                }
            },
        }
        chars_to_string(&out)
    }
}

} // verus!
