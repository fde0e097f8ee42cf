//! Colour themes of the interface and the colour each HTTP method is drawn in.
use vstd::prelude::*;
use vstd::utf8::*;
use crate::text::{str_eq, to_lowercase, unicode_lowercase};
use crate::utf8len::{byte_slice, byte_text, str_byte_len, utf8_len};

verus! {

/// An RGB colour.
pub type Rgb = (u8, u8, u8);

/// The colours the interface is drawn with.
#[derive(Debug, Clone, Copy)]
pub struct Theme {
    pub primary: Rgb,
    pub fg: Rgb,
    pub comment: Rgb,
    pub orange: Rgb,
    pub yellow: Rgb,
    pub teal: Rgb,
    pub blue: Rgb,
    pub pink: Rgb,
}

/// The theme of a lower-case name; Vesper for any name not listed.
pub open spec fn theme_named(name: Seq<char>) -> Theme {
    if name == "dracula"@ {
        Theme {
            primary: (0x8b, 0xe9, 0xfd),
            fg: (0xf8, 0xf8, 0xf2),
            comment: (0x62, 0x72, 0xa4),
            orange: (0xff, 0xb8, 0x6c),
            yellow: (0xf1, 0xfa, 0x8c),
            teal: (0x8b, 0xe9, 0xfd),
            blue: (0xbd, 0x93, 0xf9),
            pink: (0xff, 0x79, 0xc6),
        }
    } else if name == "gruvbox"@ {
        Theme {
            primary: (0x8e, 0xc0, 0x7c),
            fg: (0xeb, 0xdb, 0xb2),
            comment: (0x92, 0x83, 0x74),
            orange: (0xfe, 0x80, 0x19),
            yellow: (0xfa, 0xbd, 0x2f),
            teal: (0x8e, 0xc0, 0x7c),
            blue: (0x83, 0xa5, 0x98),
            pink: (0xd3, 0x86, 0x9b),
        }
    } else if name == "tokyo-night"@ {
        Theme {
            primary: (0x73, 0xdc, 0xad),
            fg: (0xa9, 0xb1, 0xd6),
            comment: (0x56, 0x5f, 0x89),
            orange: (0xff, 0x9e, 0x64),
            yellow: (0xe0, 0xaf, 0x68),
            teal: (0x73, 0xdc, 0xad),
            blue: (0x7a, 0xa2, 0xf7),
            pink: (0xbb, 0x9a, 0xfe),
        }
    } else if name == "catppuccin"@ {
        Theme {
            primary: (0xa6, 0xe3, 0xa1),
            fg: (0xcd, 0xe6, 0xf6),
            comment: (0x6c, 0x70, 0x86),
            orange: (0xf5, 0xa9, 0x7f),
            yellow: (0xf9, 0xe2, 0xaf),
            teal: (0x94, 0xe2, 0xd5),
            blue: (0x89, 0xb4, 0xfa),
            pink: (0xf5, 0xc2, 0xe7),
        }
    } else {
        Theme {
            primary: (0x5c, 0xb8, 0xb2),
            fg: (0xcc, 0xc9, 0xc2),
            comment: (0x4d, 0x4d, 0x4d),
            orange: (0xff, 0x98, 0x57),
            yellow: (0xe5, 0xc0, 0x7b),
            teal: (0x5c, 0xb8, 0xb2),
            blue: (0x5b, 0xa2, 0xd0),
            pink: (0xd6, 0x7a, 0x9c),
        }
    }
}

impl Theme {
    /// The theme a name selects, compared after Unicode lower-casing.
    pub fn get(name: &str) -> (t: Theme)
        ensures
            t == theme_named(unicode_lowercase(name@)),
    {
        let lower = to_lowercase(name);
        let l = lower.as_str();
        if str_eq(l, "dracula") {
            Theme {
                primary: (0x8b, 0xe9, 0xfd),
                fg: (0xf8, 0xf8, 0xf2),
                comment: (0x62, 0x72, 0xa4),
                orange: (0xff, 0xb8, 0x6c),
                yellow: (0xf1, 0xfa, 0x8c),
                teal: (0x8b, 0xe9, 0xfd),
                blue: (0xbd, 0x93, 0xf9),
                pink: (0xff, 0x79, 0xc6),
            }
        } else if str_eq(l, "gruvbox") {
            Theme {
                primary: (0x8e, 0xc0, 0x7c),
                fg: (0xeb, 0xdb, 0xb2),
                comment: (0x92, 0x83, 0x74),
                orange: (0xfe, 0x80, 0x19),
                yellow: (0xfa, 0xbd, 0x2f),
                teal: (0x8e, 0xc0, 0x7c),
                blue: (0x83, 0xa5, 0x98),
                pink: (0xd3, 0x86, 0x9b),
            }
        } else if str_eq(l, "tokyo-night") {
            Theme {
                primary: (0x73, 0xdc, 0xad),
                fg: (0xa9, 0xb1, 0xd6),
                comment: (0x56, 0x5f, 0x89),
                orange: (0xff, 0x9e, 0x64),
                yellow: (0xe0, 0xaf, 0x68),
                teal: (0x73, 0xdc, 0xad),
                blue: (0x7a, 0xa2, 0xf7),
                pink: (0xbb, 0x9a, 0xfe),
            }
        } else if str_eq(l, "catppuccin") {
            Theme {
                primary: (0xa6, 0xe3, 0xa1),
                fg: (0xcd, 0xe6, 0xf6),
                comment: (0x6c, 0x70, 0x86),
                orange: (0xf5, 0xa9, 0x7f),
                yellow: (0xf9, 0xe2, 0xaf),
                teal: (0x94, 0xe2, 0xd5),
                blue: (0x89, 0xb4, 0xfa),
                pink: (0xf5, 0xc2, 0xe7),
            }
        } else {
            Theme {
                primary: (0x5c, 0xb8, 0xb2),
                fg: (0xcc, 0xc9, 0xc2),
                comment: (0x4d, 0x4d, 0x4d),
                orange: (0xff, 0x98, 0x57),
                yellow: (0xe5, 0xc0, 0x7b),
                teal: (0x5c, 0xb8, 0xb2),
                blue: (0x5b, 0xa2, 0xd0),
                pink: (0xd6, 0x7a, 0x9c),
            }
        }
    }
}

/// A colour of the interface: a fixed terminal colour or a slot of the theme.
#[derive(Debug, Clone, Copy, PartialEq, Eq, Structural)]
pub enum Tint {
    Green,
    Red,
    /// The 256-colour palette entry with this index.
    Indexed(u8),
    ThemeBlue,
    ThemeYellow,
    ThemePink,
    ThemeTeal,
}

/// The colour a method name is written in.
pub open spec fn method_tint(m: Seq<char>) -> Tint {
    if m == "GET"@ {
        Tint::Green
    } else if m == "POST"@ {
        Tint::ThemeBlue
    } else if m == "PUT"@ {
        Tint::ThemeYellow
    } else if m == "PATCH"@ {
        Tint::ThemePink
    } else if m == "DELETE"@ {
        Tint::Red
    } else {
        Tint::ThemeTeal
    }
}

/// The colour of a method's pill: as `method_tint`, with HEAD in orange (208).
pub open spec fn method_pill_tint(m: Seq<char>) -> Tint {
    if m == "GET"@ || m == "POST"@ || m == "PUT"@ || m == "PATCH"@ || m == "DELETE"@ || m == "OPTIONS"@ {
        method_tint(m)
    } else if m == "HEAD"@ {
        Tint::Indexed(208)
    } else {
        Tint::ThemeTeal
    }
}

/// The colour a method name is written in.
pub fn method_color(m: &str) -> (t: Tint)
    ensures
        t == method_tint(m@),
{
    if str_eq(m, "GET") {
        Tint::Green
    } else if str_eq(m, "POST") {
        Tint::ThemeBlue
    } else if str_eq(m, "PUT") {
        Tint::ThemeYellow
    } else if str_eq(m, "PATCH") {
        Tint::ThemePink
    } else if str_eq(m, "DELETE") {
        Tint::Red
    } else {
        Tint::ThemeTeal
    }
}

/// The colour of a method's pill.
pub fn method_pill_color(m: &str) -> (t: Tint)
    ensures
        t == method_pill_tint(m@),
{
    if str_eq(m, "GET") {
        Tint::Green
    } else if str_eq(m, "POST") {
        Tint::ThemeBlue
    } else if str_eq(m, "PUT") {
        Tint::ThemeYellow
    } else if str_eq(m, "PATCH") {
        Tint::ThemePink
    } else if str_eq(m, "DELETE") {
        Tint::Red
    } else if str_eq(m, "OPTIONS") {
        Tint::ThemeTeal
    } else if str_eq(m, "HEAD") {
        Tint::Indexed(208)
    } else {
        Tint::ThemeTeal
    }
}

/// At most the first `max` bytes of `s`; the cut must fall on a character
/// boundary when `s` is longer.
pub fn truncate(s: &str, max: usize) -> (r: &str)
    requires
        utf8_len(s@) > max ==> is_char_boundary(encode_utf8(s@), max as int),
    ensures
        utf8_len(s@) <= max ==> r@ == s@,
        utf8_len(s@) > max ==> r@ == byte_text(s@, 0, max as int),
{
    if str_byte_len(s) <= max {
        s
    } else {
        proof {
            encode_utf8_valid_utf8(s@);
            is_char_boundary_start_end_of_seq(encode_utf8(s@));
        }
        byte_slice(s, 0, max)
    }
}

} // verus!
