//! Accent color of the desktop, kept in the `accent-color` key of the
//! `org.gnome.desktop.interface` GSettings schema.
//!
//! Reading and writing GSettings is left to the caller; this module decides
//! which color a stored value stands for and which value a color is stored as.
use vstd::prelude::*;
use crate::text::{chars_of, strip_char, stripped, text_is, trim_text, trimmed};

verus! {

/// Available accent colors in GNOME.
#[derive(Debug, Clone, Copy, PartialEq, Eq, Structural)]
pub enum AccentColor {
    Blue,
    Teal,
    Green,
    Yellow,
    Orange,
    Red,
    Pink,
    Purple,
    Slate,
}

/// The GSettings value of a color.
pub open spec fn accent_name(c: AccentColor) -> Seq<char> {
    match c {
        AccentColor::Blue => "blue"@,
        AccentColor::Teal => "teal"@,
        AccentColor::Green => "green"@,
        AccentColor::Yellow => "yellow"@,
        AccentColor::Orange => "orange"@,
        AccentColor::Red => "red"@,
        AccentColor::Pink => "pink"@,
        AccentColor::Purple => "purple"@,
        AccentColor::Slate => "slate"@,
    }
}

/// The color whose GSettings value is `s`, if any.
pub open spec fn accent_of(s: Seq<char>) -> Option<AccentColor> {
    if s == "blue"@ {
        Some(AccentColor::Blue)
    } else if s == "teal"@ {
        Some(AccentColor::Teal)
    } else if s == "green"@ {
        Some(AccentColor::Green)
    } else if s == "yellow"@ {
        Some(AccentColor::Yellow)
    } else if s == "orange"@ {
        Some(AccentColor::Orange)
    } else if s == "red"@ {
        Some(AccentColor::Red)
    } else if s == "pink"@ {
        Some(AccentColor::Pink)
    } else if s == "purple"@ {
        Some(AccentColor::Purple)
    } else if s == "slate"@ {
        Some(AccentColor::Slate)
    } else {
        None
    }
}

/// The color a stored value selects: an unknown value selects blue.
pub open spec fn accent_or_blue(s: Seq<char>) -> AccentColor {
    match accent_of(s) {
        Some(c) => c,
        None => AccentColor::Blue,
    }
}

/// All colors, in the order GNOME lists them.
pub open spec fn all_accents() -> Seq<AccentColor> {
    seq![
        AccentColor::Blue,
        AccentColor::Teal,
        AccentColor::Green,
        AccentColor::Yellow,
        AccentColor::Orange,
        AccentColor::Red,
        AccentColor::Pink,
        AccentColor::Purple,
        AccentColor::Slate,
    ]
}

fn accent_of_chars(v: &[char]) -> (r: Option<AccentColor>)
    ensures
        r == accent_of(v@),
{
    if text_is(v, "blue") {
        Some(AccentColor::Blue)
    } else if text_is(v, "teal") {
        Some(AccentColor::Teal)
    } else if text_is(v, "green") {
        Some(AccentColor::Green)
    } else if text_is(v, "yellow") {
        Some(AccentColor::Yellow)
    } else if text_is(v, "orange") {
        Some(AccentColor::Orange)
    } else if text_is(v, "red") {
        Some(AccentColor::Red)
    } else if text_is(v, "pink") {
        Some(AccentColor::Pink)
    } else if text_is(v, "purple") {
        Some(AccentColor::Purple)
    } else if text_is(v, "slate") {
        Some(AccentColor::Slate)
    } else {
        None
    }
}

impl AccentColor {
    /// Parse an accent color from its GSettings value.
    pub fn from_str(value: &str) -> (r: Option<Self>)
        ensures
            r == accent_of(value@),
    {
        let v = chars_of(value);
        accent_of_chars(v.as_slice())
    }

    /// The GSettings value of the accent color.
    pub fn as_str(&self) -> (s: &'static str)
        ensures
            s@ == accent_name(*self),
    {
        match self {
            AccentColor::Blue => "blue",
            AccentColor::Teal => "teal",
            AccentColor::Green => "green",
            AccentColor::Yellow => "yellow",
            AccentColor::Orange => "orange",
            AccentColor::Red => "red",
            AccentColor::Pink => "pink",
            AccentColor::Purple => "purple",
            AccentColor::Slate => "slate",
        }
    }

    /// List all available accent colors.
    pub fn all() -> (v: Vec<AccentColor>)
        ensures
            v@ == all_accents(),
    {
        let v = vec![
            AccentColor::Blue,
            AccentColor::Teal,
            AccentColor::Green,
            AccentColor::Yellow,
            AccentColor::Orange,
            AccentColor::Red,
            AccentColor::Pink,
            AccentColor::Purple,
            AccentColor::Slate,
        ];
        assert(v@ =~= all_accents());
        v
    }
}

/// Service deciding the accent color from the stored GSettings value.
pub struct AccentColorService;

impl AccentColorService {
    /// The accent color for the value read from GSettings: surrounding
    /// whitespace and quotes are removed first; an unknown value or a failed
    /// read gives blue.
    pub fn get_accent_color(setting: Result<String, String>) -> (c: AccentColor)
        ensures
            c == match setting {
                Ok(s) => accent_or_blue(stripped(trimmed(s@), '\'')),
                Err(_) => AccentColor::Blue,
            },
    {
        match setting {
            Ok(s) => {
                let v = chars_of(s.as_str());
                let t = trim_text(v.as_slice());
                let u = strip_char(t.as_slice(), '\'');
                match accent_of_chars(u.as_slice()) {
                    Some(c) => c,
                    None => AccentColor::Blue,
                }
            },
            Err(_) => AccentColor::Blue,
        }
    }

    /// The accent color announced when the stored value changes: the value as
    /// it is, an unknown value giving blue.
    pub fn color_from_change(value: &str) -> (c: AccentColor)
        ensures
            c == accent_or_blue(value@),
    {
        match AccentColor::from_str(value) {
            Some(c) => c,
            None => AccentColor::Blue,
        }
    }
}

/// Every color is read back from the value it is stored as.
pub proof fn law_accent_round_trip(c: AccentColor)
    ensures
        accent_of(accent_name(c)) == Some(c),
{
    reveal_strlit("blue");
    reveal_strlit("teal");
    reveal_strlit("green");
    reveal_strlit("yellow");
    reveal_strlit("orange");
    reveal_strlit("red");
    reveal_strlit("pink");
    reveal_strlit("purple");
    reveal_strlit("slate");
    let n = accent_name(c);
    assert("blue"@[0] == 'b' && "teal"@[0] == 't' && "green"@[0] == 'g' && "yellow"@[0] == 'y');
    assert("orange"@[0] == 'o' && "red"@[0] == 'r' && "pink"@[0] == 'p' && "purple"@[0] == 'p');
    assert("slate"@[0] == 's' && "pink"@.len() == 4 && "purple"@.len() == 6);
    if n == "blue"@ {
        assert(n[0] == 'b');
    }
    if n == "teal"@ {
        assert(n[0] == 't');
    }
    if n == "green"@ {
        assert(n[0] == 'g');
    }
    if n == "yellow"@ {
        assert(n[0] == 'y');
    }
    if n == "orange"@ {
        assert(n[0] == 'o');
    }
    if n == "red"@ {
        assert(n[0] == 'r');
    }
    if n == "pink"@ {
        assert(n[0] == 'p' && n.len() == 4);
    }
    if n == "purple"@ {
        assert(n[0] == 'p' && n.len() == 6);
    }
}

} // verus!
