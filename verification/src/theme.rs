//! UI palettes: four named colour schemes, their parsing from the command
//! line or configuration, and the active palette that `T` cycles.

use vstd::prelude::*;

use crate::text::{ascii_lower, ascii_lowercase, str_eq, trim, trim_str};

verus! {

/// A colour scheme.
#[derive(Debug, Clone, Copy, PartialEq, Eq, Structural)]
pub enum Palette {
    /// Dark: magenta and blue accents.
    Midnight,
    /// Light: warm amber and brown accents.
    Cream,
    /// Light: monochrome, high contrast on a white background.
    Mono,
    /// Light: Catppuccin Latte pastels.
    Latte,
}

impl Default for Palette {
    fn default() -> (r: Self)
        ensures
            r == Palette::Midnight,
    {
        Palette::Midnight
    }
}

/// The cycling order of the palettes.
pub open spec fn palette_order() -> Seq<Palette> {
    seq![Palette::Midnight, Palette::Cream, Palette::Mono, Palette::Latte]
}

/// Position of a palette in the cycling order.
pub open spec fn palette_index(p: Palette) -> int {
    match p {
        Palette::Midnight => 0,
        Palette::Cream => 1,
        Palette::Mono => 2,
        Palette::Latte => 3,
    }
}

/// The palette a (trimmed, lower-cased) name selects.
pub open spec fn palette_named(key: Seq<char>) -> Option<Palette> {
    if key == Seq::<char>::empty() || key == "dark"@ || key == "midnight"@ || key == "slate"@ {
        Some(Palette::Midnight)
    } else if key == "cream"@ {
        Some(Palette::Cream)
    } else if key == "light"@ || key == "paper"@ || key == "mono"@ {
        Some(Palette::Mono)
    } else if key == "latte"@ {
        Some(Palette::Latte)
    } else {
        None
    }
}

/// The error message for an unknown theme name.
pub open spec fn unknown_theme_message(key: Seq<char>) -> Seq<char> {
    "unknown theme '"@ + key + "' (use midnight|cream|mono|latte; dark|light aliases ok)"@
}

/// Reads a palette name: surrounding whitespace and ASCII case are ignored;
/// `dark`/`slate`/empty alias `midnight`, `light`/`paper` alias `mono`.
pub fn parse_palette(s: &str) -> (r: Result<Palette, String>)
    ensures
        match palette_named(ascii_lower(trim(s@))) {
            Some(p) => r == Ok::<Palette, String>(p),
            None => r matches Err(msg) && msg@ == unknown_theme_message(ascii_lower(trim(s@))),
        },
{
    let t = trim_str(s);
    let key = ascii_lowercase(t.as_str());
    let k = key.as_str();
    if k.unicode_len() == 0 || str_eq(k, "dark") || str_eq(k, "midnight") || str_eq(k, "slate") {
        proof {
            if k@.len() == 0 {
                assert(k@ =~= Seq::<char>::empty());
            }
        }
        Ok(Palette::Midnight)
    } else if str_eq(k, "cream") {
        Ok(Palette::Cream)
    } else if str_eq(k, "light") || str_eq(k, "paper") || str_eq(k, "mono") {
        Ok(Palette::Mono)
    } else if str_eq(k, "latte") {
        Ok(Palette::Latte)
    } else {
        let mut msg = String::from_str("unknown theme '");
        msg.append(k);
        msg.append("' (use midnight|cream|mono|latte; dark|light aliases ok)");
        Err(msg)
    }
}

impl core::str::FromStr for Palette {
    type Err = String;

    fn from_str(s: &str) -> Result<Self, Self::Err> {
        parse_palette(s)
    }
}

/// The configuration name of a palette.
pub open spec fn palette_name(p: Palette) -> Seq<char> {
    match p {
        Palette::Midnight => "midnight"@,
        Palette::Cream => "cream"@,
        Palette::Mono => "mono"@,
        Palette::Latte => "latte"@,
    }
}

impl Palette {
    /// Configuration name.
    pub fn as_str(self) -> (r: &'static str)
        ensures
            r@ == palette_name(self),
    {
        match self {
            Palette::Midnight => "midnight",
            Palette::Cream => "cream",
            Palette::Mono => "mono",
            Palette::Latte => "latte",
        }
    }

    /// Display name.
    pub fn label(self) -> (r: &'static str)
        ensures
            r@ == match self {
                Palette::Midnight => "Midnight"@,
                Palette::Cream => "Cream"@,
                Palette::Mono => "Mono"@,
                Palette::Latte => "Latte"@,
            },
    {
        match self {
            Palette::Midnight => "Midnight",
            Palette::Cream => "Cream",
            Palette::Mono => "Mono",
            Palette::Latte => "Latte",
        }
    }

    /// Only `Midnight` is meant for dark terminals.
    pub fn is_dark(self) -> (r: bool)
        ensures
            r == (self == Palette::Midnight),
    {
        match self {
            Palette::Midnight => true,
            _ => false,
        }
    }

    /// The next palette in the cycling order, wrapping around.
    pub fn next(self) -> (r: Palette)
        ensures
            r == palette_order()[(palette_index(self) + 1) % 4],
    {
        match self {
            Palette::Midnight => Palette::Cream,
            Palette::Cream => Palette::Mono,
            Palette::Mono => Palette::Latte,
            Palette::Latte => Palette::Midnight,
        }
    }
}

/// The palette currently in use.
#[derive(Debug)]
pub struct ThemeState {
    pub active: Palette,
}

impl ThemeState {
    /// Starts with the default palette.
    pub fn new() -> (r: Self)
        ensures
            r.active == Palette::Midnight,
    {
        ThemeState { active: Palette::Midnight }
    }
}

/// Sets the active palette (command line or configuration at start-up).
pub fn init(state: &mut ThemeState, palette: Palette)
    ensures
        final(state).active == palette,
{
    state.active = palette;
}

/// The active palette.
pub fn active_palette(state: &ThemeState) -> (r: Palette)
    ensures
        r == state.active,
{
    state.active
}

/// Switches to the next palette and returns it.
pub fn cycle_palette(state: &mut ThemeState) -> (r: Palette)
    ensures
        r == palette_order()[(palette_index(old(state).active) + 1) % 4],
        final(state).active == r,
{
    let next = active_palette(state).next();
    init(state, next);
    next
}

/// Four steps of `next` come back to the start.
pub proof fn law_cycle_returns_after_four(p: Palette)
    ensures
        palette_order()[(palette_index(palette_order()[(palette_index(palette_order()[(palette_index(
            palette_order()[(palette_index(p) + 1) % 4],
        ) + 1) % 4]) + 1) % 4]) + 1) % 4] == p,
{
}

/// `as_str` names each palette so that parsing the name gives it back.
pub proof fn law_parse_round_trip(p: Palette)
    ensures
        palette_named(ascii_lower(trim(match p {
            Palette::Midnight => "midnight"@,
            Palette::Cream => "cream"@,
            Palette::Mono => "mono"@,
            Palette::Latte => "latte"@,
        }))) == Some(p),
{
    reveal_strlit("midnight");
    reveal_strlit("cream");
    reveal_strlit("mono");
    reveal_strlit("latte");
    reveal_strlit("dark");
    reveal_strlit("slate");
    reveal_strlit("light");
    reveal_strlit("paper");
    let n = match p {
        Palette::Midnight => "midnight"@,
        Palette::Cream => "cream"@,
        Palette::Mono => "mono"@,
        Palette::Latte => "latte"@,
    };
    lemma_plain_name(n);
    assert(ascii_lower(trim(n)) == n);
}

proof fn lemma_plain_name(n: Seq<char>)
    requires
        forall|i: int| 0 <= i < n.len() ==> 'a' <= #[trigger] n[i] && n[i] <= 'z',
        n.len() > 0,
    ensures
        ascii_lower(trim(n)) == n,
{
    reveal_with_fuel(crate::text::trim_start, 2);
    reveal_with_fuel(crate::text::trim_end, 2);
    assert(crate::text::trim_start(n) == n);
    assert(crate::text::trim_end(n) == n);
    assert(ascii_lower(n) =~= n);
}

} // verus!
