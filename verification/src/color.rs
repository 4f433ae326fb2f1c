//! Colors for the sprite: the fixed agent palette, the fade applied to
//! parked vehicles, and the insert-if-absent registry of named colors
//! (the first definition of a name wins).

use vstd::prelude::*;

verus! {

/// An RGBA color, each channel 0 to 255.
#[derive(Clone, Copy, PartialEq, Eq, Structural, Debug)]
pub struct Color {
    pub r: u8,
    pub g: u8,
    pub b: u8,
    pub a: u8,
}

/// The named colors the sprite builder registers.
#[derive(Clone, Copy, PartialEq, Eq, Structural, Debug)]
pub enum ColorName {
    TurnArrow,
    BrakeLight,
    Bus,
}

/// The fixed palette a moving vehicle's color rotates through, keyed by
/// the vehicle's numeric identity modulo the palette size.
pub open spec fn spec_agent_color(idx: u64) -> Color {
    let k = (idx as int) % 5;
    if k == 0 {
        Color { r: 255, g: 0, b: 0, a: 255 }
    } else if k == 1 {
        Color { r: 0, g: 0, b: 255, a: 255 }
    } else if k == 2 {
        Color { r: 0, g: 160, b: 0, a: 255 }
    } else if k == 3 {
        Color { r: 128, g: 0, b: 128, a: 255 }
    } else {
        Color { r: 255, g: 165, b: 0, a: 255 }
    }
}

/// The stable rotating color for one agent identity.
pub fn agent_color(idx: u64) -> (c: Color)
    ensures
        c == spec_agent_color(idx),
{
    let k = idx % 5;
    if k == 0 {
        Color { r: 255, g: 0, b: 0, a: 255 }
    } else if k == 1 {
        Color { r: 0, g: 0, b: 255, a: 255 }
    } else if k == 2 {
        Color { r: 0, g: 160, b: 0, a: 255 }
    } else if k == 3 {
        Color { r: 128, g: 0, b: 128, a: 255 }
    } else {
        Color { r: 255, g: 165, b: 0, a: 255 }
    }
}

/// Fading by the factor 3/2: each color channel is multiplied by 2/3
/// (truncated); the alpha channel is kept.
pub open spec fn spec_fade(c: Color) -> Color {
    Color {
        r: ((c.r as int) * 2 / 3) as u8,
        g: ((c.g as int) * 2 / 3) as u8,
        b: ((c.b as int) * 2 / 3) as u8,
        a: c.a,
    }
}

/// `spec_fade` on machine integers.
pub fn fade(c: Color) -> (r: Color)
    ensures
        r == spec_fade(c),
{
    Color {
        r: ((c.r as u16) * 2 / 3) as u8,
        g: ((c.g as u16) * 2 / 3) as u8,
        b: ((c.b as u16) * 2 / 3) as u8,
        a: c.a,
    }
}

/// The default color of a bus body.
pub open spec fn spec_bus_color() -> Color {
    Color { r: 50, g: 133, b: 117, a: 255 }
}

/// The default color of a turn arrow.
pub open spec fn spec_turn_arrow_color() -> Color {
    Color { r: 223, g: 140, b: 61, a: 255 }
}

/// The default color of a brake light.
pub open spec fn spec_brake_light_color() -> Color {
    Color { r: 255, g: 19, b: 0, a: 255 }
}

/// The color of a label's text.
pub open spec fn spec_label_color() -> Color {
    Color { r: 249, g: 206, b: 24, a: 255 }
}

/// The first color registered under `n` at or after index `i`, if any.
pub open spec fn lookup_from(entries: Seq<(ColorName, Color)>, i: int, n: ColorName) -> Option<
    Color,
>
    decreases entries.len() - i,
{
    if i < 0 || i >= entries.len() {
        None
    } else if entries[i].0 == n {
        Some(entries[i].1)
    } else {
        lookup_from(entries, i + 1, n)
    }
}

/// The shared registry of named colors: a name, once registered, keeps its
/// first color.
#[derive(Clone, Debug)]
pub struct ColorScheme {
    pub entries: Vec<(ColorName, Color)>,
}

/// The registry after a lookup of `n` with default `def`: unchanged if `n`
/// was registered, extended by `(n, def)` otherwise.
pub open spec fn spec_register(entries: Seq<(ColorName, Color)>, n: ColorName, def: Color) -> Seq<
    (ColorName, Color),
> {
    match lookup_from(entries, 0, n) {
        Option::Some(_) => entries,
        Option::None => entries.push((n, def)),
    }
}

/// The color such a lookup returns.
pub open spec fn spec_get_def(entries: Seq<(ColorName, Color)>, n: ColorName, def: Color) -> Color {
    match lookup_from(entries, 0, n) {
        Option::Some(c) => c,
        Option::None => def,
    }
}

impl ColorScheme {
    /// An empty registry.
    pub fn new() -> (s: ColorScheme)
        ensures
            s.entries@ =~= Seq::<(ColorName, Color)>::empty(),
    {
        ColorScheme { entries: Vec::new() }
    }

    /// Returns the color registered under `name`, registering `default`
    /// first if the name is new: the first definition of a name wins.
    pub fn get_def(&mut self, name: ColorName, default: Color) -> (c: Color)
        ensures
            c == spec_get_def(old(self).entries@, name, default),
            final(self).entries@ == spec_register(old(self).entries@, name, default),
    {
        let found = lookup_exec(&self.entries, 0, name);
        match found {
            Option::Some(c) => c,
            Option::None => {
                self.entries.push((name, default));
                default
            },
        }
    }
}

/// `lookup_from`, on machine integers.
fn lookup_exec(entries: &Vec<(ColorName, Color)>, i: usize, n: ColorName) -> (r: Option<Color>)
    requires
        i <= entries@.len(),
    ensures
        r == lookup_from(entries@, i as int, n),
    decreases entries@.len() - i,
{
    if i >= entries.len() {
        Option::None
    } else if entries[i].0 == n {
        Option::Some(entries[i].1)
    } else {
        lookup_exec(entries, i + 1, n)
    }
}

} // verus!
