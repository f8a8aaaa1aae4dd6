use vstd::prelude::*;

use crate::config::ThemeColors;
use crate::text::{ascii_lower_all, ascii_lower_chars, chars_eq, chars_of, trim, trim_chars};

verus! {

/// A 24-bit terminal colour.
#[derive(Clone, Copy, PartialEq, Eq, Structural, Debug)]
pub struct Rgb(pub u8, pub u8, pub u8);

/// The colours that every panel is drawn with.
#[derive(Clone, Copy)]
pub struct Theme {
    pub name: &'static str,
    pub bg: Rgb,
    pub panel: Rgb,
    pub accent: Rgb,
    pub title: Rgb,
    pub text: Rgb,
    pub dim: Rgb,
    pub ok: Rgb,
    pub warn: Rgb,
    pub danger: Rgb,
}

pub open spec fn spec_dark() -> Theme {
    Theme {
        name: "dark",
        bg: Rgb(18, 22, 32),
        panel: Rgb(24, 29, 42),
        accent: Rgb(88, 176, 255),
        title: Rgb(121, 216, 255),
        text: Rgb(214, 221, 232),
        dim: Rgb(112, 122, 140),
        ok: Rgb(92, 220, 152),
        warn: Rgb(255, 199, 92),
        danger: Rgb(255, 94, 104),
    }
}

pub open spec fn spec_light() -> Theme {
    Theme {
        name: "light",
        bg: Rgb(252, 252, 252),
        panel: Rgb(240, 242, 246),
        accent: Rgb(47, 108, 184),
        title: Rgb(29, 78, 148),
        text: Rgb(30, 34, 42),
        dim: Rgb(120, 128, 140),
        ok: Rgb(16, 128, 78),
        warn: Rgb(180, 130, 20),
        danger: Rgb(200, 40, 50),
    }
}

pub open spec fn spec_gruvbox() -> Theme {
    Theme {
        name: "gruvbox",
        bg: Rgb(40, 40, 40),
        panel: Rgb(60, 56, 54),
        accent: Rgb(131, 165, 152),
        title: Rgb(250, 189, 47),
        text: Rgb(235, 219, 178),
        dim: Rgb(146, 131, 116),
        ok: Rgb(152, 151, 26),
        warn: Rgb(214, 93, 14),
        danger: Rgb(204, 36, 29),
    }
}

pub open spec fn spec_dracula() -> Theme {
    Theme {
        name: "dracula",
        bg: Rgb(40, 42, 54),
        panel: Rgb(52, 54, 68),
        accent: Rgb(189, 147, 249),
        title: Rgb(255, 121, 198),
        text: Rgb(248, 248, 242),
        dim: Rgb(98, 114, 164),
        ok: Rgb(80, 250, 123),
        warn: Rgb(241, 250, 140),
        danger: Rgb(255, 85, 85),
    }
}

pub open spec fn spec_solarized() -> Theme {
    Theme {
        name: "solarized",
        bg: Rgb(0, 43, 54),
        panel: Rgb(7, 54, 66),
        accent: Rgb(38, 139, 210),
        title: Rgb(42, 161, 152),
        text: Rgb(131, 148, 150),
        dim: Rgb(88, 110, 117),
        ok: Rgb(133, 153, 0),
        warn: Rgb(181, 137, 0),
        danger: Rgb(220, 50, 47),
    }
}

pub open spec fn spec_nord() -> Theme {
    Theme {
        name: "nord",
        bg: Rgb(46, 52, 64),
        panel: Rgb(59, 66, 82),
        accent: Rgb(136, 192, 208),
        title: Rgb(143, 188, 187),
        text: Rgb(216, 222, 233),
        dim: Rgb(94, 108, 132),
        ok: Rgb(163, 190, 140),
        warn: Rgb(235, 203, 139),
        danger: Rgb(191, 97, 106),
    }
}

pub fn dark() -> (t: Theme)
    ensures
        t == spec_dark(),
{
    Theme {
        name: "dark",
        bg: Rgb(18, 22, 32),
        panel: Rgb(24, 29, 42),
        accent: Rgb(88, 176, 255),
        title: Rgb(121, 216, 255),
        text: Rgb(214, 221, 232),
        dim: Rgb(112, 122, 140),
        ok: Rgb(92, 220, 152),
        warn: Rgb(255, 199, 92),
        danger: Rgb(255, 94, 104),
    }
}

fn light() -> (t: Theme)
    ensures
        t == spec_light(),
{
    Theme {
        name: "light",
        bg: Rgb(252, 252, 252),
        panel: Rgb(240, 242, 246),
        accent: Rgb(47, 108, 184),
        title: Rgb(29, 78, 148),
        text: Rgb(30, 34, 42),
        dim: Rgb(120, 128, 140),
        ok: Rgb(16, 128, 78),
        warn: Rgb(180, 130, 20),
        danger: Rgb(200, 40, 50),
    }
}

fn gruvbox() -> (t: Theme)
    ensures
        t == spec_gruvbox(),
{
    Theme {
        name: "gruvbox",
        bg: Rgb(40, 40, 40),
        panel: Rgb(60, 56, 54),
        accent: Rgb(131, 165, 152),
        title: Rgb(250, 189, 47),
        text: Rgb(235, 219, 178),
        dim: Rgb(146, 131, 116),
        ok: Rgb(152, 151, 26),
        warn: Rgb(214, 93, 14),
        danger: Rgb(204, 36, 29),
    }
}

fn dracula() -> (t: Theme)
    ensures
        t == spec_dracula(),
{
    Theme {
        name: "dracula",
        bg: Rgb(40, 42, 54),
        panel: Rgb(52, 54, 68),
        accent: Rgb(189, 147, 249),
        title: Rgb(255, 121, 198),
        text: Rgb(248, 248, 242),
        dim: Rgb(98, 114, 164),
        ok: Rgb(80, 250, 123),
        warn: Rgb(241, 250, 140),
        danger: Rgb(255, 85, 85),
    }
}

fn solarized() -> (t: Theme)
    ensures
        t == spec_solarized(),
{
    Theme {
        name: "solarized",
        bg: Rgb(0, 43, 54),
        panel: Rgb(7, 54, 66),
        accent: Rgb(38, 139, 210),
        title: Rgb(42, 161, 152),
        text: Rgb(131, 148, 150),
        dim: Rgb(88, 110, 117),
        ok: Rgb(133, 153, 0),
        warn: Rgb(181, 137, 0),
        danger: Rgb(220, 50, 47),
    }
}

fn nord() -> (t: Theme)
    ensures
        t == spec_nord(),
{
    Theme {
        name: "nord",
        bg: Rgb(46, 52, 64),
        panel: Rgb(59, 66, 82),
        accent: Rgb(136, 192, 208),
        title: Rgb(143, 188, 187),
        text: Rgb(216, 222, 233),
        dim: Rgb(94, 108, 132),
        ok: Rgb(163, 190, 140),
        warn: Rgb(235, 203, 139),
        danger: Rgb(191, 97, 106),
    }
}

/// The built-in theme called `name`, ignoring surrounding white space and
/// ASCII letter case.
pub open spec fn spec_from_name(name: Seq<char>) -> Option<Theme> {
    let k = ascii_lower_all(trim(name));
    if k == seq!['d', 'a', 'r', 'k'] {
        Some(spec_dark())
    } else if k == seq!['l', 'i', 'g', 'h', 't'] {
        Some(spec_light())
    } else if k == seq!['g', 'r', 'u', 'v', 'b', 'o', 'x'] {
        Some(spec_gruvbox())
    } else if k == seq!['d', 'r', 'a', 'c', 'u', 'l', 'a'] {
        Some(spec_dracula())
    } else if k == seq!['s', 'o', 'l', 'a', 'r', 'i', 'z', 'e', 'd'] {
        Some(spec_solarized())
    } else if k == seq!['n', 'o', 'r', 'd'] {
        Some(spec_nord())
    } else {
        None
    }
}

pub fn from_name(name: &str) -> (r: Option<Theme>)
    ensures
        r == spec_from_name(name@),
{
    let chars = chars_of(name);
    let k = ascii_lower_chars(&trim_chars(&chars));
    if chars_eq(k.as_slice(), &['d', 'a', 'r', 'k']) {
        assert(['d', 'a', 'r', 'k']@ =~= seq!['d', 'a', 'r', 'k']);
        Some(dark())
    } else if chars_eq(k.as_slice(), &['l', 'i', 'g', 'h', 't']) {
        assert(['l', 'i', 'g', 'h', 't']@ =~= seq!['l', 'i', 'g', 'h', 't']);
        Some(light())
    } else if chars_eq(k.as_slice(), &['g', 'r', 'u', 'v', 'b', 'o', 'x']) {
        assert(['g', 'r', 'u', 'v', 'b', 'o', 'x']@ =~= seq!['g', 'r', 'u', 'v', 'b', 'o', 'x']);
        Some(gruvbox())
    } else if chars_eq(k.as_slice(), &['d', 'r', 'a', 'c', 'u', 'l', 'a']) {
        assert(['d', 'r', 'a', 'c', 'u', 'l', 'a']@ =~= seq!['d', 'r', 'a', 'c', 'u', 'l', 'a']);
        Some(dracula())
    } else if chars_eq(k.as_slice(), &['s', 'o', 'l', 'a', 'r', 'i', 'z', 'e', 'd']) {
        assert(['s', 'o', 'l', 'a', 'r', 'i', 'z', 'e', 'd']@ =~= seq!['s', 'o', 'l', 'a', 'r', 'i', 'z', 'e', 'd']);
        Some(solarized())
    } else if chars_eq(k.as_slice(), &['n', 'o', 'r', 'd']) {
        assert(['n', 'o', 'r', 'd']@ =~= seq!['n', 'o', 'r', 'd']);
        Some(nord())
    } else {
        assert(['d', 'a', 'r', 'k']@ =~= seq!['d', 'a', 'r', 'k']);
        assert(['l', 'i', 'g', 'h', 't']@ =~= seq!['l', 'i', 'g', 'h', 't']);
        assert(['g', 'r', 'u', 'v', 'b', 'o', 'x']@ =~= seq!['g', 'r', 'u', 'v', 'b', 'o', 'x']);
        assert(['d', 'r', 'a', 'c', 'u', 'l', 'a']@ =~= seq!['d', 'r', 'a', 'c', 'u', 'l', 'a']);
        assert(['s', 'o', 'l', 'a', 'r', 'i', 'z', 'e', 'd']@ =~= seq!['s', 'o', 'l', 'a', 'r', 'i', 'z', 'e', 'd']);
        assert(['n', 'o', 'r', 'd']@ =~= seq!['n', 'o', 'r', 'd']);
        None
    }
}

/// The names of the built-in themes, as listed to the user.
pub fn all_names() -> (r: &'static str)
    ensures
        r == "dark, light, gruvbox, dracula, solarized, nord",
{
    "dark, light, gruvbox, dracula, solarized, nord"
}


/// `t` without one leading `#`.
pub open spec fn strip_hash(t: Seq<char>) -> Seq<char> {
    if t.len() > 0 && t[0] == '#' {
        t.drop_first()
    } else {
        t
    }
}

/// The text that a colour override is read from: trimmed, without its `#`.
pub open spec fn hex_digits_of(s: Seq<char>) -> Seq<char> {
    strip_hash(trim(s))
}

/// The value of a hexadecimal digit.
pub open spec fn hex_value(c: char) -> Option<u8> {
    if '0' <= c <= '9' {
        Some(((c as u32) - 48) as u8)
    } else if 'a' <= c <= 'f' {
        Some(((c as u32) - 87) as u8)
    } else if 'A' <= c <= 'F' {
        Some(((c as u32) - 55) as u8)
    } else {
        None
    }
}

/// The byte that two hex digits `a b` write, if both are hex digits.
pub open spec fn hex_pair(a: char, b: char) -> Option<u8> {
    match (hex_value(a), hex_value(b)) {
        (Some(x), Some(y)) => Some((x * 16 + y) as u8),
        _ => None,
    }
}

/// The colour that a `#rrggbb` (or `rrggbb`) text names: after trimming and
/// dropping one `#`, exactly six ASCII hex digits; any other text names none.
pub open spec fn spec_parse_hex(s: Seq<char>) -> Option<Rgb> {
    let p = hex_digits_of(s);
    if p.len() == 6 {
        match (hex_pair(p[0], p[1]), hex_pair(p[2], p[3]), hex_pair(p[4], p[5])) {
            (Some(r), Some(g), Some(b)) => Some(Rgb(r, g, b)),
            _ => None,
        }
    } else {
        None
    }
}

fn hex_digit(c: char) -> (r: Option<u8>)
    ensures
        r == hex_value(c),
{
    if '0' <= c && c <= '9' {
        Some(((c as u32) - 48) as u8)
    } else if 'a' <= c && c <= 'f' {
        Some(((c as u32) - 87) as u8)
    } else if 'A' <= c && c <= 'F' {
        Some(((c as u32) - 55) as u8)
    } else {
        None
    }
}

fn parse_pair(a: char, b: char) -> (r: Option<u8>)
    ensures
        r == hex_pair(a, b),
{
    match (hex_digit(a), hex_digit(b)) {
        (Some(x), Some(y)) => Some(x * 16 + y),
        _ => None,
    }
}

fn hex_digits(s: &str) -> (p: Vec<char>)
    ensures
        p@ == hex_digits_of(s@),
{
    let t = trim_chars(&chars_of(s));
    if t.len() > 0 && t[0] == '#' {
        let mut p: Vec<char> = Vec::new();
        let mut i: usize = 1;
        while i < t.len()
            invariant
                1 <= i <= t@.len(),
                p@ == t@.subrange(1, i as int),
            decreases t@.len() - i,
        {
            p.push(t[i]);
            i += 1;
        }
        assert(p@ =~= t@.drop_first());
        p
    } else {
        t
    }
}

/// Reads a `#rrggbb` colour (the `#` may be left out); anything else is
/// not a colour.
pub fn parse_hex(s: &str) -> (r: Option<Rgb>)
    ensures
        r == spec_parse_hex(s@),
{
    let p = hex_digits(s);
    if p.len() != 6 {
        return None;
    }
    match (parse_pair(p[0], p[1]), parse_pair(p[2], p[3]), parse_pair(p[4], p[5])) {
        (Some(r), Some(g), Some(b)) => Some(Rgb(r, g, b)),
        _ => None,
    }
}

/// A slot's colour after its override: the override where it reads as a
/// colour, the base colour otherwise.
pub open spec fn override_color(base: Rgb, text: Option<String>) -> Rgb {
    match text {
        Some(t) => match spec_parse_hex(t@) {
            Some(c) => c,
            None => base,
        },
        None => base,
    }
}

/// The theme that settings select: the named built-in theme (dark when the
/// name is missing or unknown), with each override that reads as a colour applied.
pub open spec fn spec_resolve(name: Option<Seq<char>>, overrides: Option<ThemeColors>) -> Theme {
    let base = match name {
        Some(n) => match spec_from_name(n) {
            Some(t) => t,
            None => spec_dark(),
        },
        None => spec_dark(),
    };
    match overrides {
        Some(c) => Theme {
            name: base.name,
            bg: override_color(base.bg, c.bg),
            panel: override_color(base.panel, c.panel),
            accent: override_color(base.accent, c.accent),
            title: override_color(base.title, c.title),
            text: override_color(base.text, c.text),
            dim: override_color(base.dim, c.dim),
            ok: override_color(base.ok, c.ok),
            warn: override_color(base.warn, c.warn),
            danger: override_color(base.danger, c.danger),
        },
        None => base,
    }
}

pub open spec fn name_view(name: Option<&str>) -> Option<Seq<char>> {
    match name {
        Some(n) => Some(n@),
        None => None,
    }
}

pub open spec fn colors_view(overrides: Option<&ThemeColors>) -> Option<ThemeColors> {
    match overrides {
        Some(c) => Some(*c),
        None => None,
    }
}

fn apply_override(base: Rgb, text: &Option<String>) -> (r: Rgb)
    ensures
        r == override_color(base, *text),
{
    match text {
        Some(t) => match parse_hex(t.as_str()) {
            Some(c) => c,
            None => base,
        },
        None => base,
    }
}

/// The theme for a configured name and colour overrides.
pub fn resolve(name: Option<&str>, overrides: Option<&ThemeColors>) -> (r: Theme)
    ensures
        r == spec_resolve(name_view(name), colors_view(overrides)),
{
    let base = match name {
        Some(n) => match from_name(n) {
            Some(t) => t,
            None => dark(),
        },
        None => dark(),
    };
    match overrides {
        Some(c) => Theme {
            name: base.name,
            bg: apply_override(base.bg, &c.bg),
            panel: apply_override(base.panel, &c.panel),
            accent: apply_override(base.accent, &c.accent),
            title: apply_override(base.title, &c.title),
            text: apply_override(base.text, &c.text),
            dim: apply_override(base.dim, &c.dim),
            ok: apply_override(base.ok, &c.ok),
            warn: apply_override(base.warn, &c.warn),
            danger: apply_override(base.danger, &c.danger),
        },
        None => base,
    }
}

} // verus!
