//! Theme colors: which of them are valid, and what they make of the page.

#[allow(unused_imports)]
use crate::pattern::{join, joined, views};
use crate::settings::Settings;
#[allow(unused_imports)]
use crate::text::{chars_of, same, trim, trimmed};
use vstd::prelude::*;

verus! {

/// The value of a hexadecimal digit.
pub open spec fn hex_value(c: char) -> Option<int> {
    if '0' <= c <= '9' {
        Some(c as int - '0' as int)
    } else if 'a' <= c <= 'f' {
        Some(c as int - 'a' as int + 10)
    } else if 'A' <= c <= 'F' {
        Some(c as int - 'A' as int + 10)
    } else {
        None
    }
}

fn hex_digit(c: char) -> (r: Option<u8>)
    ensures
        match r {
            Some(n) => hex_value(c) == Some(n as int) && n < 16,
            None => hex_value(c) is None,
        },
{
    if '0' <= c && c <= '9' {
        Some((c as u32 - '0' as u32) as u8)
    } else if 'a' <= c && c <= 'f' {
        Some((c as u32 - 'a' as u32 + 10) as u8)
    } else if 'A' <= c && c <= 'F' {
        Some((c as u32 - 'A' as u32 + 10) as u8)
    } else {
        None
    }
}

/// A color of the form `#rrggbb`.
pub open spec fn is_color(s: Seq<char>) -> bool {
    &&& s.len() == 7
    &&& s[0] == '#'
    &&& forall|i: int| 1 <= i < 7 ==> hex_value(#[trigger] s[i]) is Some
}

/// One of the three channels of a color.
pub open spec fn channel(s: Seq<char>, i: int) -> int {
    hex_value(s[i])->0 * 16 + hex_value(s[i + 1])->0
}

fn pair(v: &Vec<char>, i: usize) -> (r: Option<u8>)
    requires
        i + 1 < v@.len(),
    ensures
        match r {
            Some(n) => hex_value(v@[i as int]) is Some && hex_value(v@[i + 1]) is Some && n
                == channel(v@, i as int),
            None => hex_value(v@[i as int]) is None || hex_value(v@[i + 1]) is None,
        },
{
    let n: usize = v.len();
    assert(i + 1 < n);
    match hex_digit(v[i]) {
        Some(a) => match hex_digit(v[i + 1]) {
            Some(b) => Some(a * 16 + b),
            None => None,
        },
        None => None,
    }
}

/// The red, green and blue of a color; nothing if it is none.
pub fn channels(hex: &str) -> (r: Option<(u8, u8, u8)>)
    ensures
        match r {
            Some((red, green, blue)) => is_color(hex@) && red == channel(hex@, 1) && green
                == channel(hex@, 3) && blue == channel(hex@, 5),
            None => !is_color(hex@),
        },
{
    let v = chars_of(hex);
    if v.len() != 7 || v[0] != '#' {
        return None;
    }
    let red = pair(&v, 1);
    let green = pair(&v, 3);
    let blue = pair(&v, 5);
    match (red, green, blue) {
        (Some(r), Some(g), Some(b)) => Some((r, g, b)),
        _ => {
            assert(!is_color(hex@)) by {
                if is_color(hex@) {
                    assert(hex_value(hex@[1]) is Some && hex_value(hex@[2]) is Some);
                    assert(hex_value(hex@[3]) is Some && hex_value(hex@[4]) is Some);
                    assert(hex_value(hex@[5]) is Some && hex_value(hex@[6]) is Some);
                }
            }
            None
        },
    }
}

/// Whether a text is a color.
pub fn is_valid_hex_color(hex: &str) -> (r: bool)
    ensures
        r == is_color(hex@),
{
    channels(hex).is_some()
}

/// The text color on a background: dark on a light one and on what is no color,
/// white on a dark one.
pub open spec fn ink_on(hex: Seq<char>, light: bool) -> Seq<char> {
    if !is_color(hex) || light {
        "#06222f"@
    } else {
        "#ffffff"@
    }
}

/// The text color on a background. `light` says that the relative luminance of
/// the background is above 0.35.
pub fn readable_fg(hex: &str, light: bool) -> (r: &'static str)
    ensures
        r@ == ink_on(hex@, light),
{
    if !is_valid_hex_color(hex) || light {
        "#06222f"
    } else {
        "#ffffff"
    }
}

/// Which of the theme colors are light.
#[derive(Debug, Clone, Copy, PartialEq, Eq, Structural)]
pub struct Lights {
    pub accent: bool,
    pub me: bool,
    pub others: bool,
}

/// The properties of one color.
pub open spec fn color_part(var: Seq<char>, value: Seq<char>, light: bool) -> Seq<char> {
    var + ": "@ + value + "; "@ + var + "-fg: "@ + ink_on(value, light) + ";"@
}

/// The properties of one color, if it is one.
pub open spec fn color_parts(var: Seq<char>, value: Seq<char>, light: bool) -> Seq<Seq<char>> {
    if is_color(value) {
        Seq::empty().push(color_part(var, value, light))
    } else {
        Seq::empty()
    }
}

/// The properties of all theme colors.
pub open spec fn theme_parts(s: Settings, l: Lights) -> Seq<Seq<char>> {
    color_parts("--accent"@, s.theme_accent@, l.accent) + color_parts("--me"@, s.theme_me@, l.me)
        + color_parts("--others"@, s.theme_others@, l.others)
}

fn put_color(v: &mut Vec<String>, var: &str, value: &str, light: bool)
    ensures
        views(final(v)@) == views(old(v)@) + color_parts(var@, value@, light),
{
    let ghost was = v@;
    if is_valid_hex_color(value) {
        let mut p = var.to_string();
        p.push_str(": ");
        p.push_str(value);
        p.push_str("; ");
        p.push_str(var);
        p.push_str("-fg: ");
        p.push_str(readable_fg(value, light));
        p.push_str(";");
        v.push(p);
        assert(views(v@) =~= views(was) + color_parts(var@, value@, light));
    } else {
        assert(views(v@) =~= views(was) + color_parts(var@, value@, light));
    }
}

/// The style of the page: only valid colors get into it.
pub fn theme_style(s: &Settings, l: Lights) -> (r: String)
    ensures
        r@ == joined(theme_parts(*s, l), " "@),
{
    let mut v: Vec<String> = Vec::new();
    assert(views(v@) =~= Seq::<Seq<char>>::empty());
    put_color(&mut v, "--accent", &s.theme_accent, l.accent);
    put_color(&mut v, "--me", &s.theme_me, l.me);
    put_color(&mut v, "--others", &s.theme_others, l.others);
    assert(views(v@) =~= theme_parts(*s, l));
    join(&v, " ")
}

/// Without a valid color the page keeps its built-in style.
pub proof fn invalid_colors_change_nothing(s: Settings, l: Lights)
    requires
        !is_color(s.theme_accent@),
        !is_color(s.theme_me@),
        !is_color(s.theme_others@),
    ensures
        joined(theme_parts(s, l), " "@) == Seq::<char>::empty(),
{
    assert(theme_parts(s, l) =~= Seq::<Seq<char>>::empty());
}

/// Nothing but hexadecimal digits follows the sign of a color, so no color can
/// break out of its property.
pub proof fn colors_are_inert(s: Seq<char>, i: int)
    requires
        is_color(s),
        0 <= i < s.len(),
    ensures
        s[i] != ';' && s[i] != ':' && s[i] != '"' && s[i] != '\'' && s[i] != '<' && s[i] != ' ',
{
    if i > 0 {
        assert(hex_value(s[i]) is Some);
    }
}

/// The theme colors.
#[derive(Debug, Clone, Copy, PartialEq, Eq, Structural)]
pub enum ThemeColor {
    Accent,
    Me,
    Others,
}

/// The settings with one theme color replaced.
pub open spec fn with_color(s: Settings, which: ThemeColor, v: String) -> Settings {
    match which {
        ThemeColor::Accent => Settings { theme_accent: v, ..s },
        ThemeColor::Me => Settings { theme_me: v, ..s },
        ThemeColor::Others => Settings { theme_others: v, ..s },
    }
}

impl Settings {
    fn put_theme_color(&mut self, which: ThemeColor, v: String)
        ensures
            *final(self) == with_color(*old(self), which, v),
    {
        match which {
            ThemeColor::Accent => {
                self.theme_accent = v;
            },
            ThemeColor::Me => {
                self.theme_me = v;
            },
            ThemeColor::Others => {
                self.theme_others = v;
            },
        }
    }

    /// Takes what was typed into a color field: nothing, or a color. Anything
    /// else changes nothing.
    pub fn set_color(&mut self, which: ThemeColor, text: &str) -> (r: bool)
        ensures
            r == (trimmed(text@).len() == 0 || is_color(trimmed(text@))),
            !r ==> *final(self) == *old(self),
            r ==> exists|v: String|
                v@ == trimmed(text@) && *final(self) == #[trigger] with_color(
                    *old(self),
                    which,
                    v,
                ),
    {
        let v = trim(text);
        if v.as_str().unicode_len() != 0 && !is_valid_hex_color(&v) {
            return false;
        }
        self.put_theme_color(which, v);
        true
    }

    /// Goes back to the built-in colors.
    pub fn reset_colors(&mut self)
        ensures
            final(self).theme_accent@.len() == 0,
            final(self).theme_me@.len() == 0,
            final(self).theme_others@.len() == 0,
            *final(self) == (Settings {
                theme_accent: final(self).theme_accent,
                theme_me: final(self).theme_me,
                theme_others: final(self).theme_others,
                ..*old(self)
            }),
    {
        self.theme_accent = String::new();
        self.theme_me = String::new();
        self.theme_others = String::new();
    }
}

/// A letter of the Latin alphabet in lower case; any other character as it is.
pub open spec fn lower_letter(c: char) -> char {
    if 'A' <= c <= 'Z' {
        (c as int - 'A' as int + 'a' as int) as char
    } else {
        c
    }
}

/// The same but for the case of Latin letters.
pub open spec fn same_but_case(a: Seq<char>, b: Seq<char>) -> bool {
    &&& a.len() == b.len()
    &&& forall|i: int| 0 <= i < a.len() ==> lower_letter(#[trigger] a[i]) == lower_letter(b[i])
}

fn folded(c: char) -> (r: u32)
    ensures
        r == lower_letter(c) as u32,
{
    if 'A' <= c && c <= 'Z' {
        c as u32 - 'A' as u32 + 'a' as u32
    } else {
        c as u32
    }
}

/// Whether a swatch is marked: it shows the color that is in effect, the picked
/// one or the built-in one.
pub fn swatch_on(current: &str, built_in: &str, swatch: &str) -> (r: bool)
    ensures
        r == same_but_case(
            if current@.len() == 0 {
                built_in@
            } else {
                current@
            },
            swatch@,
        ),
{
    let a = if current.unicode_len() == 0 {
        chars_of(built_in)
    } else {
        chars_of(current)
    };
    let b = chars_of(swatch);
    if a.len() != b.len() {
        return false;
    }
    let mut i: usize = 0;
    while i < a.len()
        invariant
            i <= a@.len(),
            a@ == (if current@.len() == 0 {
                built_in@
            } else {
                current@
            }),
            b@ == swatch@,
            a@.len() == b@.len(),
            forall|k: int| 0 <= k < i ==> lower_letter(#[trigger] a@[k]) == lower_letter(b@[k]),
        decreases a@.len() - i,
    {
        if folded(a[i]) != folded(b[i]) {
            assert(lower_letter(a@[i as int]) != lower_letter(b@[i as int]));
            return false;
        }
        i += 1;
    }
    true
}

/// The swatches that are offered: a name and a color each.
pub fn accent_presets() -> (r: Vec<(&'static str, &'static str)>)
    ensures
        r@ == seq![
            ("Cyan", "#4cc2ff"),
            ("Blurple", "#5865f2"),
            ("Coral", "#ff7059"),
            ("Green", "#3ecf8e"),
            ("Violet", "#a78bfa"),
            ("Amber", "#ffb454"),
        ],
{
    vec![
        ("Cyan", "#4cc2ff"),
        ("Blurple", "#5865f2"),
        ("Coral", "#ff7059"),
        ("Green", "#3ecf8e"),
        ("Violet", "#a78bfa"),
        ("Amber", "#ffb454"),
    ]
}

/// A hexadecimal digit counts from zero to fifteen, its letters the same in either case;
/// nothing else is one.
pub proof fn hex_digits_count_to_fifteen(c: char)
    ensures
        hex_value(c) == hex_value(lower_letter(c)),
        hex_value(c) matches Some(n) ==> 0 <= n < 16,
        '0' <= c <= '9' ==> hex_value(c) == Some(c as int - 48),
        'a' <= c <= 'f' ==> hex_value(c) == Some(c as int - 87),
        hex_value(c) is Some ==> '0' <= c <= '9' || 'a' <= lower_letter(c) <= 'f',
{
}

/// A color's channel is its two digits, the first counting sixteenfold, and fits a byte.
pub proof fn channels_are_two_digits(s: Seq<char>, i: int)
    requires
        is_color(s),
        1 <= i < 6,
    ensures
        0 <= channel(s, i) < 256,
        channel(s, i) / 16 == hex_value(s[i])->0,
        channel(s, i) % 16 == hex_value(s[i + 1])->0,
        s.len() == 7 && s[0] == '#',
{
    assert(hex_value(s[i]) is Some && hex_value(s[i + 1]) is Some);
}

/// The theme sets exactly the valid colors, each for its own property and with a text
/// color that can be read on it: dark on light, white on dark.
pub proof fn valid_colors_are_set(s: Settings, l: Lights)
    ensures
        theme_parts(s, l).contains(color_part("--accent"@, s.theme_accent@, l.accent))
            <== is_color(s.theme_accent@),
        theme_parts(s, l).contains(color_part("--me"@, s.theme_me@, l.me)) <== is_color(s.theme_me@),
        theme_parts(s, l).contains(color_part("--others"@, s.theme_others@, l.others))
            <== is_color(s.theme_others@),
        theme_parts(s, l).len() == (if is_color(s.theme_accent@) {
            1int
        } else {
            0
        }) + (if is_color(s.theme_me@) {
            1int
        } else {
            0
        }) + (if is_color(s.theme_others@) {
            1int
        } else {
            0
        }),
        is_color(s.theme_me@) && l.me ==> color_part("--me"@, s.theme_me@, l.me) == "--me"@
            + ": "@ + s.theme_me@ + "; "@ + "--me"@ + "-fg: "@ + "#06222f"@ + ";"@,
        is_color(s.theme_me@) && !l.me ==> color_part("--me"@, s.theme_me@, l.me) == "--me"@
            + ": "@ + s.theme_me@ + "; "@ + "--me"@ + "-fg: "@ + "#ffffff"@ + ";"@,
{
    let p = theme_parts(s, l);
    let a = if is_color(s.theme_accent@) {
        1int
    } else {
        0int
    };
    let b = if is_color(s.theme_me@) {
        1int
    } else {
        0int
    };
    if is_color(s.theme_accent@) {
        assert(p[0] == color_part("--accent"@, s.theme_accent@, l.accent));
    }
    if is_color(s.theme_me@) {
        assert(p[a] == color_part("--me"@, s.theme_me@, l.me));
    }
    if is_color(s.theme_others@) {
        assert(p[a + b] == color_part("--others"@, s.theme_others@, l.others));
    }
}

/// Case does not tell two colors apart, and nothing but case is passed over.
pub proof fn only_case_is_passed_over(a: Seq<char>, b: Seq<char>, i: int)
    ensures
        same_but_case(a, a),
        same_but_case(a, b) ==> same_but_case(b, a) && a.len() == b.len(),
        same_but_case(a, b) && 0 <= i < a.len() && a[i] != b[i] ==> (('A' <= a[i] <= 'Z' && b[i] as int
            == a[i] as int + 32) || ('A' <= b[i] <= 'Z' && a[i] as int == b[i] as int + 32)),
        forall|c: char| 'A' <= c <= 'Z' ==> #[trigger] lower_letter(c) as int == c as int + 32,
{
    if same_but_case(a, b) && 0 <= i < a.len() {
        assert(lower_letter(a[i]) == lower_letter(b[i]));
    }
}

/// Setting a theme color sets that one and keeps the others.
pub proof fn theme_colors_are_independent(s: Settings, v: String)
    ensures
        with_color(s, ThemeColor::Accent, v).theme_accent == v && with_color(
            s,
            ThemeColor::Accent,
            v,
        ).theme_me == s.theme_me && with_color(s, ThemeColor::Accent, v).theme_others
            == s.theme_others,
        with_color(s, ThemeColor::Me, v).theme_me == v && with_color(
            s,
            ThemeColor::Me,
            v,
        ).theme_accent == s.theme_accent && with_color(s, ThemeColor::Me, v).theme_others
            == s.theme_others,
        with_color(s, ThemeColor::Others, v).theme_others == v && with_color(
            s,
            ThemeColor::Others,
            v,
        ).theme_me == s.theme_me && with_color(s, ThemeColor::Others, v).theme_accent
            == s.theme_accent,
{
}

} // verus!
