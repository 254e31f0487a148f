use vstd::prelude::*;
use vstd::string::StringSliceAdditionalSpecFns;

verus! {

/// A terminal color: either the terminal's own default, or a 24-bit value.
#[derive(Clone, Copy, PartialEq, Eq, Structural, Debug)]
pub enum Color {
    Reset,
    Rgb { r: u8, g: u8, b: u8 },
}

/// How a run of cells is rendered.
#[derive(Clone, Copy, PartialEq, Eq, Structural, Debug)]
pub struct Style {
    pub fg: Color,
    pub bg: Color,
}

impl Style {
    pub fn fg(self, color: Color) -> (r: Style)
        ensures
            r == (Style { fg: color, ..self }),
    {
        Style { fg: color, ..self }
    }

    pub fn bg(self, color: Color) -> (r: Style)
        ensures
            r == (Style { bg: color, ..self }),
    {
        Style { bg: color, ..self }
    }
}

impl Default for Style {
    fn default() -> (r: Style)
        ensures
            r == (Style { fg: Color::Reset, bg: Color::Reset }),
    {
        Style { fg: Color::Reset, bg: Color::Reset }
    }
}

/// The line art a border is drawn with.
#[derive(Clone, Copy, PartialEq, Eq, Structural, Debug)]
pub enum BorderKind {
    Straight,
    Rounded,
    Double,
    Thick,
}

/// How a border decorator draws its frame.
#[derive(Clone, Copy, PartialEq, Eq, Structural, Debug)]
pub struct BorderStyle {
    pub kind: BorderKind,
    pub style: Style,
}

impl Default for BorderStyle {
    fn default() -> (r: BorderStyle)
        ensures
            r == (BorderStyle {
                kind: BorderKind::Straight,
                style: Style { fg: Color::Reset, bg: Color::Reset },
            }),
    {
        BorderStyle {
            kind: BorderKind::Straight,
            style: Style { fg: Color::Reset, bg: Color::Reset },
        }
    }
}

/// The value of one hexadecimal digit, or -1 where the byte is none.
pub open spec fn hex_val(b: u8) -> int {
    if 48 <= b <= 57 {
        b - 48
    } else if 97 <= b <= 102 {
        b - 87
    } else if 65 <= b <= 70 {
        b - 55
    } else {
        -1
    }
}

/// What parsing a `#RRGGBB` byte string yields.
pub open spec fn from_hex_spec(bs: Seq<u8>) -> Option<Color> {
    if bs.len() == 7 && bs[0] == 35 && hex_val(bs[1]) >= 0 && hex_val(bs[2]) >= 0 && hex_val(bs[3])
        >= 0 && hex_val(bs[4]) >= 0 && hex_val(bs[5]) >= 0 && hex_val(bs[6]) >= 0 {
        Some(
            Color::Rgb {
                r: (hex_val(bs[1]) * 16 + hex_val(bs[2])) as u8,
                g: (hex_val(bs[3]) * 16 + hex_val(bs[4])) as u8,
                b: (hex_val(bs[5]) * 16 + hex_val(bs[6])) as u8,
            },
        )
    } else {
        None
    }
}

/// The parsed color, or the terminal default where `s` is no `#RRGGBB` string.
pub open spec fn hex_or_reset(s: &str) -> Color {
    match from_hex_spec(s.spec_bytes()) {
        Option::Some(c) => c,
        Option::None => Color::Reset,
    }
}

fn hex_digit(b: u8) -> (r: i16)
    ensures
        r == hex_val(b),
{
    if 48 <= b && b <= 57 {
        (b - 48) as i16
    } else if 97 <= b && b <= 102 {
        (b - 87) as i16
    } else if 65 <= b && b <= 70 {
        (b - 55) as i16
    } else {
        -1
    }
}

impl Color {
    /// Parse a `#RRGGBB` color string.
    pub fn from_hex(s: &str) -> (r: Option<Color>)
        ensures
            r == from_hex_spec(s.spec_bytes()),
    {
        let bs = s.as_bytes();
        if bs.len() != 7 || bs[0] != 35 {
            return None;
        }
        let d1 = hex_digit(bs[1]);
        let d2 = hex_digit(bs[2]);
        let d3 = hex_digit(bs[3]);
        let d4 = hex_digit(bs[4]);
        let d5 = hex_digit(bs[5]);
        let d6 = hex_digit(bs[6]);
        if d1 < 0 || d2 < 0 || d3 < 0 || d4 < 0 || d5 < 0 || d6 < 0 {
            return None;
        }
        Some(
            Color::Rgb {
                r: (d1 * 16 + d2) as u8,
                g: (d3 * 16 + d4) as u8,
                b: (d5 * 16 + d6) as u8,
            },
        )
    }

    /// The parsed color, or the terminal default where `s` does not parse.
    pub fn from_hex_or_reset(s: &str) -> (r: Color)
        ensures
            r == hex_or_reset(s),
    {
        match Color::from_hex(s) {
            Some(c) => c,
            None => Color::Reset,
        }
    }
}

/// A full color palette for a theme.
#[derive(Clone, Copy, Debug)]
pub struct Colors {
    pub background: Color,
    pub foreground: Color,
    pub text: Color,
    pub selection_background: Color,
    pub selection_foreground: Color,
    pub buttons: Color,
    pub second_background: Color,
    pub fdisabled: Color,
    pub contrast: Color,
    pub active: Color,
    pub border: Color,
    pub highlight: Color,
    pub tree: Color,
    pub notifications: Color,
    pub accent_color: Color,
    pub excluded_files_color: Color,
    pub green_color: Color,
    pub yellow_color: Color,
    pub blue_color: Color,
    pub red_color: Color,
    pub purple_color: Color,
    pub orange_color: Color,
    pub cyan_color: Color,
    pub gray_color: Color,
    pub white_black_color: Color,
    pub error_color: Color,
    pub comments_color: Color,
    pub variables_color: Color,
    pub links_color: Color,
    pub functions_color: Color,
    pub keywords_color: Color,
    pub tags_color: Color,
    pub strings_color: Color,
    pub operators_color: Color,
    pub attributes_color: Color,
    pub numbers_color: Color,
    pub parameters_color: Color,
}

/// The material-oceanic palette, field by field.
pub open spec fn material_oceanic_colors() -> Colors {
    Colors {
        background: hex_or_reset("#263238"),
        foreground: hex_or_reset("#B0BEC5"),
        text: hex_or_reset("#607D8B"),
        selection_background: hex_or_reset("#546E7A"),
        selection_foreground: hex_or_reset("#FFFFFF"),
        buttons: hex_or_reset("#2E3C43"),
        second_background: hex_or_reset("#32424A"),
        fdisabled: hex_or_reset("#415967"),
        contrast: hex_or_reset("#1E272C"),
        active: hex_or_reset("#314549"),
        border: hex_or_reset("#2A373E"),
        highlight: hex_or_reset("#425B67"),
        tree: hex_or_reset("#6E7A70"),
        notifications: hex_or_reset("#1E272C"),
        accent_color: hex_or_reset("#009688"),
        excluded_files_color: hex_or_reset("#2E3C43"),
        green_color: hex_or_reset("#c3e88d"),
        yellow_color: hex_or_reset("#ffcb6b"),
        blue_color: hex_or_reset("#82aaff"),
        red_color: hex_or_reset("#f07178"),
        purple_color: hex_or_reset("#c792ea"),
        orange_color: hex_or_reset("#f78c6c"),
        cyan_color: hex_or_reset("#89ddff"),
        gray_color: hex_or_reset("#546e7a"),
        white_black_color: hex_or_reset("#eeffff"),
        error_color: hex_or_reset("#ff5370"),
        comments_color: hex_or_reset("#546e7a"),
        variables_color: hex_or_reset("#eeffff"),
        links_color: hex_or_reset("#80cbc4"),
        functions_color: hex_or_reset("#82aaff"),
        keywords_color: hex_or_reset("#c792ea"),
        tags_color: hex_or_reset("#f07178"),
        strings_color: hex_or_reset("#c3e88d"),
        operators_color: hex_or_reset("#89ddff"),
        attributes_color: hex_or_reset("#ffcb6b"),
        numbers_color: hex_or_reset("#f78c6c"),
        parameters_color: hex_or_reset("#f78c6c"),
    }
}

impl Colors {
    pub fn material_oceanic() -> (c: Colors)
        ensures
            c == material_oceanic_colors(),
    {
        Colors {
            background: Color::from_hex_or_reset("#263238"),
            foreground: Color::from_hex_or_reset("#B0BEC5"),
            text: Color::from_hex_or_reset("#607D8B"),
            selection_background: Color::from_hex_or_reset("#546E7A"),
            selection_foreground: Color::from_hex_or_reset("#FFFFFF"),
            buttons: Color::from_hex_or_reset("#2E3C43"),
            second_background: Color::from_hex_or_reset("#32424A"),
            fdisabled: Color::from_hex_or_reset("#415967"),
            contrast: Color::from_hex_or_reset("#1E272C"),
            active: Color::from_hex_or_reset("#314549"),
            border: Color::from_hex_or_reset("#2A373E"),
            highlight: Color::from_hex_or_reset("#425B67"),
            tree: Color::from_hex_or_reset("#6E7A70"),
            notifications: Color::from_hex_or_reset("#1E272C"),
            accent_color: Color::from_hex_or_reset("#009688"),
            excluded_files_color: Color::from_hex_or_reset("#2E3C43"),
            green_color: Color::from_hex_or_reset("#c3e88d"),
            yellow_color: Color::from_hex_or_reset("#ffcb6b"),
            blue_color: Color::from_hex_or_reset("#82aaff"),
            red_color: Color::from_hex_or_reset("#f07178"),
            purple_color: Color::from_hex_or_reset("#c792ea"),
            orange_color: Color::from_hex_or_reset("#f78c6c"),
            cyan_color: Color::from_hex_or_reset("#89ddff"),
            gray_color: Color::from_hex_or_reset("#546e7a"),
            white_black_color: Color::from_hex_or_reset("#eeffff"),
            error_color: Color::from_hex_or_reset("#ff5370"),
            comments_color: Color::from_hex_or_reset("#546e7a"),
            variables_color: Color::from_hex_or_reset("#eeffff"),
            links_color: Color::from_hex_or_reset("#80cbc4"),
            functions_color: Color::from_hex_or_reset("#82aaff"),
            keywords_color: Color::from_hex_or_reset("#c792ea"),
            tags_color: Color::from_hex_or_reset("#f07178"),
            strings_color: Color::from_hex_or_reset("#c3e88d"),
            operators_color: Color::from_hex_or_reset("#89ddff"),
            attributes_color: Color::from_hex_or_reset("#ffcb6b"),
            numbers_color: Color::from_hex_or_reset("#f78c6c"),
            parameters_color: Color::from_hex_or_reset("#f78c6c"),
        }
    }
}

impl Default for Colors {
    fn default() -> (c: Colors)
        ensures
            c == material_oceanic_colors(),
    {
        Colors::material_oceanic()
    }
}

/// The styles the text widget picks from, by interaction state.
#[derive(Clone, Copy, Debug)]
pub struct TextStyles {
    pub default: Style,
    pub hover: Style,
    pub selected: Style,
}

pub open spec fn text_styles_spec(colors: Colors) -> TextStyles {
    TextStyles {
        default: Style { fg: colors.text, bg: colors.background },
        hover: Style { fg: colors.text, bg: colors.background },
        selected: Style { fg: colors.selection_foreground, bg: colors.selection_background },
    }
}

impl TextStyles {
    pub fn with_colors(colors: Colors) -> (t: TextStyles)
        ensures
            t == text_styles_spec(colors),
    {
        let default = Style { fg: Color::Reset, bg: Color::Reset }.bg(colors.background).fg(
            colors.text,
        );
        TextStyles {
            selected: Style { fg: Color::Reset, bg: Color::Reset }.bg(
                colors.selection_background,
            ).fg(colors.selection_foreground),
            hover: default,
            default,
        }
    }
}

impl Default for TextStyles {
    fn default() -> (t: TextStyles)
        ensures
            t == text_styles_spec(material_oceanic_colors()),
    {
        TextStyles::with_colors(Colors::material_oceanic())
    }
}

/// The styles the border decorator picks from, by interaction state.
#[derive(Clone, Copy, Debug)]
pub struct BorderStyles {
    pub default: BorderStyle,
    pub hover: BorderStyle,
    pub focus: BorderStyle,
}

pub open spec fn border_styles_spec(colors: Colors) -> BorderStyles {
    BorderStyles {
        default: BorderStyle {
            kind: BorderKind::Straight,
            style: Style { fg: colors.border, bg: Color::Reset },
        },
        hover: BorderStyle {
            kind: BorderKind::Straight,
            style: Style { fg: colors.highlight, bg: Color::Reset },
        },
        focus: BorderStyle {
            kind: BorderKind::Straight,
            style: Style { fg: colors.active, bg: Color::Reset },
        },
    }
}

impl BorderStyles {
    pub fn with_colors(colors: Colors) -> (b: BorderStyles)
        ensures
            b == border_styles_spec(colors),
    {
        let mut default = BorderStyle {
            kind: BorderKind::Straight,
            style: Style { fg: Color::Reset, bg: Color::Reset },
        };
        default.style = default.style.fg(colors.border);

        let mut hover = BorderStyle {
            kind: BorderKind::Straight,
            style: Style { fg: Color::Reset, bg: Color::Reset },
        };
        hover.style = hover.style.fg(colors.highlight);

        let mut focus = BorderStyle {
            kind: BorderKind::Straight,
            style: Style { fg: Color::Reset, bg: Color::Reset },
        };
        focus.style = focus.style.fg(colors.active);

        BorderStyles { default, hover, focus }
    }
}

impl Default for BorderStyles {
    fn default() -> (b: BorderStyles)
        ensures
            b == border_styles_spec(material_oceanic_colors()),
    {
        BorderStyles::with_colors(Colors::material_oceanic())
    }
}

/// A theme: one palette and the widget styles derived from it.
#[derive(Clone, Copy, Debug)]
pub struct Theme {
    pub colors: Colors,
    pub text_styles: TextStyles,
    pub border_styles: BorderStyles,
}

impl Theme {
    pub fn material_oceanic() -> (t: Theme)
        ensures
            t.colors == material_oceanic_colors(),
            t.text_styles == text_styles_spec(material_oceanic_colors()),
            t.border_styles == border_styles_spec(material_oceanic_colors()),
    {
        let colors = Colors::material_oceanic();
        Theme {
            text_styles: TextStyles::with_colors(colors),
            border_styles: BorderStyles::with_colors(colors),
            colors,
        }
    }
}

impl Default for Theme {
    fn default() -> (t: Theme)
        ensures
            t.colors == material_oceanic_colors(),
            t.text_styles == text_styles_spec(material_oceanic_colors()),
            t.border_styles == border_styles_spec(material_oceanic_colors()),
    {
        Theme::material_oceanic()
    }
}

} // verus!
