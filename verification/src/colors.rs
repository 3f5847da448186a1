//! RGBA colours: the plain ones a particle or the background can have, and
//! the gradients that show when a particle stuck.

use vstd::prelude::*;

verus! {

/// Red, green, blue and opacity.
pub type Color = [u8; 4];

// normal particle colors
pub const SEAFOAM: Color = [0x27, 0xf5, 0x9f, 0xc8];

pub const WHITE: Color = [0xff, 0xff, 0xff, 0xff];

pub const BLACK: Color = [0, 0, 0, 255];

pub const LIGHT_BLUE: Color = [100, 221, 219, 0xff];

pub const PURPLE: Color = [100, 106, 221, 0xff];

pub const PINK: Color = [219, 100, 221, 0xff];

pub const CORAL: Color = [221, 100, 100, 0xff];

pub const ORANGE: Color = [240, 134, 81, 0xff];

pub const YELLOW: Color = [240, 229, 81, 0xff];

pub const GREEN: Color = [124, 240, 81, 0xff];

pub const RED: Color = [217, 23, 23, 0xff];

/// The plain colours, in the order in which a palette shows them.
pub const COLORS: [Color; 11] = [
    RED,
    LIGHT_BLUE,
    PURPLE,
    PINK,
    CORAL,
    ORANGE,
    YELLOW,
    GREEN,
    SEAFOAM,
    WHITE,
    BLACK,
];

pub const SEAFOAM_GRADIENT: [Color; 10] = [
    [67, 193, 151, 0xff],
    [63, 174, 144, 0xff],
    [58, 155, 136, 0xff],
    [54, 136, 129, 0xff],
    [50, 117, 121, 0xff],
    [45, 97, 114, 0xff],
    [41, 78, 106, 0xff],
    [37, 59, 99, 0xff],
    [32, 40, 91, 0xff],
    [28, 21, 84, 0xff],
];

pub const LEMON_GRADIENT: [Color; 10] = [
    [244, 233, 0, 0xff],
    [228, 227, 27, 0xff],
    [211, 222, 54, 0xff],
    [195, 216, 80, 0xff],
    [178, 210, 107, 0xff],
    [162, 205, 134, 0xff],
    [145, 199, 161, 0xff],
    [129, 193, 187, 0xff],
    [112, 188, 214, 0xff],
    [96, 182, 241, 0xff],
];

pub const FOREST_GRADIENT: [Color; 10] = [
    [33, 86, 0, 0xff],
    [53, 101, 23, 0xff],
    [74, 115, 46, 0xff],
    [94, 130, 69, 0xff],
    [115, 145, 92, 0xff],
    [135, 159, 114, 0xff],
    [156, 174, 137, 0xff],
    [176, 189, 160, 0xff],
    [197, 203, 183, 0xff],
    [217, 218, 206, 0xff],
];

pub const CANDY_GRADIENT: [Color; 10] = [
    [93, 224, 240, 0xff],
    [110, 218, 241, 0xff],
    [127, 211, 241, 0xff],
    [144, 205, 242, 0xff],
    [161, 198, 242, 0xff],
    [179, 192, 243, 0xff],
    [196, 185, 243, 0xff],
    [213, 179, 244, 0xff],
    [230, 172, 244, 0xff],
    [247, 166, 245, 0xff],
];

pub const CHRISTMAS_GRADIENT: [Color; 10] = [
    [187, 9, 9, 0xff],
    [166, 22, 8, 0xff],
    [145, 35, 7, 0xff],
    [125, 48, 6, 0xff],
    [104, 61, 5, 0xff],
    [83, 73, 4, 0xff],
    [62, 86, 3, 0xff],
    [42, 99, 2, 0xff],
    [21, 112, 1, 0xff],
    [0, 125, 0, 0xff],
];

pub const CREAMSICLE_GRADIENT: [Color; 10] = [
    [244, 113, 31, 0xff],
    [228, 116, 44, 0xff],
    [212, 119, 57, 0xff],
    [196, 122, 70, 0xff],
    [180, 125, 23, 0xff],
    [163, 127, 97, 0xff],
    [147, 130, 110, 0xff],
    [131, 133, 123, 0xff],
    [115, 136, 136, 0xff],
    [99, 139, 149, 0xff],
];

pub const VIBRANT_GRADIENT: [Color; 10] = [
    [84, 71, 140, 0xff],
    [44, 105, 154, 0xff],
    [4, 139, 168, 0xff],
    [13, 179, 158, 0xff],
    [22, 219, 147, 0xff],
    [131, 227, 119, 0xff],
    [185, 231, 105, 0xff],
    [239, 234, 90, 0xff],
    [241, 196, 83, 0xff],
    [242, 158, 76, 0xff],
];

/// The names of the plain colours.
#[derive(Debug, PartialEq, Eq, Clone, Copy, Structural)]
pub enum ColorName {
    Seafoam,
    White,
    Black,
    LightBlue,
    Purple,
    Pink,
    Coral,
    Orange,
    Yellow,
    Green,
    Red,
}

/// The names of the gradients.
#[derive(Debug, PartialEq, Eq, Clone, Copy, Structural)]
pub enum Theme {
    Seafoam,
    Lemon,
    Forest,
    Candy,
    Christmas,
    Creamsicle,
    Vibrant,
}

impl ColorName {
    /// The colour that goes by this name.
    pub open spec fn color(self) -> Color {
        match self {
            ColorName::Seafoam => SEAFOAM,
            ColorName::White => WHITE,
            ColorName::Black => BLACK,
            ColorName::LightBlue => LIGHT_BLUE,
            ColorName::Purple => PURPLE,
            ColorName::Pink => PINK,
            ColorName::Coral => CORAL,
            ColorName::Orange => ORANGE,
            ColorName::Yellow => YELLOW,
            ColorName::Green => GREEN,
            ColorName::Red => RED,
        }
    }

    /// The words this name is shown as.
    pub open spec fn label(self) -> Seq<char> {
        match self {
            ColorName::Seafoam => "Seafoam"@,
            ColorName::White => "White"@,
            ColorName::Black => "Black"@,
            ColorName::LightBlue => "Light Blue"@,
            ColorName::Purple => "Purple"@,
            ColorName::Pink => "Pink"@,
            ColorName::Coral => "Coral"@,
            ColorName::Orange => "Orange"@,
            ColorName::Yellow => "Yellow"@,
            ColorName::Green => "Green"@,
            ColorName::Red => "Red"@,
        }
    }

    /// All names, in the order of their declaration.
    pub open spec fn all() -> Seq<ColorName> {
        seq![
            ColorName::Seafoam,
            ColorName::White,
            ColorName::Black,
            ColorName::LightBlue,
            ColorName::Purple,
            ColorName::Pink,
            ColorName::Coral,
            ColorName::Orange,
            ColorName::Yellow,
            ColorName::Green,
            ColorName::Red,
        ]
    }

    /// The colour that goes by this name.
    pub fn get_color(&self) -> (c: Color)
        ensures
            c == self.color(),
    {
        match self {
            ColorName::Seafoam => SEAFOAM,
            ColorName::White => WHITE,
            ColorName::Black => BLACK,
            ColorName::LightBlue => LIGHT_BLUE,
            ColorName::Purple => PURPLE,
            ColorName::Pink => PINK,
            ColorName::Coral => CORAL,
            ColorName::Orange => ORANGE,
            ColorName::Yellow => YELLOW,
            ColorName::Green => GREEN,
            ColorName::Red => RED,
        }
    }

    /// The words this name is shown as.
    pub fn to_string(&self) -> (s: String)
        ensures
            s@ == self.label(),
    {
        match self {
            ColorName::Seafoam => "Seafoam".to_owned(),
            ColorName::White => "White".to_owned(),
            ColorName::Black => "Black".to_owned(),
            ColorName::LightBlue => "Light Blue".to_owned(),
            ColorName::Purple => "Purple".to_owned(),
            ColorName::Pink => "Pink".to_owned(),
            ColorName::Coral => "Coral".to_owned(),
            ColorName::Orange => "Orange".to_owned(),
            ColorName::Yellow => "Yellow".to_owned(),
            ColorName::Green => "Green".to_owned(),
            ColorName::Red => "Red".to_owned(),
        }
    }

    /// Every name once, in the order of their declaration.
    pub fn iter() -> (v: Vec<ColorName>)
        ensures
            v@ == ColorName::all(),
            forall|n: ColorName| v@.contains(n),
    {
        let mut v: Vec<ColorName> = Vec::new();
        v.push(ColorName::Seafoam);
        v.push(ColorName::White);
        v.push(ColorName::Black);
        v.push(ColorName::LightBlue);
        v.push(ColorName::Purple);
        v.push(ColorName::Pink);
        v.push(ColorName::Coral);
        v.push(ColorName::Orange);
        v.push(ColorName::Yellow);
        v.push(ColorName::Green);
        v.push(ColorName::Red);
        assert(v@ =~= ColorName::all());
        assert forall|n: ColorName| v@.contains(n) by {
            match n {
                ColorName::Seafoam => assert(v@[0] == n),
                ColorName::White => assert(v@[1] == n),
                ColorName::Black => assert(v@[2] == n),
                ColorName::LightBlue => assert(v@[3] == n),
                ColorName::Purple => assert(v@[4] == n),
                ColorName::Pink => assert(v@[5] == n),
                ColorName::Coral => assert(v@[6] == n),
                ColorName::Orange => assert(v@[7] == n),
                ColorName::Yellow => assert(v@[8] == n),
                ColorName::Green => assert(v@[9] == n),
                ColorName::Red => assert(v@[10] == n),
            }
        }
        v
    }
}

/// `color` is one of the plain colours.
pub open spec fn is_plain(color: Color) -> bool {
    exists|n: ColorName| #[trigger] n.color() == color
}

/// No two names stand for the same colour.
pub proof fn lemma_names_differ(a: ColorName, b: ColorName)
    requires
        a.color() == b.color(),
    ensures
        a == b,
{
    assert(a.color()[0] == b.color()[0]);
    assert(a.color()[1] == b.color()[1]);
    assert(a.color()[2] == b.color()[2]);
    assert(a.color()[3] == b.color()[3]);
}

/// Whether two colours agree in all four parts.
pub fn same_color(a: &Color, b: &Color) -> (r: bool)
    ensures
        r == (*a == *b),
{
    let r = a[0] == b[0] && a[1] == b[1] && a[2] == b[2] && a[3] == b[3];
    proof {
        if r {
            assert(*a =~= *b);
        }
    }
    r
}

/// The name of a plain colour: the one name whose colour it is.
pub fn get_color_name(color: Color) -> (n: ColorName)
    requires
        is_plain(color),
    ensures
        n.color() == color,
{
    if same_color(&color, &SEAFOAM) {
        ColorName::Seafoam
    } else if same_color(&color, &WHITE) {
        ColorName::White
    } else if same_color(&color, &BLACK) {
        ColorName::Black
    } else if same_color(&color, &LIGHT_BLUE) {
        ColorName::LightBlue
    } else if same_color(&color, &PURPLE) {
        ColorName::Purple
    } else if same_color(&color, &PINK) {
        ColorName::Pink
    } else if same_color(&color, &CORAL) {
        ColorName::Coral
    } else if same_color(&color, &ORANGE) {
        ColorName::Orange
    } else if same_color(&color, &YELLOW) {
        ColorName::Yellow
    } else if same_color(&color, &GREEN) {
        ColorName::Green
    } else {
        let ghost n = choose|n: ColorName| #[trigger] n.color() == color;
        assert(n == ColorName::Red);
        ColorName::Red
    }
}

impl Theme {
    /// The ten colours of this gradient, from the first particles to stick
    /// to the last.
    pub open spec fn gradient(self) -> [Color; 10] {
        match self {
            Theme::Seafoam => SEAFOAM_GRADIENT,
            Theme::Lemon => LEMON_GRADIENT,
            Theme::Forest => FOREST_GRADIENT,
            Theme::Candy => CANDY_GRADIENT,
            Theme::Christmas => CHRISTMAS_GRADIENT,
            Theme::Creamsicle => CREAMSICLE_GRADIENT,
            Theme::Vibrant => VIBRANT_GRADIENT,
        }
    }

    /// The word this gradient is shown as.
    pub open spec fn label(self) -> Seq<char> {
        match self {
            Theme::Seafoam => "Seafoam"@,
            Theme::Lemon => "Lemon"@,
            Theme::Forest => "Forest"@,
            Theme::Candy => "Candy"@,
            Theme::Christmas => "Christmas"@,
            Theme::Creamsicle => "Creamsicle"@,
            Theme::Vibrant => "Vibrant"@,
        }
    }

    /// All gradients, in the order of their declaration.
    pub open spec fn all() -> Seq<Theme> {
        seq![
            Theme::Seafoam,
            Theme::Lemon,
            Theme::Forest,
            Theme::Candy,
            Theme::Christmas,
            Theme::Creamsicle,
            Theme::Vibrant,
        ]
    }

    /// The word this gradient is shown as.
    pub fn to_string(&self) -> (s: String)
        ensures
            s@ == self.label(),
    {
        match self {
            Theme::Seafoam => "Seafoam".to_owned(),
            Theme::Lemon => "Lemon".to_owned(),
            Theme::Forest => "Forest".to_owned(),
            Theme::Candy => "Candy".to_owned(),
            Theme::Christmas => "Christmas".to_owned(),
            Theme::Creamsicle => "Creamsicle".to_owned(),
            Theme::Vibrant => "Vibrant".to_owned(),
        }
    }

    /// Every gradient once, in the order of their declaration.
    pub fn iter() -> (v: Vec<Theme>)
        ensures
            v@ == Theme::all(),
            forall|t: Theme| v@.contains(t),
    {
        let mut v: Vec<Theme> = Vec::new();
        v.push(Theme::Seafoam);
        v.push(Theme::Lemon);
        v.push(Theme::Forest);
        v.push(Theme::Candy);
        v.push(Theme::Christmas);
        v.push(Theme::Creamsicle);
        v.push(Theme::Vibrant);
        assert(v@ =~= Theme::all());
        assert forall|t: Theme| v@.contains(t) by {
            match t {
                Theme::Seafoam => assert(v@[0] == t),
                Theme::Lemon => assert(v@[1] == t),
                Theme::Forest => assert(v@[2] == t),
                Theme::Candy => assert(v@[3] == t),
                Theme::Christmas => assert(v@[4] == t),
                Theme::Creamsicle => assert(v@[5] == t),
                Theme::Vibrant => assert(v@[6] == t),
            }
        }
        v
    }
}

/// The ten colours of the gradient `theme`.
pub fn get_gradients(theme: Theme) -> (g: [Color; 10])
    ensures
        g == theme.gradient(),
{
    match theme {
        Theme::Seafoam => SEAFOAM_GRADIENT,
        Theme::Lemon => LEMON_GRADIENT,
        Theme::Forest => FOREST_GRADIENT,
        Theme::Candy => CANDY_GRADIENT,
        Theme::Christmas => CHRISTMAS_GRADIENT,
        Theme::Creamsicle => CREAMSICLE_GRADIENT,
        Theme::Vibrant => VIBRANT_GRADIENT,
    }
}

} // verus!
