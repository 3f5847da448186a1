//! What a run is configured with: the seed pattern, how the run is watched,
//! how particles are coloured, and the words by which a user chooses them.

use vstd::prelude::*;
use vstd::string::StringSliceAdditionalSpecFns;
use vstd::utf8::encode_utf8;

verus! {

/// The pattern of particles a grid starts with.
#[derive(Debug, PartialEq, Eq, Clone, Copy, Structural)]
pub enum GridType {
    /// A single particle in the center
    Center,
    /// The bottom edge is saturated with particles
    BottomEdge,
    /// All edges are saturated with particles
    AllEdges,
    /// One particle in each quadrant
    FourDots,
    /// Five particles at random positions
    RandFive,
    /// A thin ring around the center
    Circle,
}

/// How the simulation is shown.
#[derive(Debug, PartialEq, Eq, Clone, Copy, Structural)]
pub enum ViewMode {
    /// View the simulation as it's occurring
    Live,
    /// View the simulation only once all particles have stuck
    End,
    /// Don't view the simulation
    Skip,
}

/// How particles are coloured.
#[derive(Debug, PartialEq, Eq, Clone, Copy, Structural)]
pub enum ColorStyle {
    /// Every particle has the chosen colour.
    Normal,
    /// Every particle gets a random colour in every frame.
    Sparkle,
}

impl GridType {
    /// The name a seed pattern is shown under.
    pub open spec fn label(self) -> Seq<char> {
        match self {
            GridType::Center => "Center"@,
            GridType::BottomEdge => "Bottom Edge"@,
            GridType::AllEdges => "All Edges"@,
            GridType::FourDots => "Four Dots"@,
            GridType::RandFive => "Random Five"@,
            GridType::Circle => "Circle"@,
        }
    }

    /// All seed patterns, in the order of their declaration.
    pub open spec fn all() -> Seq<GridType> {
        seq![
            GridType::Center,
            GridType::BottomEdge,
            GridType::AllEdges,
            GridType::FourDots,
            GridType::RandFive,
            GridType::Circle,
        ]
    }

    /// The name this seed pattern is shown under.
    pub fn to_string(&self) -> (s: String)
        ensures
            s@ == self.label(),
    {
        match self {
            GridType::Center => "Center".to_owned(),
            GridType::BottomEdge => "Bottom Edge".to_owned(),
            GridType::AllEdges => "All Edges".to_owned(),
            GridType::FourDots => "Four Dots".to_owned(),
            GridType::RandFive => "Random Five".to_owned(),
            GridType::Circle => "Circle".to_owned(),
        }
    }

    /// Every seed pattern once, in the order of their declaration.
    pub fn iter() -> (v: Vec<GridType>)
        ensures
            v@ == GridType::all(),
            forall|g: GridType| v@.contains(g),
    {
        let mut v: Vec<GridType> = Vec::new();
        v.push(GridType::Center);
        v.push(GridType::BottomEdge);
        v.push(GridType::AllEdges);
        v.push(GridType::FourDots);
        v.push(GridType::RandFive);
        v.push(GridType::Circle);
        assert(v@ =~= GridType::all());
        assert forall|g: GridType| v@.contains(g) by {
            match g {
                GridType::Center => assert(v@[0] == g),
                GridType::BottomEdge => assert(v@[1] == g),
                GridType::AllEdges => assert(v@[2] == g),
                GridType::FourDots => assert(v@[3] == g),
                GridType::RandFive => assert(v@[4] == g),
                GridType::Circle => assert(v@[5] == g),
            }
        }
        v
    }
}

/// An upper-case ASCII letter becomes its lower-case form; any other byte
/// stays.
pub open spec fn lower(b: u8) -> u8 {
    if 0x41 <= b <= 0x5a {
        (b + 0x20) as u8
    } else {
        b
    }
}

/// `text`, with its ASCII letters in lower case, reads `word`.
pub open spec fn reads_as(text: Seq<u8>, word: Seq<u8>) -> bool {
    &&& text.len() == word.len()
    &&& forall|i: int| 0 <= i < text.len() ==> lower(#[trigger] text[i]) == word[i]
}

/// The bytes of `end`.
pub open spec fn word_end() -> Seq<u8> {
    seq![0x65u8, 0x6eu8, 0x64u8]
}

/// The bytes of `skip`.
pub open spec fn word_skip() -> Seq<u8> {
    seq![0x73u8, 0x6bu8, 0x69u8, 0x70u8]
}

/// The bytes of `bottomedge`.
pub open spec fn word_bottomedge() -> Seq<u8> {
    seq![0x62u8, 0x6fu8, 0x74u8, 0x74u8, 0x6fu8, 0x6du8, 0x65u8, 0x64u8, 0x67u8, 0x65u8]
}

/// The bytes of `alledges`.
pub open spec fn word_alledges() -> Seq<u8> {
    seq![0x61u8, 0x6cu8, 0x6cu8, 0x65u8, 0x64u8, 0x67u8, 0x65u8, 0x73u8]
}

/// The bytes of `fourdots`.
pub open spec fn word_fourdots() -> Seq<u8> {
    seq![0x66u8, 0x6fu8, 0x75u8, 0x72u8, 0x64u8, 0x6fu8, 0x74u8, 0x73u8]
}

/// The bytes of `sparkle`.
pub open spec fn word_sparkle() -> Seq<u8> {
    seq![0x73u8, 0x70u8, 0x61u8, 0x72u8, 0x6bu8, 0x6cu8, 0x65u8]
}

/// The view that the words of a configuration ask for. A file to load
/// forces `End`; otherwise `end` and `skip` are understood in any mix of
/// cases, and everything else means `Live`.
pub open spec fn chosen_view(loads_file: bool, word: Option<Seq<u8>>) -> ViewMode {
    if loads_file {
        ViewMode::End
    } else {
        match word {
            Some(w) => if reads_as(w, word_end()) {
                ViewMode::End
            } else if reads_as(w, word_skip()) {
                ViewMode::Skip
            } else {
                ViewMode::Live
            },
            None => ViewMode::Live,
        }
    }
}

/// The seed pattern that a word asks for: `bottomedge`, `alledges` and
/// `fourdots` in any mix of cases, and `Center` for everything else.
pub open spec fn chosen_grid_type(word: Option<Seq<u8>>) -> GridType {
    match word {
        Some(w) => if reads_as(w, word_bottomedge()) {
            GridType::BottomEdge
        } else if reads_as(w, word_alledges()) {
            GridType::AllEdges
        } else if reads_as(w, word_fourdots()) {
            GridType::FourDots
        } else {
            GridType::Center
        },
        None => GridType::Center,
    }
}

/// The colouring that a word asks for: `sparkle` in any mix of cases, and
/// `Normal` for everything else.
pub open spec fn chosen_color_style(word: Option<Seq<u8>>) -> ColorStyle {
    match word {
        Some(w) => if reads_as(w, word_sparkle()) {
            ColorStyle::Sparkle
        } else {
            ColorStyle::Normal
        },
        None => ColorStyle::Normal,
    }
}

/// The UTF-8 bytes of an optional string.
pub open spec fn bytes_of(word: Option<String>) -> Option<Seq<u8>> {
    match word {
        Some(s) => Some(encode_utf8(s@)),
        None => None,
    }
}

fn lower_byte(b: u8) -> (r: u8)
    ensures
        r == lower(b),
{
    if 0x41 <= b && b <= 0x5a {
        b + 0x20
    } else {
        b
    }
}

/// Whether `text` reads `word` once its ASCII letters are in lower case.
pub fn is_word(text: &str, word: &[u8]) -> (r: bool)
    ensures
        r == reads_as(text.spec_bytes(), word@),
{
    let bytes = text.as_bytes();
    if bytes.len() != word.len() {
        return false;
    }
    let mut i: usize = 0;
    while i < bytes.len()
        invariant
            i <= bytes.len(),
            bytes.len() == word.len(),
            bytes@ == text.spec_bytes(),
            forall|j: int| 0 <= j < i ==> lower(#[trigger] bytes@[j]) == word@[j],
        decreases bytes.len() - i,
    {
        if lower_byte(bytes[i]) != word[i] {
            return false;
        }
        i += 1;
    }
    true
}

/// The settings of one run, as a user gives them. The words are kept as
/// they were typed; `view`, `grid_type` and `color_style` say what they
/// mean.
#[derive(Clone, Debug)]
pub struct DlaConfig {
    /// The edge length of the square grid
    pub width: u32,
    /// The height of the grid; the width where it is missing
    pub height: Option<u32>,
    /// The number of particles for the simulation
    pub particles: usize,
    /// The word for the initial particle configuration of the grid
    pub grid_type: Option<String>,
    /// The word for the colour of the particles
    pub color: Option<String>,
    /// The word for the colour of the background
    pub background_color: Option<String>,
    /// After simulation, write the grid to this file
    pub to_file: Option<String>,
    /// Read a grid in from this file and display it
    pub from_file: Option<String>,
    /// The word for the style in which particles are coloured
    pub color_style: Option<String>,
    /// Measure updates per second and do nothing else
    pub benchmark: bool,
    /// The word for how the simulation is watched
    pub view: Option<String>,
}

impl Default for DlaConfig {
    /// The settings a benchmark runs with: 400 by 400 cells, 10,000
    /// particles, and no word given.
    fn default() -> (c: DlaConfig)
        ensures
            c.width == 400,
            c.height is None,
            c.particles == 10_000,
            c.grid_type is None,
            c.color is None,
            c.background_color is None,
            c.to_file is None,
            c.from_file is None,
            c.color_style is None,
            !c.benchmark,
            c.view is None,
    {
        DlaConfig {
            width: 400,
            height: None,
            particles: 10_000,
            color_style: None,
            benchmark: false,
            from_file: None,
            to_file: None,
            grid_type: None,
            color: None,
            background_color: None,
            view: None,
        }
    }
}

impl DlaConfig {
    /// How the run is watched. A grid read from a file is only shown.
    pub fn view(&self) -> (v: ViewMode)
        ensures
            v == chosen_view(self.from_file is Some, bytes_of(self.view)),
    {
        if self.from_file.is_some() {
            return ViewMode::End;
        }
        match &self.view {
            Some(word) => {
                let end: [u8; 3] = [0x65, 0x6e, 0x64];
                let skip: [u8; 4] = [0x73, 0x6b, 0x69, 0x70];
                assert(end@ =~= word_end());
                assert(skip@ =~= word_skip());
                if is_word(word.as_str(), end.as_slice()) {
                    ViewMode::End
                } else if is_word(word.as_str(), skip.as_slice()) {
                    ViewMode::Skip
                } else {
                    ViewMode::Live
                }
            },
            None => ViewMode::Live,
        }
    }

    /// The seed pattern of the run; `Center` unless a known word says
    /// otherwise.
    pub fn grid_type(&self) -> (g: GridType)
        ensures
            g == chosen_grid_type(bytes_of(self.grid_type)),
    {
        match &self.grid_type {
            Some(word) => {
                let bottomedge: [u8; 10] = [
                    0x62, 0x6f, 0x74, 0x74, 0x6f, 0x6d, 0x65, 0x64, 0x67, 0x65,
                ];
                let alledges: [u8; 8] = [0x61, 0x6c, 0x6c, 0x65, 0x64, 0x67, 0x65, 0x73];
                let fourdots: [u8; 8] = [0x66, 0x6f, 0x75, 0x72, 0x64, 0x6f, 0x74, 0x73];
                assert(bottomedge@ =~= word_bottomedge());
                assert(alledges@ =~= word_alledges());
                assert(fourdots@ =~= word_fourdots());
                if is_word(word.as_str(), bottomedge.as_slice()) {
                    GridType::BottomEdge
                } else if is_word(word.as_str(), alledges.as_slice()) {
                    GridType::AllEdges
                } else if is_word(word.as_str(), fourdots.as_slice()) {
                    GridType::FourDots
                } else {
                    GridType::Center
                }
            },
            None => GridType::Center,
        }
    }

    /// The colouring of the run; `Normal` unless the word is `sparkle`.
    pub fn color_style(&self) -> (c: ColorStyle)
        ensures
            c == chosen_color_style(bytes_of(self.color_style)),
    {
        match &self.color_style {
            Some(word) => {
                let sparkle: [u8; 7] = [0x73, 0x70, 0x61, 0x72, 0x6b, 0x6c, 0x65];
                assert(sparkle@ =~= word_sparkle());
                if is_word(word.as_str(), sparkle.as_slice()) {
                    ColorStyle::Sparkle
                } else {
                    ColorStyle::Normal
                }
            },
            None => ColorStyle::Normal,
        }
    }
}

} // verus!
