use crate::error::LoadError;
use vstd::prelude::*;

verus! {

pub const RED: u8 = 0;

pub const GREEN: u8 = 1;

pub const BLUE: u8 = 2;

/// Number of colour channels.
pub const CHANNELS: usize = 3;

/// A colour filter array: the tile of channels that repeats over the sensor.
/// `colors` holds the tile row by row.
#[derive(Debug)]
pub struct CfaPattern {
    pub width: usize,
    pub height: usize,
    pub colors: Vec<u8>,
}

/// The channel that a letter of a pattern name stands for. Magenta filters
/// are read as green; emerald and yellow belong to a fourth channel, which
/// has no place among the three.
pub open spec fn letter_channel(letter: u8) -> Option<u8> {
    if letter == 0x52 {
        Some(RED)
    } else if letter == 0x47 || letter == 0x4D {
        Some(GREEN)
    } else if letter == 0x42 {
        Some(BLUE)
    } else {
        None
    }
}

/// Every letter names one of the three channels.
pub open spec fn letters_known(letters: Seq<u8>) -> bool {
    forall|i: int| 0 <= i < letters.len() ==> (#[trigger] letter_channel(letters[i])) is Some
}

/// The tile has a positive size, one entry per cell, and only the three
/// channels in it.
pub open spec fn tile_valid(width: int, height: int, colors: Seq<u8>) -> bool {
    &&& width > 0
    &&& height > 0
    &&& colors.len() == width * height
    &&& forall|i: int| 0 <= i < colors.len() ==> #[trigger] colors[i] <= BLUE
}

pub proof fn lemma_cell_in_tile(width: int, height: int, x: int, y: int)
    requires
        width > 0,
        height > 0,
    ensures
        0 <= (y % height) * width,
        0 <= (y % height) * width + (x % width) < width * height,
{
    let row = y % height;
    let col = x % width;
    assert(0 <= row < height && 0 <= col < width);
    assert(0 <= row * width && row * width + width <= height * width) by (nonlinear_arith)
        requires
            0 <= row < height,
            width > 0,
    ;
    assert(height * width == width * height) by (nonlinear_arith);
}

/// What a pattern is: the size of its tile and the channels in it.
pub struct CfaView {
    pub width: nat,
    pub height: nat,
    pub colors: Seq<u8>,
}

impl CfaView {
    pub open spec fn valid(self) -> bool {
        tile_valid(self.width as int, self.height as int, self.colors)
    }

    /// The channel sampled at sensor position `(x, y)`.
    pub open spec fn color_of(self, x: int, y: int) -> u8
        recommends
            self.valid(),
    {
        self.colors[(y % (self.height as int)) * self.width + (x % (self.width as int))]
    }
}

impl View for CfaPattern {
    type V = CfaView;

    open spec fn view(&self) -> CfaView {
        CfaView { width: self.width as nat, height: self.height as nat, colors: self.colors@ }
    }
}

impl CfaPattern {

    /// Builds a pattern from its tile, which must be valid.
    pub fn new(width: usize, height: usize, colors: Vec<u8>) -> (r: Result<CfaPattern, LoadError>)
        ensures
            (r is Ok) == tile_valid(width as int, height as int, colors@),
            r matches Ok(p) ==> p.width == width && p.height == height && p.colors@ == colors@,
            r matches Err(e) ==> e == LoadError::Config,
    {
        let pattern = CfaPattern { width, height, colors };
        if pattern.is_valid() {
            Ok(pattern)
        } else {
            Err(LoadError::Config)
        }
    }

    /// Builds a pattern from the letters of its name, one letter per cell,
    /// row by row: `R`, `G` and `B`, and `M` for a magenta filter.
    pub fn from_descriptor(letters: &[u8], width: usize, height: usize) -> (r: Result<
        CfaPattern,
        LoadError,
    >)
        ensures
            (r is Ok) == (width > 0 && height > 0 && letters@.len() == width * height
                && letters_known(letters@)),
            r matches Ok(p) ==> {
                &&& p@.valid()
                &&& p.width == width
                &&& p.height == height
                &&& forall|i: int|
                    0 <= i < letters@.len() ==> Some(#[trigger] p.colors@[i]) == letter_channel(
                        letters@[i],
                    )
            },
            r matches Err(e) ==> e == LoadError::Config,
    {
        let mut colors: Vec<u8> = Vec::new();
        let mut i: usize = 0;
        while i < letters.len()
            invariant
                i <= letters@.len(),
                colors@.len() == i,
                forall|j: int|
                    0 <= j < i ==> Some(#[trigger] colors@[j]) == letter_channel(letters@[j]),
            decreases letters@.len() - i,
        {
            let letter: u8 = letters[i];
            let channel: u8 = if letter == 0x52 {
                RED
            } else if letter == 0x47 || letter == 0x4D {
                GREEN
            } else if letter == 0x42 {
                BLUE
            } else {
                assert(letter_channel(letters@[i as int]) is None);
                return Err(LoadError::Config);
            };
            colors.push(channel);
            i += 1;
        }
        assert(letters_known(letters@)) by {
            assert forall|j: int| 0 <= j < letters@.len() implies (#[trigger] letter_channel(
                letters@[j],
            )) is Some by {
                assert(Some(colors@[j]) == letter_channel(letters@[j]));
            }
        }
        let pattern = CfaPattern { width, height, colors };
        if pattern.is_valid() {
            Ok(pattern)
        } else {
            Err(LoadError::Config)
        }
    }

    pub fn is_valid(&self) -> (r: bool)
        ensures
            r == self@.valid(),
    {
        if self.width == 0 || self.height == 0 {
            return false;
        }
        match self.width.checked_mul(self.height) {
            None => {
                assert(self.colors.len() == self.colors@.len());
                return false;
            },
            Some(cells) => {
                if self.colors.len() != cells {
                    return false;
                }
            },
        }
        let mut i: usize = 0;
        while i < self.colors.len()
            invariant
                i <= self.colors@.len(),
                forall|j: int| 0 <= j < i ==> #[trigger] self.colors@[j] <= BLUE,
            decreases self.colors@.len() - i,
        {
            if self.colors[i] > BLUE {
                return false;
            }
            i += 1;
        }
        true
    }

    /// The channel sampled at sensor position `(x, y)`.
    pub fn color_at(&self, x: usize, y: usize) -> (c: u8)
        requires
            self@.valid(),
        ensures
            c == self@.color_of(x as int, y as int),
            c <= BLUE,
    {
        proof {
            lemma_cell_in_tile(self.width as int, self.height as int, x as int, y as int);
            assert(self.colors.len() == self.colors@.len());
        }
        self.colors[(y % self.height) * self.width + (x % self.width)]
    }
}

} // verus!
