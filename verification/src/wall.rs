//! The tiled wall behind the light switch.
//!
//! Most tiles show a mirrored pattern of palette colours that is drawn from
//! a seeded random number generator. The tiles in the upper right part of the
//! wall show the score in digits of three by five tiles.

use rand::rngs::StdRng;
use rand::Rng;
use rand::SeedableRng;
use vstd::prelude::*;
use vstd::string::StrSliceExecFns;

verus! {

/// Column of the rightmost tiles of the wall; columns count from 0 at the left.
pub const WALL_COLUMNS: usize = 90;

/// Row of the topmost tiles of the wall; rows count from 0 at the bottom.
pub const WALL_ROWS: usize = 25;

/// Side of the square of palette entries from which the wall's pattern is
/// unfolded.
pub const PATTERN_SIZE: usize = 5;

/// Column of the rightmost tile of the score.
pub const TOP_RIGHT_DIGIT_X: usize = WALL_COLUMNS / 2 + 13;

/// Row of the topmost tile of the score.
pub const TOP_RIGHT_DIGIT_Y: usize = WALL_ROWS / 2 + 7;

/// Width of a digit in tiles.
pub const DIGIT_SIZE_X: usize = 3;

/// Height of a digit in tiles.
pub const DIGIT_SIZE_Y: usize = 5;

/// Number of cells that the pictures of the ten digits take.
pub const DIGIT_PATTERNS_LEN: usize = 10 * DIGIT_SIZE_X * DIGIT_SIZE_Y;

/// A tile of the wall, by its column and row.
#[derive(Clone, Copy, Debug, PartialEq, Eq, Structural)]
pub struct WallTile {
    pub x: usize,
    pub y: usize,
}

/// What a tile shows.
#[derive(Clone, Copy, Debug, PartialEq, Eq, Structural)]
pub enum TileMaterial {
    /// The tile is part of a digit of the score.
    Number,
    /// The tile shows the palette colour with this number.
    Palette(usize),
}

/// The seedable random number generator `rand::rngs::StdRng`. Its state is
/// opaque here: it is only handed from one call to the next.
#[verifier::external_type_specification]
#[verifier::external_body]
pub struct ExStdRng(rand::rngs::StdRng);

/// Calls `StdRng::seed_from_u64` of the `rand` crate. Trusted, and without a
/// claim: nothing is assumed of the generator that it returns.
#[verifier::external_body]
fn seeded_generator(seed: u64) -> (generator: StdRng) {
    StdRng::seed_from_u64(seed)
}

/// Calls `Rng::gen::<usize>` of the `rand` crate on the generator. Trusted,
/// and without a claim: the number that it returns may be any.
#[verifier::external_body]
fn next_draw(generator: &mut StdRng) -> (draw: usize) {
    generator.gen::<usize>()
}

/// Position of a column or row within the pattern: the pattern is mirrored
/// back and forth, so that it repeats every `2 * PATTERN_SIZE - 2` tiles.
pub open spec fn mirrored(coordinate: int) -> int {
    let phase = coordinate % (2 * PATTERN_SIZE - 2);
    if phase >= PATTERN_SIZE - 2 {
        phase - (PATTERN_SIZE - 2)
    } else {
        (PATTERN_SIZE - 2) - phase
    }
}

/// Index of the pattern entry that the tile at column `x` and row `y` shows.
pub open spec fn pattern_index_of(x: int, y: int) -> int {
    mirrored(x) + mirrored(y) * PATTERN_SIZE
}

/// The palette colour for a random number: made so that the last colour of
/// the palette comes up less often than the others.
pub open spec fn palette_entry(draw: int, palette_len: int) -> int {
    (draw % (palette_len * 2 - 1)) % palette_len
}

/// The pattern for a sequence of random numbers.
pub open spec fn pattern_of(draws: Seq<usize>, palette_len: int) -> Seq<usize> {
    draws.map_values(|draw: usize| palette_entry(draw as int, palette_len) as usize)
}

/// Whether a text of digit pictures holds nothing but dots, blanks and line
/// breaks.
pub open spec fn is_digit_picture(text: Seq<char>) -> bool {
    forall|i: int| 0 <= i < text.len() ==> text[i] == '.' || text[i] == ' ' || text[i] == '\n'
}

/// The cells of a text of digit pictures: a dot is a set cell, a blank a
/// clear one, and line breaks do not count.
pub open spec fn picture_cells(text: Seq<char>) -> Seq<bool> {
    text.filter(|c: char| c != '\n').map_values(|c: char| c == '.')
}

/// The value of a decimal digit, if the character is one.
pub open spec fn digit_value(c: char) -> Option<int> {
    if '0' <= c <= '9' {
        Some(c as int - '0' as int)
    } else {
        None
    }
}

/// Whether the tile at column `x` and row `y` is a set cell of the score.
///
/// The score `digits` stands right-aligned at [`TOP_RIGHT_DIGIT_X`], top
/// aligned at [`TOP_RIGHT_DIGIT_Y`], with a free column between digits. Rows
/// count upwards on the wall and downwards in a digit's picture. The digit
/// for a place is found by the length of `digits` in bytes (`byte_len`), so
/// the score is shown as expected when it is written in ASCII digits; a
/// character that is no decimal digit leaves its place empty.
pub open spec fn is_digit_cell(
    digits: Seq<char>,
    byte_len: int,
    digit_patterns: Seq<bool>,
    x: int,
    y: int,
) -> bool {
    let from_right = TOP_RIGHT_DIGIT_X - x;
    let place = from_right / (DIGIT_SIZE_X + 1);
    let column = from_right % (DIGIT_SIZE_X + 1);
    let row = TOP_RIGHT_DIGIT_Y - y;
    let position = byte_len - 1 - place;
    &&& x <= TOP_RIGHT_DIGIT_X
    &&& 0 <= row < DIGIT_SIZE_Y
    &&& place < byte_len
    &&& column < DIGIT_SIZE_X
    &&& position < digits.len()
    &&& digit_value(digits[position]) matches Some(digit)
    &&& digit_patterns[digit * (DIGIT_SIZE_X * DIGIT_SIZE_Y) + (DIGIT_SIZE_X - 1 - column) + row
        * DIGIT_SIZE_X]
}

/// What the tile at column `x` and row `y` shows.
pub open spec fn material_of(
    digits: Seq<char>,
    byte_len: int,
    digit_patterns: Seq<bool>,
    pattern: Seq<usize>,
    x: int,
    y: int,
) -> TileMaterial {
    if is_digit_cell(digits, byte_len, digit_patterns, x, y) {
        TileMaterial::Number
    } else {
        TileMaterial::Palette(pattern[pattern_index_of(x, y)])
    }
}

/// Position of a column or row within the pattern.
fn mirror(coordinate: usize) -> (position: usize)
    ensures
        position == mirrored(coordinate as int),
        position < PATTERN_SIZE,
{
    let phase: usize = coordinate % (2 * PATTERN_SIZE - 2);
    if phase >= PATTERN_SIZE - 2 {
        phase - (PATTERN_SIZE - 2)
    } else {
        (PATTERN_SIZE - 2) - phase
    }
}

/// Index of the pattern entry that `tile` shows.
pub fn pattern_index(tile: &WallTile) -> (index: usize)
    ensures
        index == pattern_index_of(tile.x as int, tile.y as int),
        index < PATTERN_SIZE * PATTERN_SIZE,
{
    mirror(tile.x) + mirror(tile.y) * PATTERN_SIZE
}

/// The pattern for the random numbers `draws` and a palette of
/// `palette_len` colours.
pub fn tile_pattern(draws: &Vec<usize>, palette_len: usize) -> (pattern: Vec<usize>)
    requires
        1 <= palette_len <= usize::MAX / 2,
    ensures
        pattern@ == pattern_of(draws@, palette_len as int),
        forall|i: int| 0 <= i < pattern@.len() ==> pattern@[i] < palette_len,
{
    let mut pattern: Vec<usize> = Vec::new();
    let mut i: usize = 0;
    while i < draws.len()
        invariant
            1 <= palette_len <= usize::MAX / 2,
            i <= draws.len(),
            pattern@.len() == i,
            forall|k: int|
                0 <= k < i ==> pattern@[k] == palette_entry(draws@[k] as int, palette_len as int),
            forall|k: int| 0 <= k < i ==> pattern@[k] < palette_len,
        decreases draws.len() - i,
    {
        let entry: usize = (draws[i] % (palette_len * 2 - 1)) % palette_len;
        pattern.push(entry);
        i += 1;
    }
    assert(pattern@ =~= pattern_of(draws@, palette_len as int));
    pattern
}

/// The wall's pattern for a seed and a palette of `palette_len` colours:
/// [`tile_pattern`] of `PATTERN_SIZE * PATTERN_SIZE` numbers drawn from a
/// generator that was seeded with `seed`.
pub fn wall_pattern(seed: u64, palette_len: usize) -> (pattern: Vec<usize>)
    requires
        1 <= palette_len <= usize::MAX / 2,
    ensures
        pattern@.len() == PATTERN_SIZE * PATTERN_SIZE,
        forall|i: int| 0 <= i < pattern@.len() ==> pattern@[i] < palette_len,
        exists|draws: Seq<usize>| pattern@ == pattern_of(draws, palette_len as int),
{
    let mut generator = seeded_generator(seed);
    let mut draws: Vec<usize> = Vec::new();
    let mut i: usize = 0;
    while i < PATTERN_SIZE * PATTERN_SIZE
        invariant
            i <= PATTERN_SIZE * PATTERN_SIZE,
            draws@.len() == i,
        decreases PATTERN_SIZE * PATTERN_SIZE - i,
    {
        let draw: usize = next_draw(&mut generator);
        draws.push(draw);
        i += 1;
    }
    tile_pattern(&draws, palette_len)
}

/// Reads the pictures of the digits from a text of dots, blanks and line
/// breaks. `None` when the text holds any other character.
pub fn digit_patterns(text: &str) -> (cells: Option<Vec<bool>>)
    ensures
        cells is Some <==> is_digit_picture(text@),
        cells matches Some(cells) ==> cells@ == picture_cells(text@),
{
    let len: usize = text.unicode_len();
    let mut cells: Vec<bool> = Vec::new();
    let mut i: usize = 0;
    while i < len
        invariant
            len == text@.len(),
            i <= len,
            is_digit_picture(text@.take(i as int)),
            cells@ == picture_cells(text@.take(i as int)),
        decreases len - i,
    {
        let c: char = text.get_char(i);
        proof {
            reveal(Seq::filter);
            assert(text@.take(i + 1).drop_last() =~= text@.take(i as int));
        }
        if c == ' ' {
            cells.push(false);
        } else if c == '.' {
            cells.push(true);
        } else if c != '\n' {
            assert(text@[i as int] == c);
            return None;
        }
        proof {
            if c != '\n' {
                assert(picture_cells(text@.take(i + 1)) =~= picture_cells(
                    text@.take(i as int),
                ).push(c == '.'));
            }
        }
        i += 1;
    }
    assert(text@.take(len as int) =~= text@);
    Some(cells)
}

/// The value of a decimal digit, if the character is one.
fn digit_of(c: char) -> (digit: Option<usize>)
    ensures
        match digit {
            Some(digit) => digit_value(c) == Some(digit as int) && digit < 10,
            None => digit_value(c) is None,
        },
{
    if '0' <= c && c <= '9' {
        Some((c as u32 - '0' as u32) as usize)
    } else {
        None
    }
}

/// Whether `tile` is a set cell of the score that `digits` spells.
pub fn is_digit_tile(tile: &WallTile, digits: &str, digit_patterns: &[bool]) -> (set: bool)
    requires
        digit_patterns@.len() >= DIGIT_PATTERNS_LEN,
    ensures
        set == is_digit_cell(
            digits@,
            digits.len() as int,
            digit_patterns@,
            tile.x as int,
            tile.y as int,
        ),
{
    // Are we in the digit area?
    if tile.x > TOP_RIGHT_DIGIT_X || tile.y > TOP_RIGHT_DIGIT_Y || tile.y <= TOP_RIGHT_DIGIT_Y
        - DIGIT_SIZE_Y {
        return false;
    }
    // First determine in which digit we are.
    let digit_idx: usize = (TOP_RIGHT_DIGIT_X - tile.x) / (DIGIT_SIZE_X + 1);
    if digit_idx >= digits.len() {
        return false;
    }
    let digit_index: usize = digits.len() - 1 - digit_idx;

    // Where inside this digit are we?
    let digit_x: usize = (TOP_RIGHT_DIGIT_X - tile.x) % (DIGIT_SIZE_X + 1);
    if digit_x == DIGIT_SIZE_X {
        return false;  // We're in the space between digits!
    }
    let digit_x: usize = DIGIT_SIZE_X - digit_x - 1;
    let digit_y: usize = TOP_RIGHT_DIGIT_Y - tile.y;

    if digit_index >= digits.unicode_len() {
        return false;
    }
    let current_char: char = digits.get_char(digit_index);
    let current_pattern_block: usize = match digit_of(current_char) {
        Some(digit) => digit,
        None => {
            return false;
        },
    };
    digit_patterns[current_pattern_block * (DIGIT_SIZE_X * DIGIT_SIZE_Y) + digit_x + digit_y
        * DIGIT_SIZE_X]
}

/// What `tile` shows: a cell of the score, or else its entry of the wall's
/// pattern.
pub fn tile_material(
    tile: &WallTile,
    digits: &str,
    digit_patterns: &[bool],
    pattern: &Vec<usize>,
) -> (material: TileMaterial)
    requires
        digit_patterns@.len() >= DIGIT_PATTERNS_LEN,
        pattern@.len() >= PATTERN_SIZE * PATTERN_SIZE,
    ensures
        material == material_of(
            digits@,
            digits.len() as int,
            digit_patterns@,
            pattern@,
            tile.x as int,
            tile.y as int,
        ),
{
    if is_digit_tile(tile, digits, digit_patterns) {
        TileMaterial::Number
    } else {
        TileMaterial::Palette(pattern[pattern_index(tile)])
    }
}

} // verus!
