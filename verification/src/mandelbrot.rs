//! The grid of a Mandelbrot picture: one escape count per cell, row by row.
use vstd::prelude::*;

verus! {

/// A grid of `length` rows of `width` cells, where the cell in row `y` and column `x`
/// holds `escape(x, y)` (the escape count of the point that the cell stands for).
pub fn get_mandelbraut_array(length: i32, width: i32, escape: impl Fn(usize, usize) -> i32) -> (grid:
    Vec<Vec<i32>>)
    requires
        length >= 0,
        length > 0 ==> width >= 0,
        forall|x: usize, y: usize| x < width && y < length ==> call_requires(escape, (x, y)),
    ensures
        grid@.len() == length,
        forall|y: int| 0 <= y < length ==> (#[trigger] grid@[y])@.len() == width,
        forall|y: int, x: int|
            0 <= y < length && 0 <= x < width ==> call_ensures(
                escape,
                (x as usize, y as usize),
                #[trigger] grid@[y]@[x],
            ),
{
    let rows = length as usize;
    let mut grid: Vec<Vec<i32>> = Vec::new();
    let mut y: usize = 0;
    while y < rows
        invariant
            rows == length,
            length > 0 ==> width >= 0,
            y <= rows,
            grid@.len() == y,
            forall|x: usize, y: usize| x < width && y < length ==> call_requires(escape, (x, y)),
            forall|r: int| 0 <= r < y ==> (#[trigger] grid@[r])@.len() == width,
            forall|r: int, x: int|
                0 <= r < y && 0 <= x < width ==> call_ensures(
                    escape,
                    (x as usize, r as usize),
                    #[trigger] grid@[r]@[x],
                ),
        decreases rows - y,
    {
        let columns = width as usize;
        let mut row: Vec<i32> = Vec::new();
        let mut x: usize = 0;
        while x < columns
            invariant
                columns == width,
                x <= columns,
                y < length,
                row@.len() == x,
                forall|x: usize, y: usize| x < width && y < length ==> call_requires(escape, (x, y)),
                forall|c: int|
                    0 <= c < x ==> call_ensures(escape, (c as usize, y), #[trigger] row@[c]),
            decreases columns - x,
        {
            let value = escape(x, y);
            row.push(value);
            x = x + 1;
        }
        grid.push(row);
        y = y + 1;
    }
    grid
}

/// The character that shows an escape count: blank for the fewest iterations,
/// then `.`, `*`, `+`, `#`, and `%` beyond one hundred (or below zero).
pub open spec fn spec_value_char(value: i32) -> char {
    if 0 <= value <= 2 {
        ' '
    } else if 3 <= value <= 5 {
        '.'
    } else if 6 <= value <= 10 {
        '*'
    } else if 11 <= value <= 30 {
        '+'
    } else if 31 <= value <= 100 {
        '#'
    } else {
        '%'
    }
}

/// The picture's key: counts 0 to 2 are blank, 3 to 5 `.`, 6 to 10 `*`, 11 to 30
/// `+`, 31 to 100 `#`, and every other count `%`.
pub proof fn lemma_value_char_key(value: i32)
    ensures
        0 <= value <= 2 ==> spec_value_char(value) == ' ',
        3 <= value <= 5 ==> spec_value_char(value) == '.',
        6 <= value <= 10 ==> spec_value_char(value) == '*',
        11 <= value <= 30 ==> spec_value_char(value) == '+',
        31 <= value <= 100 ==> spec_value_char(value) == '#',
        value < 0 || value > 100 ==> spec_value_char(value) == '%',
{
}

/// The character that shows the escape count `value` in the picture.
pub fn value_char(value: i32) -> (c: char)
    ensures
        c == spec_value_char(value),
        0 <= value <= 2 ==> c == ' ',
        3 <= value <= 5 ==> c == '.',
        6 <= value <= 10 ==> c == '*',
        11 <= value <= 30 ==> c == '+',
        31 <= value <= 100 ==> c == '#',
        value < 0 || value > 100 ==> c == '%',
{
    match value {
        0..=2 => ' ',
        3..=5 => '.',
        6..=10 => '*',
        11..=30 => '+',
        31..=100 => '#',
        _ => '%',
    }
}

} // verus!
