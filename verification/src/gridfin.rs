//! The sizes of the parts of a storage-grid module, counted in grid units.
//! The solids themselves are built from these numbers elsewhere.

use vstd::prelude::*;
use vstd::string::StringExecFns;
use crate::text::{decimal, decimal_text};

verus! {

/// Where cell `i` of `n` cells in a row lies, counted in half grid units
/// from the middle of the row.
pub open spec fn centred(i: int, n: int) -> int {
    2 * i - (n - 1)
}

/// Computes [`centred`].
pub fn centred_offset(i: usize, n: usize) -> (offset: i128)
    ensures
        offset == centred(i as int, n as int),
{
    let twice: i128 = 2 * (i as i128);
    twice - ((n as i128) - 1)
}

/// The cells of a row lie mirrored about its middle, one grid unit apart.
pub proof fn cells_are_centred(i: int, n: int)
    requires
        0 <= i < n,
    ensures
        centred(i, n) == -centred(n - 1 - i, n),
        i + 1 < n ==> centred(i + 1, n) == centred(i, n) + 2,
        -(n - 1) <= centred(i, n) <= n - 1,
{
}

/// The name of the file that a part is written to: `base` for a base
/// plate and `gf` for a bin, the three sizes, and `step` or `stl` for the
/// format, as in `gf_2x3x4.stl`.
pub open spec fn output_name_text(base: bool, step: bool, width: nat, length: nat, depth: nat) -> Seq<
    char,
> {
    (if base {
        "base"@
    } else {
        "gf"@
    }) + "_"@ + decimal_text(width) + "x"@ + decimal_text(length) + "x"@ + decimal_text(depth)
        + "."@ + (if step {
        "step"@
    } else {
        "stl"@
    })
}

/// Writes the file name that [`output_name_text`] gives.
pub fn output_name(base: bool, step: bool, width: usize, length: usize, depth: usize) -> (name:
    String)
    ensures
        name@ == output_name_text(base, step, width as nat, length as nat, depth as nat),
{
    let mut name = if base {
        String::from_str("base")
    } else {
        String::from_str("gf")
    };
    name.append("_");
    name.append(decimal(width).as_str());
    name.append("x");
    name.append(decimal(length).as_str());
    name.append("x");
    name.append(decimal(depth).as_str());
    name.append(".");
    if step {
        name.append("step");
    } else {
        name.append("stl");
    }
    name
}

/// The wall of a bin: `x` by `y` grid units wide and `height` units high,
/// hollow unless `filled`.
#[derive(Debug)]
pub struct Wall {
    x: usize,
    y: usize,
    height: usize,
    filled: bool,
}

impl Wall {
    pub closed spec fn spec_x(&self) -> usize {
        self.x
    }

    pub closed spec fn spec_y(&self) -> usize {
        self.y
    }

    pub closed spec fn spec_height(&self) -> usize {
        self.height
    }

    pub closed spec fn spec_filled(&self) -> bool {
        self.filled
    }

    pub fn new(x: usize, y: usize, height: usize, filled: bool) -> (wall: Wall)
        ensures
            wall.spec_x() == x,
            wall.spec_y() == y,
            wall.spec_height() == height,
            wall.spec_filled() == filled,
    {
        Wall { x, y, height, filled }
    }

    #[verifier::when_used_as_spec(spec_x)]
    pub fn x(&self) -> (x: usize)
        ensures
            x == self.spec_x(),
    {
        self.x
    }

    #[verifier::when_used_as_spec(spec_y)]
    pub fn y(&self) -> (y: usize)
        ensures
            y == self.spec_y(),
    {
        self.y
    }

    #[verifier::when_used_as_spec(spec_height)]
    pub fn height(&self) -> (height: usize)
        ensures
            height == self.spec_height(),
    {
        self.height
    }

    #[verifier::when_used_as_spec(spec_filled)]
    pub fn filled(&self) -> (filled: bool)
        ensures
            filled == self.spec_filled(),
    {
        self.filled
    }
}

/// The floor of a bin, `x` by `y` grid units.
#[derive(Debug)]
pub struct Plate {
    x: usize,
    y: usize,
}

impl Plate {
    pub closed spec fn spec_x(&self) -> usize {
        self.x
    }

    pub closed spec fn spec_y(&self) -> usize {
        self.y
    }

    pub fn new(x: usize, y: usize) -> (plate: Plate)
        ensures
            plate.spec_x() == x,
            plate.spec_y() == y,
    {
        Plate { x, y }
    }

    #[verifier::when_used_as_spec(spec_x)]
    pub fn x(&self) -> (x: usize)
        ensures
            x == self.spec_x(),
    {
        self.x
    }

    #[verifier::when_used_as_spec(spec_y)]
    pub fn y(&self) -> (y: usize)
        ensures
            y == self.spec_y(),
    {
        self.y
    }
}

/// The base plate that bins are set into, `x` by `y` grid units.
#[derive(Debug)]
pub struct BasePlate {
    x: usize,
    y: usize,
}

impl BasePlate {
    pub closed spec fn spec_x(&self) -> usize {
        self.x
    }

    pub closed spec fn spec_y(&self) -> usize {
        self.y
    }

    pub fn new(x: usize, y: usize) -> (plate: BasePlate)
        ensures
            plate.spec_x() == x,
            plate.spec_y() == y,
    {
        BasePlate { x, y }
    }

    #[verifier::when_used_as_spec(spec_x)]
    pub fn x(&self) -> (x: usize)
        ensures
            x == self.spec_x(),
    {
        self.x
    }

    #[verifier::when_used_as_spec(spec_y)]
    pub fn y(&self) -> (y: usize)
        ensures
            y == self.spec_y(),
    {
        self.y
    }
}

} // verus!
