//! Names of the 25 cells: a column letter A to E and a row number 1 to 5.
use vstd::prelude::*;

verus! {

/// Cell A1.
pub const A1: usize = 0;

/// Cell B1.
pub const B1: usize = 1;

/// Cell C1.
pub const C1: usize = 2;

/// Cell D1.
pub const D1: usize = 3;

/// Cell E1.
pub const E1: usize = 4;

/// Cell A2.
pub const A2: usize = 5;

/// Cell B2.
pub const B2: usize = 6;

/// Cell C2.
pub const C2: usize = 7;

/// Cell D2.
pub const D2: usize = 8;

/// Cell E2.
pub const E2: usize = 9;

/// Cell A3.
pub const A3: usize = 10;

/// Cell B3.
pub const B3: usize = 11;

/// Cell C3.
pub const C3: usize = 12;

/// Cell D3.
pub const D3: usize = 13;

/// Cell E3.
pub const E3: usize = 14;

/// Cell A4.
pub const A4: usize = 15;

/// Cell B4.
pub const B4: usize = 16;

/// Cell C4.
pub const C4: usize = 17;

/// Cell D4.
pub const D4: usize = 18;

/// Cell E4.
pub const E4: usize = 19;

/// Cell A5.
pub const A5: usize = 20;

/// Cell B5.
pub const B5: usize = 21;

/// Cell C5.
pub const C5: usize = 22;

/// Cell D5.
pub const D5: usize = 23;

/// Cell E5.
pub const E5: usize = 24;

} // verus!
