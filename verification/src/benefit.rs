//! Benefit scalars for reporting peers.

use vstd::prelude::*;

verus! {

pub const NEIGHBOR_MESSAGE: i32 = 100;

pub const ROUND_MESSAGE: i32 = 100;

pub const BASIC_VALIDATED_CATCH_UP: i32 = 200;

pub const BASIC_VALIDATED_COMMIT: i32 = 100;

pub const PER_EQUIVOCATION: i32 = 10;

} // verus!
