//! Cost scalars for reporting peers.

use vstd::prelude::*;

use crate::benefit;

verus! {

pub const PAST_REJECTION: i32 = -50;

pub const BAD_SIGNATURE: i32 = -100;

pub const MALFORMED_CATCH_UP: i32 = -1000;

pub const MALFORMED_COMMIT: i32 = -1000;

pub const FUTURE_MESSAGE: i32 = -500;

pub const UNKNOWN_VOTER: i32 = -150;

pub const INVALID_VIEW_CHANGE: i32 = -500;

pub const PER_UNDECODABLE_BYTE: i32 = -5;

pub const PER_SIGNATURE_CHECKED: i32 = -25;

pub const PER_BLOCK_LOADED: i32 = -10;

pub const INVALID_CATCH_UP: i32 = -5000;

pub const INVALID_COMMIT: i32 = -5000;

pub const OUT_OF_SCOPE_MESSAGE: i32 = -500;

pub const CATCH_UP_REQUEST_TIMEOUT: i32 = -200;

/// The cost of answering a catch up request.
pub const CATCH_UP_REPLY: i32 = -200;

pub const HONEST_OUT_OF_SCOPE_CATCH_UP: i32 = -200;

/// What a peer did wrong with a message whose signatures were looked at.
#[derive(Debug, Clone, Copy, PartialEq, Eq)]
pub enum Misbehavior {
    /// A catch-up with a bad signature.
    BadCatchUpMessage { signatures_checked: i32 },
    /// A commit with a bad signature.
    BadCommitMessage { signatures_checked: i32, blocks_loaded: i32, equivocations_caught: i32 },
}

/// The number of type `i32` that is closest to `x`.
pub open spec fn saturate(x: int) -> i32 {
    if x < i32::MIN {
        i32::MIN
    } else if x > i32::MAX {
        i32::MAX
    } else {
        x as i32
    }
}

fn saturating(x: i64) -> (y: i32)
    ensures
        y == saturate(x as int),
{
    if x < i32::MIN as i64 {
        i32::MIN
    } else if x > i32::MAX as i64 {
        i32::MAX
    } else {
        x as i32
    }
}

fn saturating_mul(x: i32, y: i32) -> (z: i32)
    ensures
        z == saturate(x * y),
{
    assert(-0x8000_0000 * 0x8000_0000 <= x * y <= 0x8000_0000 * 0x8000_0000) by (nonlinear_arith)
        requires
            -0x8000_0000 <= x <= 0x7fff_ffff,
            -0x8000_0000 <= y <= 0x7fff_ffff,
    ;
    saturating(x as i64 * y as i64)
}

fn saturating_add(x: i32, y: i32) -> (z: i32)
    ensures
        z == saturate(x + y),
{
    saturating(x as i64 + y as i64)
}

impl Misbehavior {
    /// What the misbehavior costs: a price per signature checked and per block
    /// loaded, less a reward per equivocation caught.
    pub open spec fn cost_spec(self) -> i32 {
        match self {
            Misbehavior::BadCatchUpMessage { signatures_checked } => saturate(
                PER_SIGNATURE_CHECKED * signatures_checked,
            ),
            Misbehavior::BadCommitMessage {
                signatures_checked,
                blocks_loaded,
                equivocations_caught,
            } => {
                let signatures = saturate(PER_SIGNATURE_CHECKED * signatures_checked);
                let blocks = saturate(PER_BLOCK_LOADED * blocks_loaded);
                let equivocations = saturate(benefit::PER_EQUIVOCATION * equivocations_caught);
                saturate(equivocations + saturate(signatures + blocks))
            },
        }
    }

    /// What the misbehavior costs.
    pub fn cost(&self) -> (cost: i32)
        ensures
            cost == self.cost_spec(),
    {
        match *self {
            Misbehavior::BadCatchUpMessage { signatures_checked } => {
                saturating_mul(PER_SIGNATURE_CHECKED, signatures_checked)
            },
            Misbehavior::BadCommitMessage {
                signatures_checked,
                blocks_loaded,
                equivocations_caught,
            } => {
                let signatures: i32 = saturating_mul(PER_SIGNATURE_CHECKED, signatures_checked);
                let blocks: i32 = saturating_mul(PER_BLOCK_LOADED, blocks_loaded);
                let equivocations: i32 = saturating_mul(
                    benefit::PER_EQUIVOCATION,
                    equivocations_caught,
                );
                saturating_add(equivocations, saturating_add(signatures, blocks))
            },
        }
    }
}

} // verus!
