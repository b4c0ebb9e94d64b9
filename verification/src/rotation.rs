use vstd::prelude::*;

use vstd::arithmetic::div_mod::{
    lemma_fundamental_div_mod, lemma_fundamental_div_mod_converse_mod,
};

verus! {

pub const FULL_TURN_DEG: u32 = 360;

/// Per-frame advance of the alpha angle, in degrees.
pub const ALPHA_STEP_DEG: u32 = 2;

/// Per-frame advance of the gamma angle, in degrees.
pub const GAMMA_STEP_DEG: u32 = 16;

/// One checked wraparound of an angle that a single step may have carried to
/// or past a full turn: subtracts one turn, never more.
pub open spec fn wrap_deg(a: int) -> int {
    if a >= FULL_TURN_DEG {
        a - FULL_TURN_DEG
    } else {
        a
    }
}

/// The two rotation angles the animation owns, kept in whole degrees so that
/// wrapping is exact; the per-frame steps divide a full turn evenly.
#[derive(Clone, Copy, Debug, PartialEq, Eq, Structural)]
pub struct RotationState {
    pub alpha_deg: u32,
    pub gamma_deg: u32,
}

impl RotationState {
    /// Both angles lie in `[0, 360)`.
    pub open spec fn wf(self) -> bool {
        self.alpha_deg < FULL_TURN_DEG && self.gamma_deg < FULL_TURN_DEG
    }

    /// The state one frame later.
    pub open spec fn advanced(self) -> RotationState {
        RotationState {
            alpha_deg: wrap_deg(self.alpha_deg + ALPHA_STEP_DEG) as u32,
            gamma_deg: wrap_deg(self.gamma_deg + GAMMA_STEP_DEG) as u32,
        }
    }

    /// The state `n` frames later.
    pub open spec fn advanced_n(self, n: nat) -> RotationState
        decreases n,
    {
        if n == 0 {
            self
        } else {
            self.advanced_n((n - 1) as nat).advanced()
        }
    }

    /// The initial state: both angles at zero.
    pub fn new() -> (r: RotationState)
        ensures
            r.alpha_deg == 0,
            r.gamma_deg == 0,
            r.wf(),
    {
        RotationState { alpha_deg: 0, gamma_deg: 0 }
    }

    /// Advance both angles by one frame's fixed step, wrapping each back
    /// into `[0, 360)` by a single checked subtraction.
    pub fn advance(&mut self)
        requires
            old(self).wf(),
        ensures
            final(self).wf(),
            *final(self) == old(self).advanced(),
    {
        self.alpha_deg = self.alpha_deg + ALPHA_STEP_DEG;
        if self.alpha_deg >= FULL_TURN_DEG {
            self.alpha_deg = self.alpha_deg - FULL_TURN_DEG;
        }
        self.gamma_deg = self.gamma_deg + GAMMA_STEP_DEG;
        if self.gamma_deg >= FULL_TURN_DEG {
            self.gamma_deg = self.gamma_deg - FULL_TURN_DEG;
        }
    }
}

proof fn lemma_wrap_is_mod(start: int, step: int, n: nat)
    requires
        0 <= start < 360,
        0 < step <= 360,
    ensures
        0 <= wrap_deg((start + (n - 1) * step) % 360 + step) < 360,
        wrap_deg((start + (n - 1) * step) % 360 + step) == (start + n * step) % 360,
{
    let prev = start + (n - 1) * step;
    let a = prev % 360;
    lemma_fundamental_div_mod(prev, 360);
    let q = prev / 360;
    assert(prev == 360 * q + a);
    assert((start + (n - 1) * step) + step == start + n * step) by (nonlinear_arith);
    if a + step < 360 {
        lemma_fundamental_div_mod_converse_mod(prev + step, 360, q, a + step);
    } else {
        lemma_fundamental_div_mod_converse_mod(prev + step, 360, q + 1, a + step - 360);
    }
}

/// Wraparound law: from a well-formed state, any number of frames leaves
/// both stored angles in `[0, 360)`, and after `n` frames each angle is its
/// start plus `n` steps, reduced modulo a full turn.
pub proof fn lemma_angles_stay_wrapped(s: RotationState, n: nat)
    requires
        s.wf(),
    ensures
        s.advanced_n(n).wf(),
        s.advanced_n(n).alpha_deg == (s.alpha_deg + n * ALPHA_STEP_DEG) % 360,
        s.advanced_n(n).gamma_deg == (s.gamma_deg + n * GAMMA_STEP_DEG) % 360,
    decreases n,
{
    if n == 0 {
        lemma_fundamental_div_mod_converse_mod(s.alpha_deg as int, 360, 0, s.alpha_deg as int);
        lemma_fundamental_div_mod_converse_mod(s.gamma_deg as int, 360, 0, s.gamma_deg as int);
        assert(n * ALPHA_STEP_DEG == 0);
        assert(n * GAMMA_STEP_DEG == 0);
    } else {
        lemma_angles_stay_wrapped(s, (n - 1) as nat);
        lemma_wrap_is_mod(s.alpha_deg as int, ALPHA_STEP_DEG as int, n);
        lemma_wrap_is_mod(s.gamma_deg as int, GAMMA_STEP_DEG as int, n);
    }
}

/// Returning-angle law: 180 frames of the fixed per-frame steps carry alpha
/// through exactly one full turn and gamma through exactly eight, so both
/// angles come back exactly to zero.
pub proof fn lemma_angles_return_after_half_circle(s: RotationState)
    requires
        s.alpha_deg == 0,
        s.gamma_deg == 0,
    ensures
        s.advanced_n(180) == s,
{
    lemma_angles_stay_wrapped(s, 180);
    lemma_fundamental_div_mod_converse_mod(360, 360, 1, 0);
    lemma_fundamental_div_mod_converse_mod(2880, 360, 8, 0);
}

} // verus!
