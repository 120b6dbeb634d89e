use vstd::prelude::*;
use vstd::arithmetic::power2::{pow2, lemma_pow2_unfold, lemma_pow2_strictly_increases, lemma2_to64};

verus! {

/// `2^k`: a damping factor with `k` halvings is `λ = 1 / 2^k`, which every
/// binary floating-point format holds exactly.
pub open spec fn two_to(k: nat) -> nat
    decreases k,
{
    if k == 0 {
        1
    } else {
        2 * two_to((k - 1) as nat)
    }
}

/// Numerator of the default damping floor `λ_min = 1/1000`.
pub const DEFAULT_FLOOR_NUM: u64 = 1;

/// Denominator of the default damping floor `λ_min = 1/1000`.
pub const DEFAULT_FLOOR_DEN: u64 = 1000;

/// `λ = 1/2^k` is not below the floor `num/den`.
pub open spec fn admissible(num: nat, den: nat, k: nat) -> bool {
    num * two_to(k) <= den
}

/// What the damped Newton loop is to do next.
#[derive(Debug, Clone, Copy, PartialEq, Eq, Structural)]
pub enum DampedAction {
    /// Evaluate the Jacobian at the current iterate, factor it, and compute
    /// the undamped correction `δ = J(x)⁻¹ F(x)` and its norm.
    Linearize,
    /// Form `x − λ·δ` with `λ = 1/2^halvings`, and test whether the
    /// correction there, computed with the same factorization, decreases:
    /// `‖δ_cand‖ < (1 − λ/2)·‖δ‖`.
    Trial { halvings: u32 },
    /// Stop with the current iterate as the solution.
    Converged,
    /// Stop without a solution: no damping factor above the floor decreases
    /// the correction.
    Failed,
}

/// What the loop reports back after carrying out an action.
#[derive(Debug, Clone, Copy, PartialEq, Eq, Structural)]
pub enum DampedEvent {
    /// The correction at the current iterate is known.
    Linearized,
    /// The trial point failed the decrease test.
    Rejected,
    /// The trial point passed the decrease test and became the iterate;
    /// `converged` tells whether its correction met the tolerances.
    Accepted { converged: bool },
}

/// The decisions of a damped Newton solve. The factor `λ` is kept as its
/// number of halvings `lambda_exp` (`λ = 1/2^lambda_exp`); the smallest
/// admitted factor is `1/2^floor_exp`, the last power of two not below the
/// damping floor `floor_num / floor_den`.
#[derive(Debug, Clone, Copy, PartialEq, Eq, Structural)]
pub struct DampedNewton {
    pub lambda_exp: u32,
    pub floor_exp: u32,
    pub floor_num: u64,
    pub floor_den: u64,
    pub pending: DampedAction,
}

/// `k` is the largest number of halvings that keeps `λ` at or above `num/den`.
pub open spec fn is_floor_exp(num: nat, den: nat, k: nat) -> bool {
    admissible(num, den, k) && !admissible(num, den, k + 1)
}

/// The state after `ev`. An event that does not answer the pending action
/// changes nothing.
pub open spec fn next_state(s: DampedNewton, ev: DampedEvent) -> DampedNewton {
    match (s.pending, ev) {
        (DampedAction::Linearize, DampedEvent::Linearized) => DampedNewton {
            pending: DampedAction::Trial { halvings: s.lambda_exp },
            ..s
        },
        (DampedAction::Trial { halvings }, DampedEvent::Rejected) => if halvings < s.floor_exp {
            DampedNewton {
                lambda_exp: (halvings + 1) as u32,
                pending: DampedAction::Trial { halvings: (halvings + 1) as u32 },
                ..s
            }
        } else {
            DampedNewton { pending: DampedAction::Failed, ..s }
        },
        (DampedAction::Trial { halvings }, DampedEvent::Accepted { converged }) => DampedNewton {
            lambda_exp: if halvings == 0 { 0 } else { (halvings - 1) as u32 },
            pending: if converged { DampedAction::Converged } else { DampedAction::Linearize },
            ..s
        },
        _ => s,
    }
}

/// The state after each of `evs` in turn.
pub open spec fn run(s: DampedNewton, evs: Seq<DampedEvent>) -> DampedNewton
    decreases evs.len(),
{
    if evs.len() == 0 {
        s
    } else {
        run(next_state(s, evs[0]), evs.drop_first())
    }
}

impl DampedNewton {
    /// The factor is never below the floor, and a pending trial uses it.
    pub open spec fn wf(&self) -> bool {
        &&& 0 < self.floor_num <= self.floor_den
        &&& is_floor_exp(self.floor_num as nat, self.floor_den as nat, self.floor_exp as nat)
        &&& self.lambda_exp <= self.floor_exp
        &&& (self.pending matches DampedAction::Trial { halvings } ==> halvings
            == self.lambda_exp)
    }

    /// A solve with damping floor `floor_num / floor_den`, at `λ = 1`, about to
    /// linearize at the initial guess. `None` unless the floor lies in `(0, 1]`.
    pub fn new(floor_num: u64, floor_den: u64) -> (r: Option<DampedNewton>)
        ensures
            r is Some <==> 0 < floor_num <= floor_den,
            r matches Some(s) ==> s.wf() && s.lambda_exp == 0 && s.pending
                == DampedAction::Linearize && s.floor_num == floor_num && s.floor_den
                == floor_den,
    {
        if floor_num == 0 || floor_num > floor_den {
            return None;
        }
        let mut k: u32 = 0;
        let mut scaled: u64 = floor_num;
        proof {
            assert(two_to(0) == 1);
            assert(floor_num * two_to(0) == floor_num);
        }
        while scaled <= floor_den / 2
            invariant
                0 < floor_num <= floor_den,
                scaled == floor_num * two_to(k as nat),
                scaled >= 1,
                admissible(floor_num as nat, floor_den as nat, k as nat),
                k < 64,
                two_to(k as nat) <= floor_den,
            decreases floor_den - scaled,
        {
            proof {
                lemma_two_to_grows(k as nat);
            }
            assert(floor_num * two_to((k + 1) as nat) == 2 * scaled) by (nonlinear_arith)
                requires
                    two_to((k + 1) as nat) == 2 * two_to(k as nat),
                    scaled == floor_num * two_to(k as nat),
            ;
            assert(two_to((k + 1) as nat) <= floor_den) by (nonlinear_arith)
                requires
                    two_to((k + 1) as nat) == 2 * two_to(k as nat),
                    floor_num * two_to((k + 1) as nat) <= floor_den,
                    floor_num >= 1,
            ;
            scaled = scaled * 2;
            k = k + 1;
            proof {
                lemma_two_to_large(k as nat);
            }
        }
        proof {
            lemma_two_to_grows(k as nat);
        }
        assert(floor_num * two_to((k + 1) as nat) == 2 * scaled) by (nonlinear_arith)
            requires
                two_to((k + 1) as nat) == 2 * two_to(k as nat),
                scaled == floor_num * two_to(k as nat),
        ;
        Some(DampedNewton {
            lambda_exp: 0,
            floor_exp: k,
            floor_num,
            floor_den,
            pending: DampedAction::Linearize,
        })
    }

    /// The action the loop is to carry out now.
    pub fn action(&self) -> (r: DampedAction)
        ensures
            r == self.pending,
    {
        self.pending
    }

    /// Takes the report of the pending action and returns the next one.
    /// Each trial starts from the factor accepted last, doubled and capped
    /// at one, and halves it on each rejection; once a rejection leaves no
    /// factor at or above the floor, the solve fails.
    pub fn handle(&mut self, ev: DampedEvent) -> (r: DampedAction)
        requires
            old(self).wf(),
        ensures
            *final(self) == next_state(*old(self), ev),
            final(self).wf(),
            r == final(self).pending,
    {
        match (self.pending, ev) {
            (DampedAction::Linearize, DampedEvent::Linearized) => {
                self.pending = DampedAction::Trial { halvings: self.lambda_exp };
            },
            (DampedAction::Trial { halvings }, DampedEvent::Rejected) => {
                if halvings < self.floor_exp {
                    self.lambda_exp = halvings + 1;
                    self.pending = DampedAction::Trial { halvings: halvings + 1 };
                } else {
                    self.pending = DampedAction::Failed;
                }
            },
            (DampedAction::Trial { halvings }, DampedEvent::Accepted { converged }) => {
                self.lambda_exp = if halvings == 0 {
                    0
                } else {
                    halvings - 1
                };
                self.pending = if converged {
                    DampedAction::Converged
                } else {
                    DampedAction::Linearize
                };
            },
            _ => {},
        }
        self.pending
    }
}

/// More halvings give a larger power of two.
pub proof fn lemma_two_to_grows(k: nat)
    ensures
        two_to(k + 1) == 2 * two_to(k),
        two_to(k) >= 1,
    decreases k,
{
    if k > 0 {
        lemma_two_to_grows((k - 1) as nat);
    }
}

/// `2^k` exceeds every `u64` once `k` reaches 64.
pub proof fn lemma_two_to_large(k: nat)
    ensures
        two_to(k) == pow2(k),
        k >= 64 ==> two_to(k) > u64::MAX,
    decreases k,
{
    if k > 0 {
        lemma_two_to_large((k - 1) as nat);
        lemma_pow2_unfold(k);
    } else {
        lemma2_to64();
    }
    if k >= 64 {
        lemma2_to64();
        if k > 64 {
            lemma_pow2_strictly_increases(64, k);
        }
    }
}

/// Fewer halvings than an admissible count are admissible too.
pub proof fn lemma_admissible_below(num: nat, den: nat, j: nat, k: nat)
    requires
        j <= k,
        admissible(num, den, k),
    ensures
        admissible(num, den, j),
    decreases k - j,
{
    if j < k {
        lemma_two_to_grows((k - 1) as nat);
        assert(num * two_to((k - 1) as nat) <= num * two_to(k)) by (nonlinear_arith)
            requires
                two_to(k) == 2 * two_to((k - 1) as nat),
        ;
        lemma_admissible_below(num, den, j, (k - 1) as nat);
    }
}

/// Whatever the loop reports, in any order, every trial the controller asks
/// for uses a factor `λ ≥ λ_min`, a failure comes only when halving once
/// more would go below `λ_min`, and a solve that ends converged accepted its
/// last step with an admitted factor.
pub proof fn lemma_damping_respects_floor(s: DampedNewton, evs: Seq<DampedEvent>)
    requires
        s.wf(),
    ensures
        run(s, evs).wf(),
        run(s, evs).pending matches DampedAction::Trial { halvings } ==> admissible(
            s.floor_num as nat,
            s.floor_den as nat,
            halvings as nat,
        ),
        run(s, evs).floor_num == s.floor_num && run(s, evs).floor_den == s.floor_den,
    decreases evs.len(),
{
    if evs.len() > 0 {
        lemma_step_respects_floor(s, evs[0]);
        lemma_damping_respects_floor(next_state(s, evs[0]), evs.drop_first());
    } else {
        lemma_admissible_below(
            s.floor_num as nat,
            s.floor_den as nat,
            s.lambda_exp as nat,
            s.floor_exp as nat,
        );
    }
}

/// One event keeps the controller well formed; a trial it asks for is
/// admitted; it fails only when the next halving would not be admitted; and
/// it converges only when an admitted trial was accepted and reported to meet
/// the tolerances.
pub proof fn lemma_step_respects_floor(s: DampedNewton, ev: DampedEvent)
    requires
        s.wf(),
    ensures
        next_state(s, ev).wf(),
        next_state(s, ev).floor_num == s.floor_num,
        next_state(s, ev).floor_den == s.floor_den,
        next_state(s, ev).pending matches DampedAction::Trial { halvings } ==> admissible(
            s.floor_num as nat,
            s.floor_den as nat,
            halvings as nat,
        ),
        (next_state(s, ev).pending == DampedAction::Failed && s.pending != DampedAction::Failed)
            ==> (s.pending matches DampedAction::Trial { halvings } && !admissible(
            s.floor_num as nat,
            s.floor_den as nat,
            halvings as nat + 1,
        )),
        (next_state(s, ev).pending == DampedAction::Converged && s.pending
            != DampedAction::Converged) ==> (s.pending matches DampedAction::Trial { halvings }
            && admissible(s.floor_num as nat, s.floor_den as nat, halvings as nat) && ev
            == DampedEvent::Accepted { converged: true }),
{
    let t = next_state(s, ev);
    lemma_admissible_below(
        s.floor_num as nat,
        s.floor_den as nat,
        t.lambda_exp as nat,
        s.floor_exp as nat,
    );
    if let DampedAction::Trial { halvings } = s.pending {
        lemma_admissible_below(
            s.floor_num as nat,
            s.floor_den as nat,
            halvings as nat,
            s.floor_exp as nat,
        );
        if halvings >= s.floor_exp {
            assert(halvings == s.floor_exp);
        }
    }
}

} // verus!
