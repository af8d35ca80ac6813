//! The order of work while proving control of the domains of an ACME order
//! with DNS-01 challenges, and the retry policy for failed validations.
//!
//! The caller owns the order and the browser. It asks [`ChallengeDriver`]
//! what to do, does it, and reports the outcome back, until the driver
//! answers [`ChallengeAction::Finalize`] or [`ChallengeAction::GiveUp`].
use vstd::prelude::*;

verus! {

/// How many times the DNS proof of one authorization is published and
/// validated before the order is given up.
pub const MAX_ATTEMPTS: u32 = 5;

/// Where a round of challenges stands.
#[derive(Debug, Clone, Copy, PartialEq, Eq, Structural)]
pub enum Phase {
    /// Waiting to learn whether the order has all validations confirmed.
    Confirming,
    /// Waiting for the order's authorizations.
    Fetching,
    /// Waiting for the outcome of one publish-and-validate attempt.
    Attempting,
    /// Waiting for the order to be refreshed from the server.
    Refreshing,
    /// Every validation is confirmed.
    Finished,
    /// An authorization failed every attempt.
    Failed,
}

/// What the caller does next.
#[derive(Debug, Clone, Copy, PartialEq, Eq, Structural)]
pub enum ChallengeAction {
    /// Ask the order whether all validations are confirmed, and report the
    /// answer with [`ChallengeDriver::confirmation`].
    ConfirmValidations,
    /// Fetch the order's authorizations, and report for each whether it
    /// needs a challenge with [`ChallengeDriver::authorizations`].
    FetchAuthorizations,
    /// Publish the DNS proof of the authorization at this index, wait,
    /// validate it, remove the record again, and report the outcome with
    /// [`ChallengeDriver::attempt_finished`].
    Attempt(usize),
    /// Refresh the order, then report with [`ChallengeDriver::refreshed`].
    Refresh,
    /// All validations are confirmed: finalize the order.
    Finalize,
    /// Give up with the error of the last validation.
    GiveUp,
}

/// The abstract state of a round: its phase, for each authorization of the
/// order whether it needs a challenge, the authorization being proved, and
/// how many attempts it has left.
pub struct RoundState {
    pub phase: Phase,
    pub needs: Seq<bool>,
    pub current: int,
    pub retries: int,
}

/// The first authorization at or after `from` that needs a challenge, or
/// the number of authorizations where none does.
pub open spec fn first_needed(needs: Seq<bool>, from: int) -> int
    decreases needs.len() - from,
{
    if from >= needs.len() {
        needs.len() as int
    } else if needs[from] {
        from
    } else {
        first_needed(needs, from + 1)
    }
}

/// Moves on to the first authorization at or after `from` that needs a
/// challenge, with every attempt left, or to refreshing the order where
/// none is left.
pub open spec fn enter(needs: Seq<bool>, from: int) -> RoundState {
    let k = first_needed(needs, from);
    if k < needs.len() {
        RoundState { phase: Phase::Attempting, needs, current: k, retries: MAX_ATTEMPTS as int }
    } else {
        RoundState { phase: Phase::Refreshing, needs, current: k, retries: 0 }
    }
}

/// The action that the state asks for.
pub open spec fn action_of(s: RoundState) -> ChallengeAction {
    match s.phase {
        Phase::Confirming => ChallengeAction::ConfirmValidations,
        Phase::Fetching => ChallengeAction::FetchAuthorizations,
        Phase::Attempting => ChallengeAction::Attempt(s.current as usize),
        Phase::Refreshing => ChallengeAction::Refresh,
        Phase::Finished => ChallengeAction::Finalize,
        Phase::Failed => ChallengeAction::GiveUp,
    }
}

/// The state after the order answered whether all validations are
/// confirmed; a state waiting for something else is left as it is.
pub open spec fn after_confirmation(s: RoundState, confirmed: bool) -> RoundState {
    if s.phase != Phase::Confirming {
        s
    } else if confirmed {
        RoundState { phase: Phase::Finished, ..s }
    } else {
        RoundState { phase: Phase::Fetching, ..s }
    }
}

/// The state after the authorizations arrived.
pub open spec fn after_authorizations(s: RoundState, needs: Seq<bool>) -> RoundState {
    if s.phase != Phase::Fetching {
        s
    } else {
        enter(needs, 0)
    }
}

/// The state after one attempt on the current authorization.
pub open spec fn after_attempt(s: RoundState, validated: bool) -> RoundState {
    if s.phase != Phase::Attempting {
        s
    } else if validated {
        enter(s.needs, s.current + 1)
    } else if s.retries <= 1 {
        RoundState { phase: Phase::Failed, retries: 0, ..s }
    } else {
        RoundState { retries: s.retries - 1, ..s }
    }
}

/// The state after the order was refreshed.
pub open spec fn after_refresh(s: RoundState) -> RoundState {
    if s.phase != Phase::Refreshing {
        s
    } else {
        RoundState { phase: Phase::Confirming, ..s }
    }
}

/// The invariant of a round.
pub open spec fn round_wf(s: RoundState) -> bool {
    &&& 0 <= s.retries <= MAX_ATTEMPTS
    &&& 0 <= s.current <= s.needs.len()
    &&& s.phase == Phase::Attempting ==> {
        &&& s.current < s.needs.len()
        &&& s.needs[s.current]
        &&& 1 <= s.retries
    }
}

/// The state after `n` failed attempts in a row.
pub open spec fn after_failures(s: RoundState, n: nat) -> RoundState
    decreases n,
{
    if n == 0 {
        s
    } else {
        after_attempt(after_failures(s, (n - 1) as nat), false)
    }
}

proof fn lemma_failures_count_down(s: RoundState, n: nat)
    requires
        round_wf(s),
        s.phase == Phase::Attempting,
        n <= s.retries,
    ensures
        n < s.retries ==> {
            &&& after_failures(s, n).phase == Phase::Attempting
            &&& after_failures(s, n).current == s.current
            &&& after_failures(s, n).needs == s.needs
            &&& after_failures(s, n).retries == s.retries - n
        },
        n == s.retries ==> after_failures(s, n).phase == Phase::Failed,
    decreases n,
{
    if n > 0 {
        lemma_failures_count_down(s, (n - 1) as nat);
    }
}

/// An authorization is tried at most `MAX_ATTEMPTS` times: from its first
/// attempt, each failed validation before the last allowed one retries the
/// same authorization, and the `MAX_ATTEMPTS`-th failure in a row gives the
/// order up.
pub proof fn lemma_gives_up_after_max_attempts(s: RoundState, n: nat)
    requires
        round_wf(s),
        s.phase == Phase::Attempting,
        s.retries == MAX_ATTEMPTS,
        n <= MAX_ATTEMPTS,
    ensures
        n < MAX_ATTEMPTS ==> action_of(after_failures(s, n)) == ChallengeAction::Attempt(
            s.current as usize,
        ),
        n < MAX_ATTEMPTS ==> after_failures(s, n).retries == MAX_ATTEMPTS - n,
        n == MAX_ATTEMPTS ==> action_of(after_failures(s, n)) == ChallengeAction::GiveUp,
        MAX_ATTEMPTS == 5,
{
    lemma_failures_count_down(s, n);
}

/// A successful validation never gives the order up: it moves on to the
/// next authorization that needs a challenge, with every attempt left,
/// passing over only authorizations that need none; where none is left the
/// order is refreshed.
pub proof fn lemma_success_moves_on(s: RoundState)
    requires
        round_wf(s),
        s.phase == Phase::Attempting,
    ensures
        after_attempt(s, true).phase == Phase::Attempting || after_attempt(s, true).phase
            == Phase::Refreshing,
        after_attempt(s, true).needs == s.needs,
        after_attempt(s, true).phase == Phase::Attempting ==> {
            &&& after_attempt(s, true).current > s.current
            &&& after_attempt(s, true).retries == MAX_ATTEMPTS
            &&& s.needs[after_attempt(s, true).current]
        },
        forall|j: int|
            s.current < j < after_attempt(s, true).current ==> !#[trigger] s.needs[j],
        after_attempt(s, true).phase == Phase::Refreshing ==> forall|j: int|
            s.current < j < s.needs.len() ==> !#[trigger] s.needs[j],
{
    lemma_first_needed_bounds(s.needs, s.current + 1);
}

/// Every event keeps the invariant of a round; so an attempt is only ever
/// asked for an authorization that needs a challenge, with between one and
/// `MAX_ATTEMPTS` attempts left.
pub proof fn lemma_round_wf_preserved(s: RoundState, confirmed: bool, needs: Seq<bool>, validated: bool)
    requires
        round_wf(s),
    ensures
        round_wf(after_confirmation(s, confirmed)),
        round_wf(after_authorizations(s, needs)),
        round_wf(after_attempt(s, validated)),
        round_wf(after_refresh(s)),
{
    lemma_enter_wf(needs, 0);
    if s.phase == Phase::Attempting {
        lemma_enter_wf(s.needs, s.current + 1);
    }
}

/// The order is finalized only once it has confirmed all validations, and
/// a finished or abandoned round stays so whatever is reported.
pub proof fn lemma_finish_only_on_confirmation(s: RoundState, confirmed: bool, needs: Seq<bool>, validated: bool)
    ensures
        after_confirmation(s, confirmed).phase == Phase::Finished <==> (s.phase == Phase::Finished
            || (s.phase == Phase::Confirming && confirmed)),
        after_authorizations(s, needs).phase == Phase::Finished <==> s.phase == Phase::Finished,
        after_attempt(s, validated).phase == Phase::Finished <==> s.phase == Phase::Finished,
        after_refresh(s).phase == Phase::Finished <==> s.phase == Phase::Finished,
        s.phase == Phase::Finished || s.phase == Phase::Failed ==> {
            &&& after_confirmation(s, confirmed) == s
            &&& after_authorizations(s, needs) == s
            &&& after_attempt(s, validated) == s
            &&& after_refresh(s) == s
        },
{
}

/// Drives one order through its DNS challenges.
pub struct ChallengeDriver {
    phase: Phase,
    needs: Vec<bool>,
    current: usize,
    retries: u32,
}

impl View for ChallengeDriver {
    type V = RoundState;

    closed spec fn view(&self) -> RoundState {
        RoundState {
            phase: self.phase,
            needs: self.needs@,
            current: self.current as int,
            retries: self.retries as int,
        }
    }
}

proof fn lemma_first_needed_bounds(needs: Seq<bool>, from: int)
    requires
        0 <= from,
    ensures
        from <= first_needed(needs, from) || from > needs.len(),
        first_needed(needs, from) <= needs.len() || from > needs.len(),
        first_needed(needs, from) < needs.len() ==> needs[first_needed(needs, from)],
        forall|j: int| from <= j < first_needed(needs, from) ==> !#[trigger] needs[j],
    decreases needs.len() - from,
{
    if from < needs.len() && !needs[from] {
        lemma_first_needed_bounds(needs, from + 1);
    }
}

proof fn lemma_enter_wf(needs: Seq<bool>, from: int)
    requires
        0 <= from <= needs.len(),
    ensures
        round_wf(enter(needs, from)),
{
    lemma_first_needed_bounds(needs, from);
}

impl ChallengeDriver {
    #[verifier::type_invariant]
    spec fn inv(self) -> bool {
        round_wf(self@)
    }

    /// Starts a round by asking whether the order is already validated.
    pub fn new() -> (r: (Self, ChallengeAction))
        ensures
            r.0@.phase == Phase::Confirming,
            r.0@.needs == Seq::<bool>::empty(),
            r.0@.current == 0,
            r.0@.retries == 0,
            r.1 == ChallengeAction::ConfirmValidations,
    {
        (ChallengeDriver { phase: Phase::Confirming, needs: Vec::new(), current: 0, retries: 0 },
        ChallengeAction::ConfirmValidations)
    }

    /// The action that the driver waits on.
    pub fn action(&self) -> (a: ChallengeAction)
        ensures
            a == action_of(self@),
    {
        match self.phase {
            Phase::Confirming => ChallengeAction::ConfirmValidations,
            Phase::Fetching => ChallengeAction::FetchAuthorizations,
            Phase::Attempting => ChallengeAction::Attempt(self.current),
            Phase::Refreshing => ChallengeAction::Refresh,
            Phase::Finished => ChallengeAction::Finalize,
            Phase::Failed => ChallengeAction::GiveUp,
        }
    }

    /// How many attempts the current authorization has left.
    pub fn retries_left(&self) -> (r: u32)
        ensures
            r == self@.retries,
    {
        self.retries
    }

    fn blank() -> (r: Self)
        ensures
            r@.phase == Phase::Confirming,
    {
        ChallengeDriver { phase: Phase::Confirming, needs: Vec::new(), current: 0, retries: 0 }
    }

    /// A driver working on the first authorization at or after `from` that
    /// needs a challenge.
    fn entered(needs: Vec<bool>, from: usize) -> (r: Self)
        requires
            from <= needs@.len(),
        ensures
            r@ == enter(needs@, from as int),
    {
        let n = needs.len();
        let mut k = from;
        while k < n && !needs[k]
            invariant
                n == needs@.len(),
                from <= k <= n,
                first_needed(needs@, k as int) == first_needed(needs@, from as int),
            decreases n - k,
        {
            k = k + 1;
        }
        proof {
            lemma_enter_wf(needs@, from as int);
        }
        if k < n {
            ChallengeDriver { phase: Phase::Attempting, needs, current: k, retries: MAX_ATTEMPTS }
        } else {
            ChallengeDriver { phase: Phase::Refreshing, needs, current: k, retries: 0 }
        }
    }

    /// Replaces the driver by one working from authorization `from` on.
    fn move_on(&mut self, from: usize)
        requires
            from <= old(self)@.needs.len(),
        ensures
            final(self)@ == enter(old(self)@.needs, from as int),
    {
        let mut taken = ChallengeDriver::blank();
        std::mem::swap(self, &mut taken);
        *self = ChallengeDriver::entered(taken.needs, from);
    }

    /// Reports whether the order has all validations confirmed.
    pub fn confirmation(&mut self, confirmed: bool) -> (a: ChallengeAction)
        ensures
            final(self)@ == after_confirmation(old(self)@, confirmed),
            a == action_of(final(self)@),
    {
        proof {
            use_type_invariant(&*self);
        }
        if self.phase == Phase::Confirming {
            if confirmed {
                self.phase = Phase::Finished;
            } else {
                self.phase = Phase::Fetching;
            }
        }
        self.action()
    }

    /// Reports the authorizations of the order: for each, whether it needs
    /// a challenge.
    pub fn authorizations(&mut self, needs: Vec<bool>) -> (a: ChallengeAction)
        ensures
            final(self)@ == after_authorizations(old(self)@, needs@),
            a == action_of(final(self)@),
    {
        proof {
            use_type_invariant(&*self);
        }
        if self.phase == Phase::Fetching {
            *self = ChallengeDriver::entered(needs, 0);
        }
        self.action()
    }

    /// Reports whether the validation of the current authorization succeeded.
    pub fn attempt_finished(&mut self, validated: bool) -> (a: ChallengeAction)
        ensures
            final(self)@ == after_attempt(old(self)@, validated),
            a == action_of(final(self)@),
    {
        proof {
            use_type_invariant(&*self);
        }
        if self.phase == Phase::Attempting {
            if validated {
                let n = self.needs.len();
                assert(self.current < n);
                let next = self.current + 1;
                self.move_on(next);
            } else if self.retries <= 1 {
                self.phase = Phase::Failed;
                self.retries = 0;
            } else {
                self.retries = self.retries - 1;
            }
        }
        self.action()
    }

    /// Reports that the order was refreshed.
    pub fn refreshed(&mut self) -> (a: ChallengeAction)
        ensures
            final(self)@ == after_refresh(old(self)@),
            a == action_of(final(self)@),
    {
        proof {
            use_type_invariant(&*self);
        }
        if self.phase == Phase::Refreshing {
            self.phase = Phase::Confirming;
        }
        self.action()
    }
}

} // verus!
