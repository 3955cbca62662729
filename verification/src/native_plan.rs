//! Plans of native calls: what is called in which order, and what is cleaned up
//! where a call fails.
//!
//! An operation that alternates native calls with decisions is written as a
//! plan. A `PlanRunner` hands the calls out one at a time, takes the outcome of
//! each, and says what comes next.

use vstd::prelude::*;

verus! {

/// Why a plan ended early.
#[derive(Debug)]
pub enum Fault {
    /// A native call failed.
    Runtime(String),
    /// A pointer was null.
    NullPointer(String),
    /// The index is not trained.
    NotTrained,
    /// Faiss refused.
    Faiss(String),
    /// The index could not be written.
    Write(String),
    /// An argument cannot be used.
    InvalidArgument(String),
    /// Vectors could not be added.
    Add,
    /// The JVM refused a call. Whoever made it has the JVM's own error.
    Java,
}

/// A fault in terms of text.
pub enum FaultView {
    Runtime(Seq<char>),
    NullPointer(Seq<char>),
    NotTrained,
    Faiss(Seq<char>),
    Write(Seq<char>),
    InvalidArgument(Seq<char>),
    Add,
    Java,
}

impl View for Fault {
    type V = FaultView;

    open spec fn view(&self) -> FaultView {
        match self {
            Fault::Runtime(text) => FaultView::Runtime(text@),
            Fault::NullPointer(text) => FaultView::NullPointer(text@),
            Fault::NotTrained => FaultView::NotTrained,
            Fault::Faiss(text) => FaultView::Faiss(text@),
            Fault::Write(text) => FaultView::Write(text@),
            Fault::InvalidArgument(text) => FaultView::InvalidArgument(text@),
            Fault::Add => FaultView::Add,
            Fault::Java => FaultView::Java,
        }
    }
}

/// What happens where a call fails: these calls, then this fault.
pub struct Failure<C> {
    pub cleanup: Vec<C>,
    pub fault: Fault,
}

/// One call of a plan. A call without a failure cannot fail.
pub struct Step<C> {
    pub call: C,
    pub failure: Option<Failure<C>>,
}

/// A step in terms of sequences.
pub struct StepView<C> {
    pub call: C,
    pub failure: Option<(Seq<C>, FaultView)>,
}

impl<C> View for Step<C> {
    type V = StepView<C>;

    open spec fn view(&self) -> StepView<C> {
        StepView {
            call: self.call,
            failure: match self.failure {
                Some(failure) => Some((failure.cleanup@, failure.fault@)),
                None => None,
            },
        }
    }
}

/// A call that cannot fail.
pub open spec fn sure<C>(call: C) -> StepView<C> {
    StepView { call, failure: None }
}

/// A call that can fail.
pub open spec fn unsure<C>(call: C, cleanup: Seq<C>, fault: FaultView) -> StepView<C> {
    StepView { call, failure: Some((cleanup, fault)) }
}

/// A sequence of native calls.
pub trait NativePlan {
    type Call: Copy;

    /// The steps of the plan.
    spec fn steps(&self) -> Seq<StepView<Self::Call>>;

    /// The plan can be carried out.
    spec fn wf(&self) -> bool;

    /// How many steps the plan has.
    fn len(&self) -> (n: usize)
        requires
            self.wf(),
        ensures
            n == self.steps().len(),
    ;

    /// Step `p` of the plan.
    fn step(&self, p: usize) -> (step: Step<Self::Call>)
        requires
            self.wf(),
            p < self.steps().len(),
        ensures
            step@ == self.steps()[p as int],
    ;
}

/// How far a run has come.
#[derive(Debug, Clone, Copy, PartialEq, Eq, Structural)]
pub enum Progress {
    /// Nothing was handed out yet.
    NotStarted,
    /// The call of this step was handed out.
    Waiting { position: usize },
    /// The call of step `position` failed, and cleanup call `done` was handed out.
    Cleaning { position: usize, done: usize },
    /// The run is over.
    Over,
}

/// What comes next in a run.
pub enum Directive<C> {
    /// This call is to be made.
    Perform(C),
    /// The plan is done.
    Finished,
    /// The plan has failed, and everything is cleaned up.
    Failed(Fault),
}

/// A directive in terms of text.
pub enum DirectiveView<C> {
    Perform(C),
    Finished,
    Failed(FaultView),
}

impl<C> View for Directive<C> {
    type V = DirectiveView<C>;

    open spec fn view(&self) -> DirectiveView<C> {
        match self {
            Directive::Perform(call) => DirectiveView::Perform(*call),
            Directive::Finished => DirectiveView::Finished,
            Directive::Failed(fault) => DirectiveView::Failed(fault@),
        }
    }
}

/// Goes on with step `position`.
pub open spec fn go_on<C>(steps: Seq<StepView<C>>, position: nat) -> (Progress, DirectiveView<C>) {
    if position < steps.len() {
        (
            Progress::Waiting { position: position as usize },
            DirectiveView::Perform(steps[position as int].call),
        )
    } else {
        (Progress::Over, DirectiveView::Finished)
    }
}

/// Goes on with cleanup call `done` of step `position`, which has failed.
pub open spec fn clean_up<C>(steps: Seq<StepView<C>>, position: nat, done: nat) -> (
    Progress,
    DirectiveView<C>,
) {
    let (cleanup, fault) = steps[position as int].failure->0;
    if done < cleanup.len() {
        (
            Progress::Cleaning { position: position as usize, done: done as usize },
            DirectiveView::Perform(cleanup[done as int]),
        )
    } else {
        (Progress::Over, DirectiveView::Failed(fault))
    }
}

/// What a run does once the outcome of the last call is known: a call that
/// failed, and can fail, is followed by its cleanup; any other is followed by the
/// next step. Whether a cleanup call succeeded makes no difference.
pub open spec fn advance<C>(steps: Seq<StepView<C>>, progress: Progress, ok: bool) -> (
    Progress,
    DirectiveView<C>,
) {
    match progress {
        Progress::NotStarted => go_on(steps, 0),
        Progress::Waiting { position } => {
            if !ok && steps[position as int].failure is Some {
                clean_up(steps, position as nat, 0)
            } else {
                go_on(steps, (position + 1) as nat)
            }
        },
        Progress::Cleaning { position, done } => clean_up(
            steps,
            position as nat,
            (done + 1) as nat,
        ),
        Progress::Over => (Progress::Over, DirectiveView::Finished),
    }
}

/// A run of a plan.
pub struct PlanRunner<P: NativePlan> {
    plan: P,
    progress: Progress,
}

impl<P: NativePlan> PlanRunner<P> {
    /// The plan of the run.
    pub closed spec fn plan(&self) -> P {
        self.plan
    }

    /// How far the run has come.
    pub closed spec fn progress(&self) -> Progress {
        self.progress
    }

    /// The run has come to a place that the plan has.
    pub open spec fn wf(&self) -> bool {
        &&& self.plan().wf()
        &&& match self.progress() {
            Progress::Waiting { position } => position < self.plan().steps().len(),
            Progress::Cleaning { position, done } => {
                &&& position < self.plan().steps().len()
                &&& self.plan().steps()[position as int].failure is Some
                &&& done < (self.plan().steps()[position as int].failure->0).0.len()
            },
            _ => true,
        }
    }

    /// A run of `plan` that has not started.
    pub fn new(plan: P) -> (runner: Self)
        requires
            plan.wf(),
        ensures
            runner.plan() == plan,
            runner.progress() == Progress::NotStarted,
            runner.wf(),
    {
        PlanRunner { plan, progress: Progress::NotStarted }
    }

    /// Takes the outcome of the last call and says what comes next.
    pub fn next(&mut self, ok: bool) -> (directive: Directive<P::Call>)
        requires
            old(self).wf(),
        ensures
            final(self).wf(),
            final(self).plan() == old(self).plan(),
            (final(self).progress(), directive@) == advance(
                old(self).plan().steps(),
                old(self).progress(),
                ok,
            ),
    {
        match self.progress {
            Progress::NotStarted => self.go_on(0),
            Progress::Waiting { position } => {
                let step = self.plan.step(position);
                if !ok {
                    if let Some(failure) = step.failure {
                        return self.clean_up(position, 0, failure);
                    }
                }
                proof {
                    assert(step@.failure is None == (step.failure is None));
                }
                let length = self.plan.len();
                assert(position < length);
                self.go_on(position + 1)
            },
            Progress::Cleaning { position, done } => {
                let step = self.plan.step(position);
                assert(step@ == self.plan.steps()[position as int]);
                match step.failure {
                    Some(failure) => {
                        let length = failure.cleanup.len();
                        assert(done < length);
                        self.clean_up(position, done + 1, failure)
                    },
                    None => Directive::Finished,
                }
            },
            Progress::Over => Directive::Finished,
        }
    }

    fn go_on(&mut self, position: usize) -> (directive: Directive<P::Call>)
        requires
            old(self).plan().wf(),
        ensures
            final(self).wf(),
            final(self).plan() == old(self).plan(),
            (final(self).progress(), directive@) == go_on(
                old(self).plan().steps(),
                position as nat,
            ),
    {
        if position < self.plan.len() {
            let step = self.plan.step(position);
            assert(step@.call == step.call);
            self.progress = Progress::Waiting { position };
            Directive::Perform(step.call)
        } else {
            self.progress = Progress::Over;
            Directive::Finished
        }
    }

    fn clean_up(&mut self, position: usize, done: usize, failure: Failure<P::Call>) -> (directive:
        Directive<P::Call>)
        requires
            old(self).plan().wf(),
            position < old(self).plan().steps().len(),
            old(self).plan().steps()[position as int].failure == Some(
                (failure.cleanup@, failure.fault@),
            ),
        ensures
            final(self).wf(),
            final(self).plan() == old(self).plan(),
            (final(self).progress(), directive@) == clean_up(
                old(self).plan().steps(),
                position as nat,
                done as nat,
            ),
    {
        if done < failure.cleanup.len() {
            self.progress = Progress::Cleaning { position, done };
            Directive::Perform(failure.cleanup[done])
        } else {
            self.progress = Progress::Over;
            Directive::Failed(failure.fault)
        }
    }
}

/// The outcome that `next` is given, where `outcomes[p]` is that of step `p`.
pub open spec fn reply(progress: Progress, outcomes: Seq<bool>) -> bool {
    match progress {
        Progress::Waiting { position } => outcomes[position as int],
        _ => true,
    }
}

/// How far a run has come after `k` calls of `next`.
pub open spec fn progress_after<C>(steps: Seq<StepView<C>>, outcomes: Seq<bool>, k: nat) -> Progress
    decreases k,
{
    if k == 0 {
        Progress::NotStarted
    } else {
        let before = progress_after(steps, outcomes, (k - 1) as nat);
        advance(steps, before, reply(before, outcomes)).0
    }
}

/// What call `k` of `next` says, counted from zero.
pub open spec fn directive_of<C>(steps: Seq<StepView<C>>, outcomes: Seq<bool>, k: nat) -> DirectiveView<
    C,
> {
    let before = progress_after(steps, outcomes, k);
    advance(steps, before, reply(before, outcomes)).1
}

/// Step `p` fails.
pub open spec fn fails<C>(steps: Seq<StepView<C>>, outcomes: Seq<bool>, p: int) -> bool {
    steps[p].failure is Some && !outcomes[p]
}

/// As long as no step fails, the calls of the plan are handed out in their order.
pub proof fn lemma_calls_in_order<C>(steps: Seq<StepView<C>>, outcomes: Seq<bool>, n: nat)
    requires
        steps.len() <= usize::MAX,
        n <= steps.len(),
        forall|p: int| 0 <= p < n - 1 ==> !#[trigger] fails(steps, outcomes, p),
    ensures
        forall|k: nat|
            k < n ==> #[trigger] directive_of(steps, outcomes, k) == DirectiveView::Perform(
                steps[k as int].call,
            ),
        n > 0 ==> progress_after(steps, outcomes, n) == (Progress::Waiting {
            position: (n - 1) as usize,
        }),
    decreases n,
{
    if n > 0 {
        let m = (n - 1) as nat;
        lemma_calls_in_order(steps, outcomes, m);
        if m > 0 {
            assert(!fails(steps, outcomes, m - 1));
        }
        assert(directive_of(steps, outcomes, m) == DirectiveView::Perform(steps[m as int].call));
    }
}

/// A run in which no step fails hands out every call, and then is finished.
pub proof fn lemma_run_to_the_end<C>(steps: Seq<StepView<C>>, outcomes: Seq<bool>)
    requires
        steps.len() <= usize::MAX,
        forall|p: int| 0 <= p < steps.len() ==> !#[trigger] fails(steps, outcomes, p),
    ensures
        forall|k: nat|
            k < steps.len() ==> #[trigger] directive_of(steps, outcomes, k)
                == DirectiveView::Perform(steps[k as int].call),
        directive_of(steps, outcomes, steps.len()) == DirectiveView::<C>::Finished,
{
    lemma_calls_in_order(steps, outcomes, steps.len());
    if steps.len() > 0 {
        assert(!fails(steps, outcomes, steps.len() - 1));
    }
}

/// A run whose first failing step is `f` hands out the calls up to that of step
/// `f`, then the cleanup of step `f`, and then gives that step's fault.
pub proof fn lemma_run_to_a_failure<C>(steps: Seq<StepView<C>>, outcomes: Seq<bool>, f: nat)
    requires
        steps.len() <= usize::MAX,
        f < steps.len(),
        forall|p: int| 0 <= p < f ==> !#[trigger] fails(steps, outcomes, p),
        fails(steps, outcomes, f as int),
        (steps[f as int].failure->0).0.len() <= usize::MAX,
    ensures
        forall|k: nat|
            k <= f ==> #[trigger] directive_of(steps, outcomes, k) == DirectiveView::Perform(
                steps[k as int].call,
            ),
        forall|c: nat|
            c < (steps[f as int].failure->0).0.len() ==> #[trigger] directive_of(
                steps,
                outcomes,
                f + 1 + c,
            ) == DirectiveView::Perform((steps[f as int].failure->0).0[c as int]),
        directive_of(steps, outcomes, f + 1 + (steps[f as int].failure->0).0.len())
            == DirectiveView::<C>::Failed((steps[f as int].failure->0).1),
{
    lemma_calls_in_order(steps, outcomes, f + 1);
    lemma_cleaning(steps, outcomes, f, (steps[f as int].failure->0).0.len());
}

proof fn lemma_cleaning<C>(steps: Seq<StepView<C>>, outcomes: Seq<bool>, f: nat, n: nat)
    requires
        steps.len() <= usize::MAX,
        f < steps.len(),
        fails(steps, outcomes, f as int),
        progress_after(steps, outcomes, f + 1) == (Progress::Waiting { position: f as usize }),
        n <= (steps[f as int].failure->0).0.len() <= usize::MAX,
    ensures
        forall|c: nat|
            c < n ==> #[trigger] directive_of(steps, outcomes, f + 1 + c) == DirectiveView::Perform(
                (steps[f as int].failure->0).0[c as int],
            ),
        n > 0 ==> progress_after(steps, outcomes, f + 1 + n) == (Progress::Cleaning {
            position: f as usize,
            done: (n - 1) as usize,
        }),
        n == (steps[f as int].failure->0).0.len() ==> directive_of(steps, outcomes, f + 1 + n)
            == DirectiveView::<C>::Failed((steps[f as int].failure->0).1),
    decreases n,
{
    if n > 0 {
        let m = (n - 1) as nat;
        lemma_cleaning(steps, outcomes, f, m);
        assert((f + 1 + n - 1) as nat == f + 1 + m);
        assert(directive_of(steps, outcomes, f + 1 + m) == DirectiveView::Perform(
            (steps[f as int].failure->0).0[m as int],
        ));
    }
}

/// What a call does to the native objects that are held.
pub trait Effect {
    type Object;

    /// The objects that a successful call makes.
    spec fn makes(&self) -> Set<Self::Object>;

    /// The objects that a successful call releases or hands on.
    spec fn releases(&self) -> Set<Self::Object>;
}

/// The objects that are held once a call has succeeded; nothing where it releases
/// what is not held or makes what is held.
pub open spec fn booked<C: Effect>(call: C, held: Option<Set<C::Object>>) -> Option<
    Set<C::Object>,
> {
    match held {
        Some(before) => {
            if call.releases().subset_of(before) && call.makes().disjoint(
                before.difference(call.releases()),
            ) {
                Some(before.difference(call.releases()).union(call.makes()))
            } else {
                None
            }
        },
        None => None,
    }
}

/// The objects that are held after the given calls, all successful; nothing where
/// a call releases what is not held or makes what is held.
pub open spec fn ledger<C: Effect>(calls: Seq<C>, held: Set<C::Object>) -> Option<Set<C::Object>>
    decreases calls.len(),
{
    if calls.len() == 0 {
        Some(held)
    } else {
        booked(calls.last(), ledger(calls.drop_last(), held))
    }
}

/// The calls of the first `n` steps.
pub open spec fn calls_of<C>(steps: Seq<StepView<C>>, n: nat) -> Seq<C> {
    Seq::new(n, |p: int| steps[p].call)
}

/// What is held where step `p` fails: the calls before it have succeeded, and its
/// cleanup is done.
pub open spec fn held_on_failure<C: Effect>(
    steps: Seq<StepView<C>>,
    p: nat,
    held: Set<C::Object>,
) -> Option<Set<C::Object>> {
    ledger(calls_of(steps, p) + (steps[p as int].failure->0).0, held)
}

/// What is held at the end of the plan.
pub open spec fn held_at_end<C: Effect>(
    steps: Seq<StepView<C>>,
    held: Set<C::Object>,
) -> Option<Set<C::Object>> {
    ledger(calls_of(steps, steps.len()), held)
}

/// One more call.
pub proof fn lemma_ledger_push<C: Effect>(calls: Seq<C>, call: C, held: Set<C::Object>)
    ensures
        ledger(calls.push(call), held) == booked(call, ledger(calls, held)),
{
    assert(calls.push(call).drop_last() =~= calls);
}

/// Up to four calls, one by one.
pub proof fn lemma_ledger_few<C: Effect>(calls: Seq<C>, held: Set<C::Object>)
    requires
        calls.len() <= 4,
    ensures
        calls.len() == 0 ==> ledger(calls, held) == Some(held),
        calls.len() == 1 ==> ledger(calls, held) == booked(calls[0], Some(held)),
        calls.len() == 2 ==> ledger(calls, held) == booked(calls[1], booked(calls[0], Some(held))),
        calls.len() == 3 ==> ledger(calls, held) == booked(
            calls[2],
            booked(calls[1], booked(calls[0], Some(held))),
        ),
        calls.len() == 4 ==> ledger(calls, held) == booked(
            calls[3],
            booked(calls[2], booked(calls[1], booked(calls[0], Some(held)))),
        ),
{
    reveal_with_fuel(ledger, 5);
}

/// `held(p)` is what is held after the first `p` steps, where each step leads
/// from `held(p)` to `held(p + 1)`.
pub open spec fn steps_lead<C: Effect>(
    steps: Seq<StepView<C>>,
    held: spec_fn(nat) -> Set<C::Object>,
) -> bool {
    forall|p: nat|
        p < steps.len() ==> {
            let call = (#[trigger] steps[p as int]).call;
            &&& call.releases().subset_of(held(p))
            &&& call.makes().disjoint(held(p).difference(call.releases()))
            &&& held(p + 1) == held(p).difference(call.releases()).union(call.makes())
        }
}

/// What is held along a plan.
pub proof fn lemma_ledger_along<C: Effect>(
    steps: Seq<StepView<C>>,
    held: spec_fn(nat) -> Set<C::Object>,
    n: nat,
)
    requires
        steps_lead(steps, held),
        n <= steps.len(),
    ensures
        ledger(calls_of(steps, n), held(0)) == Some(held(n)),
    decreases n,
{
    if n == 0 {
        assert(calls_of(steps, 0).len() == 0);
    } else {
        let m = (n - 1) as nat;
        lemma_ledger_along(steps, held, m);
        assert(calls_of(steps, n) =~= calls_of(steps, m).push(steps[m as int].call));
        lemma_ledger_push(calls_of(steps, m), steps[m as int].call, held(0));
    }
}

/// What is held where step `p` fails is what its cleanup leaves of what the steps
/// before it hold.
pub proof fn lemma_ledger_on_failure<C: Effect>(
    steps: Seq<StepView<C>>,
    held: spec_fn(nat) -> Set<C::Object>,
    p: nat,
)
    requires
        steps_lead(steps, held),
        p < steps.len(),
        steps[p as int].failure is Some,
        (steps[p as int].failure->0).0.len() <= 4,
    ensures
        held_on_failure(steps, p, held(0)) == ledger((steps[p as int].failure->0).0, held(p)),
{
    lemma_ledger_along(steps, held, p);
    lemma_ledger_concat(calls_of(steps, p), (steps[p as int].failure->0).0, held(0));
}

/// Calls one after the other.
pub proof fn lemma_ledger_concat<C: Effect>(a: Seq<C>, b: Seq<C>, held: Set<C::Object>)
    ensures
        ledger(a + b, held) == match ledger(a, held) {
            Some(between) => ledger(b, between),
            None => None,
        },
    decreases b.len(),
{
    if b.len() == 0 {
        assert(a + b =~= a);
    } else {
        lemma_ledger_concat(a, b.drop_last(), held);
        assert((a + b).drop_last() =~= a + b.drop_last());
    }
}

/// The plan makes this call once, as step `at`.
pub open spec fn made_once<C>(steps: Seq<StepView<C>>, call: C, at: int) -> bool {
    &&& 0 <= at < steps.len()
    &&& forall|p: int|
        0 <= p < steps.len() ==> ((#[trigger] steps[p]).call == call <==> p == at)
}

/// The plan makes both calls once, the first of them before the other.
pub open spec fn made_before<C>(steps: Seq<StepView<C>>, call: C, other: C) -> bool {
    exists|p: int, q: int|
        p < q && #[trigger] made_once(steps, call, p) && #[trigger] made_once(steps, other, q)
}

/// The plan makes these calls once each, and in this order.
pub open spec fn made_in_order<C>(steps: Seq<StepView<C>>, calls: Seq<C>) -> bool {
    forall|i: int, j: int|
        0 <= i < j < calls.len() ==> made_before(steps, #[trigger] calls[i], #[trigger] calls[j])
}

/// Calls that stand in a plan once each, call `i` of them as step `at(i)`, are made in order
/// where these steps are.
pub proof fn lemma_made_in_order<C>(
    steps: Seq<StepView<C>>,
    calls: Seq<C>,
    at: spec_fn(int) -> int,
)
    requires
        forall|i: int| 0 <= i < calls.len() ==> made_once(steps, #[trigger] calls[i], at(i)),
        forall|i: int, j: int| 0 <= i < j < calls.len() ==> #[trigger] at(i) < #[trigger] at(j),
    ensures
        made_in_order(steps, calls),
{
    assert forall|i: int, j: int| 0 <= i < j < calls.len() implies made_before(
        steps,
        #[trigger] calls[i],
        #[trigger] calls[j],
    ) by {
        assert(made_once(steps, calls[i], at(i)));
        assert(made_once(steps, calls[j], at(j)));
        assert(at(i) < at(j));
    }
}

/// Step `p` can fail, and the plan then ends with this fault.
pub open spec fn faults_with<C>(steps: Seq<StepView<C>>, p: int, fault: FaultView) -> bool {
    steps[p].failure is Some && (steps[p].failure->0).1 == fault
}

/// Whether a cleanup call succeeded makes no difference, a call that cannot fail is
/// taken to have succeeded, and a run that is over stays so, whatever is said of the
/// outcome.
pub proof fn lemma_outcome_counts_once<C>(steps: Seq<StepView<C>>, progress: Progress)
    ensures
        !(progress is Waiting) ==> advance(steps, progress, true) == advance(steps, progress, false),
        progress matches Progress::Waiting { position } ==> {
            let by_outcome = advance(steps, progress, true) != advance(steps, progress, false);
            by_outcome ==> steps[position as int].failure is Some
        },
        progress is Over ==> advance(steps, progress, true) == (
            Progress::Over,
            DirectiveView::<C>::Finished,
        ),
        progress is NotStarted && steps.len() == 0 ==> advance(steps, progress, true) == (
            Progress::Over,
            DirectiveView::<C>::Finished,
        ),
{
}

/// Every call that a run hands out is one of the plan or of the cleanup of the step that
/// failed, a run ends as finished only behind its last step, and with a fault only where
/// a step that can fail was said to have failed.
pub proof fn lemma_next_call<C>(steps: Seq<StepView<C>>, progress: Progress, ok: bool)
    requires
        steps.len() <= usize::MAX,
        match progress {
            Progress::Waiting { position } => position < steps.len(),
            Progress::Cleaning { position, done } => {
                &&& position < steps.len()
                &&& steps[position as int].failure is Some
                &&& done < (steps[position as int].failure->0).0.len() <= usize::MAX
            },
            _ => true,
        },
    ensures
        ({
            let (after, directive) = advance(steps, progress, ok);
            match progress {
                Progress::NotStarted => steps.len() > 0 ==> directive == DirectiveView::Perform(
                    steps[0].call,
                ),
                Progress::Waiting { position } => {
                    let step = steps[position as int];
                    if ok || step.failure is None {
                        if position + 1 == steps.len() {
                            after is Over && directive is Finished
                        } else {
                            directive == DirectiveView::Perform(steps[position + 1].call)
                        }
                    } else {
                        let (cleanup, fault) = step.failure->0;
                        if cleanup.len() > 0 {
                            directive == DirectiveView::Perform(cleanup[0])
                        } else {
                            after is Over && directive == DirectiveView::<C>::Failed(fault)
                        }
                    }
                },
                Progress::Cleaning { position, done } => {
                    let (cleanup, fault) = steps[position as int].failure->0;
                    if done + 1 < cleanup.len() {
                        directive == DirectiveView::Perform(cleanup[done + 1])
                    } else {
                        after is Over && directive == DirectiveView::<C>::Failed(fault)
                    }
                },
                Progress::Over => after is Over && directive is Finished,
            }
        }),
{
}

} // verus!
