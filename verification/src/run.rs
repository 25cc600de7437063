//! The run of the executor: which state is told to the observers, which effects
//! are carried out and in which order, and when it ends.
//!
//! The task around it waits for transitions, tells the observers and carries out
//! effects. It does what the executor asks for, and reports back.

use crate::backend::HwBackend;
use crate::effect::Effect;
use crate::error;
use crate::error::HpdError;
use crate::executor;
use crate::executor::{Executor, Step, StepOutcome};
use crate::laws;
use crate::power::PowerEnvelopeLimits;
use crate::profile::RuntimeConfig;
use crate::reducer;
use crate::state::ProfileState;
use crate::transition::Transition;
use vstd::prelude::*;

verus! {

/// What the executor asks for.
#[derive(Debug)]
pub enum Action {
    /// Wait for the next transition.
    Receive,
    /// Tell the observers this state.
    Publish(ProfileState),
    /// Carry out this effect.
    Dispatch(Effect),
    /// Note why a transition was refused.
    Refuse(HpdError),
    /// Nothing more.
    Stop,
}

/// What came of it.
#[derive(Debug)]
pub enum Event {
    /// A transition; nothing where there will be no more.
    Received(Option<Transition>),
    /// The observers were told; or not, because there are none any more.
    Published(bool),
    /// The effect was carried out, whatever came of it.
    Dispatched,
    /// The refusal was noted.
    Noted,
}

// ---------------------------------------------------------------------------
// The model
// ---------------------------------------------------------------------------

/// Where a run stands: the state, the tuning, the effects that are still due,
/// whether the run ends after them, and whether it is over.
pub struct Agenda {
    pub state: ProfileState,
    pub config: RuntimeConfig,
    pub due: Seq<Effect>,
    pub last: bool,
    pub ended: bool,
}

/// What is next where no transition is at hand: the first effect that is due;
/// the end, after the last transition; else another transition.
pub open spec fn carried_on(agenda: Agenda) -> (Action, Agenda) {
    if agenda.due.len() > 0 {
        (Action::Dispatch(agenda.due[0]), Agenda { due: agenda.due.skip(1), ..agenda })
    } else if agenda.last {
        (Action::Stop, Agenda { ended: true, ..agenda })
    } else {
        (Action::Receive, agenda)
    }
}

/// Whether a run at `before` goes on, on `event`, with `action` and stands at
/// `after`.
pub open spec fn turned<B: HwBackend>(
    b: &B,
    limits: PowerEnvelopeLimits,
    before: Agenda,
    event: Event,
    action: Action,
    after: Agenda,
) -> bool {
    if before.ended {
        action is Stop && after == before
    } else {
        match event {
            Event::Received(None) => action is Stop && after == (Agenda { ended: true, ..before }),
            Event::Received(Some(transition)) => exists|
                step: Step,
                state: ProfileState,
                config: RuntimeConfig,
            |
                #[trigger] executor::step_taken(
                    b,
                    limits,
                    before.state,
                    before.config,
                    transition,
                    step,
                    state,
                    config,
                ) && {
                    let then = Agenda { state, config, last: before.last || step.stop, ..before };
                    match step.outcome {
                        StepOutcome::Applied(effects) => {
                            &&& action == Action::Publish(state)
                            &&& after == (Agenda { due: before.due + effects@, ..then })
                        },
                        StepOutcome::Refused(e) => action == Action::Refuse(e) && after == then,
                        StepOutcome::Reconfigured(_) => (action, after) == carried_on(then),
                    }
                },
            Event::Published(told) => if told {
                (action, after) == carried_on(before)
            } else {
                action is Stop && after == (Agenda { ended: true, ..before })
            },
            Event::Dispatched | Event::Noted => (action, after) == carried_on(before),
        }
    }
}

impl<B: HwBackend> Executor<B> {
    /// Where the run stands.
    pub open spec fn agenda(self) -> Agenda {
        Agenda {
            state: self.state,
            config: self.config,
            due: self.due@,
            last: self.last,
            ended: self.ended,
        }
    }

    fn carry_on(&mut self) -> (r: Action)
        requires
            !old(self).ended,
        ensures
            (r, final(self).agenda()) == carried_on(old(self).agenda()),
            final(self).backend == old(self).backend,
            final(self).device_limits == old(self).device_limits,
    {
        if self.due.len() > 0 {
            let effect = self.due.remove(0);
            assert(self.due@ =~= old(self).due@.skip(1));
            Action::Dispatch(effect)
        } else if self.last {
            self.ended = true;
            Action::Stop
        } else {
            Action::Receive
        }
    }

    /// Go on with the run, one turn: a transition that is applied is told to the
    /// observers, then its effects are carried out in order; of a refused one it is
    /// noted why; a new tuning asks for nothing. After a shutdown's effects, after the last
    /// transition, or where nobody observes any more, the run is over.
    pub fn run(&mut self, event: Event) -> (r: Action)
        ensures
            turned(
                &old(self).backend,
                old(self).device_limits,
                old(self).agenda(),
                event,
                r,
                final(self).agenda(),
            ),
            final(self).backend == old(self).backend,
            final(self).device_limits == old(self).device_limits,
    {
        if self.ended {
            return Action::Stop;
        }
        match event {
            Event::Received(Some(transition)) => {
                let step = self.step(transition);
                let ghost taken = step;
                let ghost (state, config) = (self.state, self.config);
                self.last = self.last || step.stop;
                assert(executor::step_taken(
                    &old(self).backend,
                    old(self).device_limits,
                    old(self).state,
                    old(self).config,
                    transition,
                    taken,
                    state,
                    config,
                ));
                match step.outcome {
                    StepOutcome::Applied(effects) => {
                        let mut effects = effects;
                        self.due.append(&mut effects);
                        Action::Publish(self.state.clone())
                    },
                    StepOutcome::Refused(e) => Action::Refuse(e),
                    StepOutcome::Reconfigured(_) => self.carry_on(),
                }
            },
            Event::Received(None) => {
                self.ended = true;
                Action::Stop
            },
            Event::Published(told) => if told {
                self.carry_on()
            } else {
                self.ended = true;
                Action::Stop
            },
            Event::Dispatched | Event::Noted => self.carry_on(),
        }
    }
}

// ---------------------------------------------------------------------------
// Laws
// ---------------------------------------------------------------------------

/// One turn of a run: what was reported, what was asked for, and where the run
/// stood then.
pub struct Turn {
    pub event: Event,
    pub action: Action,
    pub after: Agenda,
}

/// Whether `event` is a report on `action`. Once the run is over, anything may
/// be reported.
pub open spec fn answers(action: Action, event: Event) -> bool {
    match action {
        Action::Receive => event is Received,
        Action::Publish(_) => event is Published,
        Action::Dispatch(_) => event is Dispatched,
        Action::Refuse(_) => event is Noted,
        Action::Stop => true,
    }
}

/// Where a run that began at `start` stood before turn `i`.
pub open spec fn stood(start: Agenda, turns: Seq<Turn>, i: int) -> Agenda {
    if i <= 0 {
        start
    } else {
        turns[i - 1].after
    }
}

/// Whether turn `i` follows from the one before, on a report on what was asked
/// for then. The first thing asked for is a transition.
pub open spec fn follows<B: HwBackend>(
    b: &B,
    limits: PowerEnvelopeLimits,
    start: Agenda,
    turns: Seq<Turn>,
    i: int,
) -> bool {
    &&& turned(
        b,
        limits,
        stood(start, turns, i),
        turns[i].event,
        turns[i].action,
        turns[i].after,
    )
    &&& answers(
        if i == 0 {
            Action::Receive
        } else {
            turns[i - 1].action
        },
        turns[i].event,
    )
}

/// Whether `turns` are a run of an executor that began at `start`, with nothing
/// due.
pub open spec fn ran<B: HwBackend>(
    b: &B,
    limits: PowerEnvelopeLimits,
    start: Agenda,
    turns: Seq<Turn>,
) -> bool {
    &&& start.due.len() == 0 && !start.last && !start.ended
    &&& forall|i: int| 0 <= i < turns.len() ==> #[trigger] follows(b, limits, start, turns, i)
}

/// What a run carries on with, once the observers were told, an effect was
/// carried out or a refusal was noted.
proof fn lemma_carried_on<B: HwBackend>(
    b: &B,
    limits: PowerEnvelopeLimits,
    before: Agenda,
    event: Event,
    action: Action,
    after: Agenda,
)
    requires
        turned(b, limits, before, event, action, after),
        !before.ended,
        event == Event::Published(true) || event is Dispatched || event is Noted,
    ensures
        (action, after) == carried_on(before),
{
}

/// What comes of a transition that the reducer refuses.
proof fn lemma_refused<B: HwBackend>(
    b: &B,
    limits: PowerEnvelopeLimits,
    before: Agenda,
    transition: Transition,
    action: Action,
    after: Agenda,
)
    requires
        turned(b, limits, before, Event::Received(Some(transition)), action, after),
        !before.ended,
        before.due.len() == 0,
        !before.last,
        reducer::next(before.state, transition, limits, before.config) is Err,
    ensures
        action matches Action::Refuse(e) && error::is_violation(
            e,
            reducer::next(before.state, transition, limits, before.config)->Err_0,
        ),
        after == before,
{
    laws::only_power_requests_are_refused(before.state, transition, limits, before.config);
    let (step, state, config) = choose|
        step: Step,
        state: ProfileState,
        config: RuntimeConfig,
    |
        #[trigger] executor::step_taken(
            b,
            limits,
            before.state,
            before.config,
            transition,
            step,
            state,
            config,
        ) && {
            let then = Agenda { state, config, last: before.last || step.stop, ..before };
            match step.outcome {
                StepOutcome::Applied(effects) => {
                    &&& action == Action::Publish(state)
                    &&& after == (Agenda { due: before.due + effects@, ..then })
                },
                StepOutcome::Refused(e) => action == Action::Refuse(e) && after == then,
                StepOutcome::Reconfigured(_) => (action, after) == carried_on(then),
            }
        };
    assert(executor::stepped(
        before.state,
        transition,
        limits,
        before.config,
        None,
        step,
        state,
    ));
}

/// When a transition comes, nothing is due from the ones before.
proof fn lemma_idle<B: HwBackend>(
    b: &B,
    limits: PowerEnvelopeLimits,
    start: Agenda,
    turns: Seq<Turn>,
    i: int,
)
    requires
        ran(b, limits, start, turns),
        0 <= i < turns.len(),
        turns[i].event is Received,
        !stood(start, turns, i).ended,
    ensures
        stood(start, turns, i).due.len() == 0,
        !stood(start, turns, i).last,
{
    assert(follows(b, limits, start, turns, i));
    if i > 0 {
        assert(follows(b, limits, start, turns, i - 1));
    }
}

/// Every state that the observers are told has the flag of the lock as it is: on
/// exactly while AC is connected and pins maximum performance.
pub proof fn published_states_tell_the_lock<B: HwBackend>(
    b: &B,
    limits: PowerEnvelopeLimits,
    start: Agenda,
    turns: Seq<Turn>,
    i: int,
)
    requires
        ran(b, limits, start, turns),
        0 <= i < turns.len(),
    ensures
        turns[i].action matches Action::Publish(state) ==> state.ac_locked == (
        state.is_ac_connected && state.ac_max_performance),
{
    assert(follows(b, limits, start, turns, i));
}

/// A transition that the reducer refuses is told to nobody and carries out
/// nothing: why is noted, the run stands where it stood, and waits for the next
/// one.
pub proof fn refused_transitions_change_nothing<B: HwBackend>(
    b: &B,
    limits: PowerEnvelopeLimits,
    start: Agenda,
    turns: Seq<Turn>,
    i: int,
    transition: Transition,
)
    requires
        ran(b, limits, start, turns),
        0 <= i < turns.len(),
        !stood(start, turns, i).ended,
        turns[i].event == Event::Received(Some(transition)),
        reducer::next(
            stood(start, turns, i).state,
            transition,
            limits,
            stood(start, turns, i).config,
        ) is Err,
    ensures
        turns[i].action matches Action::Refuse(e) && error::is_violation(
            e,
            reducer::next(
                stood(start, turns, i).state,
                transition,
                limits,
                stood(start, turns, i).config,
            )->Err_0,
        ),
        turns[i].after == stood(start, turns, i),
        i + 1 < turns.len() ==> turns[i + 1].action is Receive && turns[i + 1].after == stood(
            start,
            turns,
            i,
        ),
{
    lemma_idle(b, limits, start, turns, i);
    assert(follows(b, limits, start, turns, i));
    lemma_refused(
        b,
        limits,
        stood(start, turns, i),
        transition,
        turns[i].action,
        turns[i].after,
    );
    if i + 1 < turns.len() {
        assert(follows(b, limits, start, turns, i + 1));
        lemma_carried_on(
            b,
            limits,
            stood(start, turns, i),
            turns[i + 1].event,
            turns[i + 1].action,
            turns[i + 1].after,
        );
    }
}

/// A new tuning is told to nobody and carries out nothing, and every transition
/// from then on goes by it, until the next one.
pub proof fn reloaded_tuning_lasts<B: HwBackend>(
    b: &B,
    limits: PowerEnvelopeLimits,
    start: Agenda,
    turns: Seq<Turn>,
    i: int,
    config: RuntimeConfig,
    j: int,
)
    requires
        ran(b, limits, start, turns),
        0 <= i < j <= turns.len(),
        !stood(start, turns, i).ended,
        turns[i].event == Event::Received(Some(Transition::ConfigReload(config))),
        forall|k: int|
            i < k < j ==> !((#[trigger] turns[k]).event matches Event::Received(Some(t)) && t
                is ConfigReload),
    ensures
        turns[i].action is Receive,
        turns[i].after.state == stood(start, turns, i).state,
        stood(start, turns, j).config == (if config.equals(stood(start, turns, i).config) {
            stood(start, turns, i).config
        } else {
            config
        }),
    decreases j,
{
    if j == i + 1 {
        lemma_idle(b, limits, start, turns, i);
        assert(follows(b, limits, start, turns, i));
    } else {
        reloaded_tuning_lasts(b, limits, start, turns, i, config, j - 1);
        assert(follows(b, limits, start, turns, j - 1));
    }
}

/// Whether `agenda` is where a run stands once `transition` was applied at
/// `before`: the state that the reducer gives, and all its effects due.
pub open spec fn applied<B: HwBackend>(
    b: &B,
    limits: PowerEnvelopeLimits,
    before: Agenda,
    transition: Transition,
    agenda: Agenda,
) -> bool {
    exists|charger: Option<Result<bool, HpdError>>|
        (if transition is SystemResumed {
            executor::charger_gave(b, charger)
        } else {
            charger is None
        }) && (reducer::next(
            #[trigger] executor::with_charger(before.state, charger),
            transition,
            limits,
            before.config,
        ) matches Ok(outcome) && agenda.state == executor::reported(outcome.state) && agenda.due
            == outcome.effects)
}

/// A state is told only when a transition was applied, with all its effects due
/// then, and none left over from before.
pub proof fn published_states_are_applied<B: HwBackend>(
    b: &B,
    limits: PowerEnvelopeLimits,
    start: Agenda,
    turns: Seq<Turn>,
    i: int,
)
    requires
        ran(b, limits, start, turns),
        0 <= i < turns.len(),
        turns[i].action is Publish,
    ensures
        turns[i].action == Action::Publish(turns[i].after.state),
        turns[i].event matches Event::Received(Some(transition)) && transition !is ConfigReload
            && applied(b, limits, stood(start, turns, i), transition, turns[i].after)
            && turns[i].after.last == (transition is Shutdown) && !turns[i].after.ended,
{
    let before = stood(start, turns, i);
    assert(follows(b, limits, start, turns, i));
    lemma_idle(b, limits, start, turns, i);
    let transition = turns[i].event->Received_0->0;
    let (step, state, config) = choose|
        step: Step,
        state: ProfileState,
        config: RuntimeConfig,
    |
        #[trigger] executor::step_taken(
            b,
            limits,
            before.state,
            before.config,
            transition,
            step,
            state,
            config,
        ) && {
            let then = Agenda { state, config, last: before.last || step.stop, ..before };
            match step.outcome {
                StepOutcome::Applied(effects) => {
                    &&& turns[i].action == Action::Publish(state)
                    &&& turns[i].after == (Agenda { due: before.due + effects@, ..then })
                },
                StepOutcome::Refused(e) => turns[i].action == Action::Refuse(e) && turns[i].after
                    == then,
                StepOutcome::Reconfigured(_) => (turns[i].action, turns[i].after) == carried_on(
                    then,
                ),
            }
        };
    let charger = choose|charger: Option<Result<bool, HpdError>>|
        (if transition is SystemResumed {
            executor::charger_gave(b, charger)
        } else {
            charger is None
        }) && #[trigger] executor::stepped(
            before.state,
            transition,
            limits,
            before.config,
            charger,
            step,
            state,
        );
    let known = executor::with_charger(before.state, charger);
    assert(reducer::next(known, transition, limits, before.config) is Ok);
    assert(before.due + step.outcome->Applied_0@ =~= step.outcome->Applied_0@);
}

/// The effects of an applied transition are carried out in order, each once,
/// right after the observers were told and before any other transition; after
/// those of a shutdown the run is over.
pub proof fn effects_are_carried_out_in_order<B: HwBackend>(
    b: &B,
    limits: PowerEnvelopeLimits,
    start: Agenda,
    turns: Seq<Turn>,
    i: int,
    k: int,
)
    requires
        ran(b, limits, start, turns),
        0 <= i < turns.len(),
        turns[i].action is Publish,
        0 <= k <= turns[i].after.due.len(),
        i + 1 + k < turns.len(),
        turns[i + 1].event == Event::Published(true),
    ensures
        k < turns[i].after.due.len() ==> turns[i + 1 + k].action == Action::Dispatch(
            turns[i].after.due[k],
        ) && turns[i + 1 + k].after == (Agenda {
            due: turns[i].after.due.skip(k + 1),
            ..turns[i].after
        }),
        k == turns[i].after.due.len() ==> (if turns[i].event == Event::Received(
            Some(Transition::Shutdown),
        ) {
            turns[i + 1 + k].action is Stop && turns[i + 1 + k].after.ended
        } else {
            turns[i + 1 + k].action is Receive
        }),
    decreases k,
{
    published_states_are_applied(b, limits, start, turns, i);
    let due = turns[i].after.due;
    let here = i + 1 + k;
    assert(follows(b, limits, start, turns, here));
    if k > 0 {
        effects_are_carried_out_in_order(b, limits, start, turns, i, k - 1);
    }
    lemma_carried_on(
        b,
        limits,
        stood(start, turns, here),
        turns[here].event,
        turns[here].action,
        turns[here].after,
    );
    assert(due.skip(k).len() == due.len() - k);
    if k < due.len() {
        assert(due.skip(k).skip(1) =~= due.skip(k + 1));
    }
}

/// Once the run is over nothing more is told, carried out or waited for.
pub proof fn nothing_follows_the_stop<B: HwBackend>(
    b: &B,
    limits: PowerEnvelopeLimits,
    start: Agenda,
    turns: Seq<Turn>,
    i: int,
    j: int,
)
    requires
        ran(b, limits, start, turns),
        0 <= i <= j < turns.len(),
        turns[i].action is Stop,
    ensures
        turns[j].action is Stop,
        turns[j].after == turns[i].after,
        turns[j].after.ended,
    decreases j,
{
    assert(follows(b, limits, start, turns, j));
    if i < j {
        nothing_follows_the_stop(b, limits, start, turns, i, j - 1);
    }
}

} // verus!
