//! Schema provisioning: what is executed against the database, and in which
//! order, to create the tables and seed the fleet.
//!
//! The database itself is outside this library. Provisioning is therefore a
//! state machine: [`Provisioner::pending`] names the step to execute next, the
//! caller executes it and reports how it went to [`Provisioner::advance`].
//! A run in which nothing fails walks through [`plan`] from its first step to
//! its last.

use crate::config::ServerConfig;
use crate::plan::{in_plan, lemma_plan_positions, plan, position, Step};
use vstd::prelude::*;

verus! {

/// Why provisioning stopped before its plan was through.
#[derive(Clone, Debug, PartialEq, Eq)]
pub enum ProvisionError {
    /// The database could not be opened.
    Connection { message: String },
    /// The tables could not be created, for one because they exist already.
    Schema { message: String },
    /// The row of microcontroller `m_id` could not be inserted.
    Microcontroller { m_id: u16, message: String },
    /// The row of sensor `s_id` of microcontroller `m_id` could not be inserted.
    Sensor { m_id: u16, s_id: u8, message: String },
}

/// Mathematical model of a [`ProvisionError`].
pub enum ProvisionErrorView {
    Connection { message: Seq<char> },
    Schema { message: Seq<char> },
    Microcontroller { m_id: u16, message: Seq<char> },
    Sensor { m_id: u16, s_id: u8, message: Seq<char> },
}

impl View for ProvisionError {
    type V = ProvisionErrorView;

    open spec fn view(&self) -> ProvisionErrorView {
        match *self {
            ProvisionError::Connection { message } => ProvisionErrorView::Connection {
                message: message@,
            },
            ProvisionError::Schema { message } => ProvisionErrorView::Schema { message: message@ },
            ProvisionError::Microcontroller { m_id, message } => ProvisionErrorView::Microcontroller {
                m_id,
                message: message@,
            },
            ProvisionError::Sensor { m_id, s_id, message } => ProvisionErrorView::Sensor {
                m_id,
                s_id,
                message: message@,
            },
        }
    }
}

/// The error that a failure of `step` amounts to, with the diagnostic that
/// the database gave. Releasing the connection cannot fail.
pub open spec fn failure(step: Step, message: Seq<char>) -> Option<ProvisionErrorView> {
    match step {
        Step::Connect => Some(ProvisionErrorView::Connection { message }),
        Step::CreateSchema => Some(ProvisionErrorView::Schema { message }),
        Step::InsertMicrocontroller { m_id } => Some(
            ProvisionErrorView::Microcontroller { m_id, message },
        ),
        Step::InsertSensor { m_id, s_id } => Some(
            ProvisionErrorView::Sensor { m_id, s_id, message },
        ),
        Step::Close => None,
    }
}

/// How far a provisioning run has come.
pub enum Progress {
    /// The step at this index of the plan is to be executed next.
    At(nat),
    /// Every step of the plan was executed.
    Finished,
    /// A step failed; nothing more is executed.
    Failed(ProvisionErrorView),
}

/// Mathematical model of a [`Provisioner`].
pub struct ProvisionerView {
    pub microcontrollers: u16,
    pub sensors: u8,
    pub progress: Progress,
}

impl ProvisionerView {
    /// The plan that this run follows.
    pub open spec fn plan(self) -> Seq<Step> {
        plan(self.microcontrollers, self.sensors)
    }

    /// A pending index lies within the plan.
    pub open spec fn wf(self) -> bool {
        self.progress matches Progress::At(at) ==> at < self.plan().len()
    }

    /// The step to execute next, if the run is still under way.
    pub open spec fn pending(self) -> Option<Step> {
        match self.progress {
            Progress::At(at) => Some(self.plan()[at as int]),
            _ => None,
        }
    }

    /// The state after the pending step has been executed with `outcome`.
    ///
    /// A success moves on to the next step of the plan, or finishes after the
    /// last. A failure ends the run with the error for the step that failed.
    /// A run that has ended stays as it is.
    pub open spec fn next(self, outcome: Result<(), Seq<char>>) -> ProvisionerView {
        let progress = match self.progress {
            Progress::At(at) => match outcome {
                Ok(_) => if at + 1 < self.plan().len() {
                    Progress::At(at + 1)
                } else {
                    Progress::Finished
                },
                Err(message) => match failure(self.plan()[at as int], message) {
                    Some(error) => Progress::Failed(error),
                    None => Progress::Finished,
                },
            },
            ended => ended,
        };
        ProvisionerView { progress, ..self }
    }
}

/// The start of a run for a fleet of the given size.
pub open spec fn start(microcontrollers: u16, sensors: u8) -> ProvisionerView {
    ProvisionerView { microcontrollers, sensors, progress: Progress::At(0) }
}

/// Model of what the caller reports after executing a step.
pub open spec fn outcome_view(outcome: Result<(), String>) -> Result<(), Seq<char>> {
    match outcome {
        Ok(_) => Ok(()),
        Err(message) => Err(message@),
    }
}

/// The state of a run after `count` steps that all succeeded.
pub open spec fn after_successes(microcontrollers: u16, sensors: u8, count: nat) -> ProvisionerView
    decreases count,
{
    if count == 0 {
        start(microcontrollers, sensors)
    } else {
        after_successes(microcontrollers, sensors, (count - 1) as nat).next(Ok(()))
    }
}

/// A run in which nothing fails executes the steps of the plan, each once
/// and in order, and is finished after the last.
pub proof fn lemma_successful_run(microcontrollers: u16, sensors: u8, count: nat)
    ensures
        count < plan(microcontrollers, sensors).len() ==> after_successes(
            microcontrollers,
            sensors,
            count,
        ).pending() == Some(plan(microcontrollers, sensors)[count as int]),
        count >= plan(microcontrollers, sensors).len() ==> after_successes(
            microcontrollers,
            sensors,
            count,
        ).progress == Progress::Finished,
        after_successes(microcontrollers, sensors, count).wf(),
{
    lemma_after_successes(microcontrollers, sensors, count);
}

proof fn lemma_after_successes(microcontrollers: u16, sensors: u8, count: nat)
    ensures
        after_successes(microcontrollers, sensors, count) == (ProvisionerView {
            microcontrollers,
            sensors,
            progress: if count < plan(microcontrollers, sensors).len() {
                Progress::At(count)
            } else {
                Progress::Finished
            },
        }),
    decreases count,
{
    lemma_plan_positions(microcontrollers, sensors);
    assert(0 <= microcontrollers * (sensors + 1)) by (nonlinear_arith);
    if count > 0 {
        lemma_after_successes(microcontrollers, sensors, (count - 1) as nat);
    }
}

/// A step that fails ends the run: nothing is pending any more, and whatever
/// is reported afterwards changes nothing. Where the tables cannot be
/// created, as on a database that holds them already, no row is inserted.
pub proof fn lemma_failure_ends_run(
    run: ProvisionerView,
    message: Seq<char>,
    later: Result<(), Seq<char>>,
)
    requires
        run.wf(),
        run.progress is At,
    ensures
        run.next(Err(message)).pending() is None,
        run.next(Err(message)).next(later) == run.next(Err(message)),
        run.pending() != Some(Step::Close) ==> run.next(Err(message)).progress is Failed,
        run.pending() == Some(Step::CreateSchema) ==> run.next(Err(message)).progress
            == Progress::Failed(ProvisionErrorView::Schema { message }),
{
}

enum Phase {
    Pending(Step),
    Finished,
    Failed(ProvisionError),
}

/// A provisioning run: the fleet to seed and how far the run has come.
pub struct Provisioner {
    microcontrollers: u16,
    sensors: u8,
    phase: Phase,
}

impl View for Provisioner {
    type V = ProvisionerView;

    closed spec fn view(&self) -> ProvisionerView {
        ProvisionerView {
            microcontrollers: self.microcontrollers,
            sensors: self.sensors,
            progress: match self.phase {
                Phase::Pending(step) => Progress::At(
                    position(step, self.microcontrollers, self.sensors) as nat,
                ),
                Phase::Finished => Progress::Finished,
                Phase::Failed(error) => Progress::Failed(error@),
            },
        }
    }
}

impl Provisioner {
    #[verifier::type_invariant]
    spec fn inv(self) -> bool {
        self.phase matches Phase::Pending(step) ==> in_plan(
            step,
            self.microcontrollers,
            self.sensors,
        )
    }

    /// Starts a run for the fleet that `config` describes.
    pub fn new(config: &ServerConfig) -> (run: Provisioner)
        ensures
            run@ == start(config@.microcontroller_count, config@.sensors_per_microcontroller),
    {
        Provisioner {
            microcontrollers: config.microcontroller_count,
            sensors: config.sensors_per_microcontroller,
            phase: Phase::Pending(Step::Connect),
        }
    }

    /// The step that follows `step` in the plan, or `None` after the last.
    fn following(&self, step: Step) -> (next: Option<Step>)
        requires
            in_plan(step, self.microcontrollers, self.sensors),
        ensures
            match next {
                Some(next) => {
                    &&& in_plan(next, self.microcontrollers, self.sensors)
                    &&& position(next, self.microcontrollers, self.sensors) == position(
                        step,
                        self.microcontrollers,
                        self.sensors,
                    ) + 1
                    &&& next != Step::Connect
                },
                None => step == Step::Close,
            },
    {
        let first_or_close = if self.microcontrollers > 0 {
            Step::InsertMicrocontroller { m_id: 0 }
        } else {
            Step::Close
        };
        match step {
            Step::Connect => Some(Step::CreateSchema),
            Step::CreateSchema => Some(first_or_close),
            Step::InsertMicrocontroller { m_id } => {
                if self.sensors > 0 {
                    Some(Step::InsertSensor { m_id, s_id: 0 })
                } else {
                    Some(self.after_unit(m_id))
                }
            },
            Step::InsertSensor { m_id, s_id } => {
                if s_id + 1 < self.sensors {
                    Some(Step::InsertSensor { m_id, s_id: s_id + 1 })
                } else {
                    Some(self.after_unit(m_id))
                }
            },
            Step::Close => None,
        }
    }

    /// The step after the last insert for microcontroller `m_id`.
    fn after_unit(&self, m_id: u16) -> (next: Step)
        requires
            m_id < self.microcontrollers,
        ensures
            in_plan(next, self.microcontrollers, self.sensors),
            position(next, self.microcontrollers, self.sensors) == 2 + m_id * (self.sensors + 1)
                + self.sensors + 1,
            next is InsertMicrocontroller || next is Close,
    {
        assert((m_id + 1) * (self.sensors + 1) == m_id * (self.sensors + 1) + self.sensors + 1)
            by (nonlinear_arith);
        if m_id + 1 < self.microcontrollers {
            Step::InsertMicrocontroller { m_id: m_id + 1 }
        } else {
            Step::Close
        }
    }

    /// The step to execute next, or `None` once the run has ended.
    pub fn pending(&self) -> (step: Option<Step>)
        ensures
            self@.wf(),
            step == self@.pending(),
    {
        proof {
            use_type_invariant(self);
            lemma_plan_positions(self.microcontrollers, self.sensors);
        }
        match self.phase {
            Phase::Pending(step) => Some(step),
            _ => None,
        }
    }

    /// Takes note of how the pending step went, and moves on.
    ///
    /// After a success the next step of the plan is pending, or the run is
    /// finished. After a failure the run has failed with the error for that
    /// step, and nothing is pending any more. When the run has ended already,
    /// nothing changes.
    pub fn advance(&mut self, outcome: Result<(), String>)
        ensures
            final(self)@ == old(self)@.next(outcome_view(outcome)),
            final(self)@.wf(),
    {
        proof {
            use_type_invariant(&*self);
            lemma_plan_positions(self.microcontrollers, self.sensors);
        }
        let step = match self.phase {
            Phase::Pending(step) => step,
            _ => { return ; },
        };
        let phase = match outcome {
            Ok(_) => match self.following(step) {
                Some(next) => Phase::Pending(next),
                None => Phase::Finished,
            },
            Err(message) => match step {
                Step::Connect => Phase::Failed(ProvisionError::Connection { message }),
                Step::CreateSchema => Phase::Failed(ProvisionError::Schema { message }),
                Step::InsertMicrocontroller { m_id } => Phase::Failed(
                    ProvisionError::Microcontroller { m_id, message },
                ),
                Step::InsertSensor { m_id, s_id } => Phase::Failed(
                    ProvisionError::Sensor { m_id, s_id, message },
                ),
                Step::Close => Phase::Finished,
            },
        };
        self.phase = phase;
    }

    /// How the run ended: `None` while a step is pending, `Some(Ok(()))` when
    /// the whole plan was executed, `Some(Err(..))` with the error of the step
    /// that failed.
    pub fn outcome(self) -> (end: Option<Result<(), ProvisionError>>)
        ensures
            match self@.progress {
                Progress::At(_) => end is None,
                Progress::Finished => end == Some(Ok::<(), ProvisionError>(())),
                Progress::Failed(error) => end matches Some(Err(e)) && e@ == error,
            },
    {
        match self.phase {
            Phase::Pending(_) => None,
            Phase::Finished => Some(Ok(())),
            Phase::Failed(error) => Some(Err(error)),
        }
    }
}

} // verus!
