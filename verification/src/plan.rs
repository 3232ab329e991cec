//! The plan of a provisioning run: every step that is executed against the
//! database when nothing fails, and the rows that the run leaves behind.

use vstd::arithmetic::div_mod::{
    lemma_fundamental_div_mod, lemma_fundamental_div_mod_converse, lemma_mod_bound,
};
use vstd::prelude::*;

verus! {

/// One thing to execute against the database.
#[derive(Clone, Copy, Debug, PartialEq, Eq, Structural)]
pub enum Step {
    /// Open the database that the configuration names, creating it if absent.
    Connect,
    /// Create the three tables, in one batch.
    CreateSchema,
    /// Insert the row of microcontroller `m_id`.
    InsertMicrocontroller { m_id: u16 },
    /// Insert the row of sensor `s_id` of microcontroller `m_id`.
    InsertSensor { m_id: u16, s_id: u8 },
    /// Release the connection.
    Close,
}

/// The sensor inserts of microcontroller `m_id`, by ascending sensor id.
pub open spec fn sensor_steps(m_id: u16, sensors: u8) -> Seq<Step> {
    Seq::new(sensors as nat, |s: int| Step::InsertSensor { m_id, s_id: s as u8 })
}

/// The inserts for microcontroller `m_id`: its own row, then its sensors.
pub open spec fn unit_steps(m_id: u16, sensors: u8) -> Seq<Step> {
    seq![Step::InsertMicrocontroller { m_id }] + sensor_steps(m_id, sensors)
}

/// All inserts of a fleet, microcontroller-major and sensor-minor.
pub open spec fn seeding_steps(microcontrollers: u16, sensors: u8) -> Seq<Step>
    decreases microcontrollers,
{
    if microcontrollers == 0 {
        Seq::empty()
    } else {
        let last = (microcontrollers - 1) as u16;
        seeding_steps(last, sensors) + unit_steps(last, sensors)
    }
}

/// Every step of a provisioning run in which nothing fails, in order.
pub open spec fn plan(microcontrollers: u16, sensors: u8) -> Seq<Step> {
    seq![Step::Connect, Step::CreateSchema] + seeding_steps(microcontrollers, sensors)
        + seq![Step::Close]
}

/// Where in [`plan`] a step stands.
pub open spec fn position(step: Step, microcontrollers: u16, sensors: u8) -> int {
    match step {
        Step::Connect => 0,
        Step::CreateSchema => 1,
        Step::InsertMicrocontroller { m_id } => 2 + m_id * (sensors + 1),
        Step::InsertSensor { m_id, s_id } => 2 + m_id * (sensors + 1) + 1 + s_id,
        Step::Close => 2 + microcontrollers * (sensors + 1),
    }
}

/// Whether a step belongs to the plan of a fleet of the given size.
pub open spec fn in_plan(step: Step, microcontrollers: u16, sensors: u8) -> bool {
    match step {
        Step::InsertMicrocontroller { m_id } => m_id < microcontrollers,
        Step::InsertSensor { m_id, s_id } => m_id < microcontrollers && s_id < sensors,
        _ => true,
    }
}

proof fn lemma_seeding_len(microcontrollers: u16, sensors: u8)
    ensures
        seeding_steps(microcontrollers, sensors).len() == microcontrollers * (sensors + 1),
    decreases microcontrollers,
{
    if microcontrollers > 0 {
        let last = (microcontrollers - 1) as u16;
        lemma_seeding_len(last, sensors);
        assert(last * (sensors + 1) + (sensors + 1) == microcontrollers * (sensors + 1))
            by (nonlinear_arith)
            requires
                last + 1 == microcontrollers,
        ;
    }
}

proof fn lemma_seeding_index(microcontrollers: u16, sensors: u8, m_id: u16)
    requires
        m_id < microcontrollers,
    ensures
        seeding_steps(microcontrollers, sensors)[m_id * (sensors + 1)]
            == (Step::InsertMicrocontroller { m_id }),
        forall|s: int|
            0 <= s < sensors ==> #[trigger] seeding_steps(microcontrollers, sensors)[m_id * (
            sensors + 1) + 1 + s] == (Step::InsertSensor { m_id, s_id: s as u8 }),
    decreases microcontrollers,
{
    let last = (microcontrollers - 1) as u16;
    let before = seeding_steps(last, sensors);
    let unit = unit_steps(last, sensors);
    let start = m_id * (sensors + 1);
    lemma_seeding_len(last, sensors);
    assert(0 <= start) by (nonlinear_arith)
        requires
            start == m_id * (sensors + 1),
            0 <= m_id,
            0 <= sensors,
    ;
    if m_id == last {
        assert((before + unit)[start] == unit[0]);
        assert forall|s: int| 0 <= s < sensors implies #[trigger] (before + unit)[start + 1 + s]
            == (Step::InsertSensor { m_id, s_id: s as u8 }) by {
            assert((before + unit)[start + 1 + s] == unit[1 + s]);
            assert(unit[1 + s] == sensor_steps(last, sensors)[s]);
        }
    } else {
        lemma_seeding_index(last, sensors, m_id);
        assert(start + sensors + 1 <= last * (sensors + 1)) by (nonlinear_arith)
            requires
                start == m_id * (sensors + 1),
                m_id + 1 <= last,
                0 <= sensors,
        ;
        assert((before + unit)[start] == before[start]);
        assert forall|s: int| 0 <= s < sensors implies #[trigger] (before + unit)[start + 1 + s]
            == (Step::InsertSensor { m_id, s_id: s as u8 }) by {
            assert((before + unit)[start + 1 + s] == before[start + 1 + s]);
        }
    }
}

/// The plan holds each step at its [`position`]: the two opening steps, then
/// for each microcontroller its own insert directly followed by those of its
/// sensors in ascending order, then the closing step.
pub proof fn lemma_plan_positions(microcontrollers: u16, sensors: u8)
    ensures
        plan(microcontrollers, sensors).len() == microcontrollers * (sensors + 1) + 3,
        forall|step: Step| #[trigger]
            in_plan(step, microcontrollers, sensors) ==> {
                let at = position(step, microcontrollers, sensors);
                &&& 0 <= at < plan(microcontrollers, sensors).len()
                &&& plan(microcontrollers, sensors)[at] == step
            },
{
    let seeding = seeding_steps(microcontrollers, sensors);
    let steps = plan(microcontrollers, sensors);
    lemma_seeding_len(microcontrollers, sensors);
    assert(0 <= microcontrollers * (sensors + 1)) by (nonlinear_arith);
    assert forall|step: Step| #[trigger] in_plan(step, microcontrollers, sensors) implies {
        let at = position(step, microcontrollers, sensors);
        &&& 0 <= at < steps.len()
        &&& steps[at] == step
    } by {
        match step {
            Step::InsertMicrocontroller { m_id } => {
                lemma_seeding_index(microcontrollers, sensors, m_id);
                let start = m_id * (sensors + 1);
                assert(0 <= start && start + sensors + 1 <= microcontrollers * (sensors + 1))
                    by (nonlinear_arith)
                    requires
                        start == m_id * (sensors + 1),
                        0 <= m_id,
                        m_id + 1 <= microcontrollers,
                        0 <= sensors,
                ;
                assert(steps[2 + start] == seeding[start]);
            },
            Step::InsertSensor { m_id, s_id } => {
                lemma_seeding_index(microcontrollers, sensors, m_id);
                let start = m_id * (sensors + 1);
                assert(0 <= start && start + sensors + 1 <= microcontrollers * (sensors + 1))
                    by (nonlinear_arith)
                    requires
                        start == m_id * (sensors + 1),
                        0 <= m_id,
                        m_id + 1 <= microcontrollers,
                        0 <= sensors,
                ;
                assert(steps[2 + start + 1 + s_id] == seeding[start + 1 + s_id]);
                assert(s_id as int as u8 == s_id);
            },
            Step::Connect => {},
            Step::CreateSchema => {},
            Step::Close => {
                assert(steps[2 + seeding.len() as int] == Step::Close);
            },
        }
    }
}

/// The tables exist before any row is inserted, the row of a microcontroller
/// before the rows of its sensors, and the connection is released last.
pub proof fn lemma_plan_order(microcontrollers: u16, sensors: u8, step: Step)
    requires
        in_plan(step, microcontrollers, sensors),
    ensures
        step is InsertMicrocontroller || step is InsertSensor ==> position(
            Step::CreateSchema,
            microcontrollers,
            sensors,
        ) < position(step, microcontrollers, sensors) < position(
            Step::Close,
            microcontrollers,
            sensors,
        ),
        step matches Step::InsertSensor { m_id, .. } ==> position(
            Step::InsertMicrocontroller { m_id },
            microcontrollers,
            sensors,
        ) < position(step, microcontrollers, sensors),
        position(Step::Connect, microcontrollers, sensors) < position(
            Step::CreateSchema,
            microcontrollers,
            sensors,
        ),
{
    match step {
        Step::InsertMicrocontroller { m_id } | Step::InsertSensor { m_id, .. } => {
            let start = m_id * (sensors + 1);
            assert(0 <= start && start + sensors + 1 <= microcontrollers * (sensors + 1))
                by (nonlinear_arith)
                requires
                    start == m_id * (sensors + 1),
                    0 <= m_id,
                    m_id + 1 <= microcontrollers,
                    0 <= sensors,
            ;
        },
        _ => {},
    }
}

/// The rows that executing `steps` in order puts into the microcontroller
/// table: the ids, in the order of insertion.
pub open spec fn microcontroller_rows(steps: Seq<Step>) -> Seq<u16>
    decreases steps.len(),
{
    if steps.len() == 0 {
        Seq::empty()
    } else {
        let before = microcontroller_rows(steps.drop_last());
        match steps.last() {
            Step::InsertMicrocontroller { m_id } => before.push(m_id),
            _ => before,
        }
    }
}

/// The rows that executing `steps` in order puts into the sensor table: the
/// pairs of microcontroller id and sensor id, in the order of insertion.
pub open spec fn sensor_rows(steps: Seq<Step>) -> Seq<(u16, u8)>
    decreases steps.len(),
{
    if steps.len() == 0 {
        Seq::empty()
    } else {
        let before = sensor_rows(steps.drop_last());
        match steps.last() {
            Step::InsertSensor { m_id, s_id } => before.push((m_id, s_id)),
            _ => before,
        }
    }
}

/// The sensor rows of a fleet: microcontroller-major, sensor-minor.
pub open spec fn fleet_sensors(microcontrollers: u16, sensors: u8) -> Seq<(u16, u8)> {
    Seq::new(
        (microcontrollers * sensors) as nat,
        |i: int| ((i / sensors as int) as u16, (i % sensors as int) as u8),
    )
}

/// The microcontroller rows of a fleet: the ids from zero upwards.
pub open spec fn fleet_microcontrollers(microcontrollers: u16) -> Seq<u16> {
    Seq::new(microcontrollers as nat, |i: int| i as u16)
}

proof fn lemma_rows_concat(front: Seq<Step>, back: Seq<Step>)
    ensures
        microcontroller_rows(front + back) == microcontroller_rows(front) + microcontroller_rows(
            back,
        ),
        sensor_rows(front + back) == sensor_rows(front) + sensor_rows(back),
    decreases back.len(),
{
    if back.len() == 0 {
        assert(front + back =~= front);
        assert(microcontroller_rows(front) + microcontroller_rows(back) =~= microcontroller_rows(
            front,
        ));
        assert(sensor_rows(front) + sensor_rows(back) =~= sensor_rows(front));
    } else {
        lemma_rows_concat(front, back.drop_last());
        assert((front + back).drop_last() =~= front + back.drop_last());
        assert((front + back).last() == back.last());
        assert(microcontroller_rows(front + back) =~= microcontroller_rows(front)
            + microcontroller_rows(back));
        assert(sensor_rows(front + back) =~= sensor_rows(front) + sensor_rows(back));
    }
}

proof fn lemma_sensor_steps_rows(m_id: u16, sensors: u8)
    ensures
        microcontroller_rows(sensor_steps(m_id, sensors)) == Seq::<u16>::empty(),
        sensor_rows(sensor_steps(m_id, sensors)) == Seq::new(
            sensors as nat,
            |s: int| (m_id, s as u8),
        ),
    decreases sensors,
{
    let steps = sensor_steps(m_id, sensors);
    if sensors > 0 {
        let fewer = (sensors - 1) as u8;
        lemma_sensor_steps_rows(m_id, fewer);
        assert(steps.drop_last() =~= sensor_steps(m_id, fewer));
        assert(steps.last() == (Step::InsertSensor { m_id, s_id: fewer }));
        assert(sensor_rows(steps) =~= Seq::new(sensors as nat, |s: int| (m_id, s as u8)));
    } else {
        assert(sensor_rows(steps) =~= Seq::new(sensors as nat, |s: int| (m_id, s as u8)));
    }
}

proof fn lemma_unit_rows(m_id: u16, sensors: u8)
    ensures
        microcontroller_rows(unit_steps(m_id, sensors)) == seq![m_id],
        sensor_rows(unit_steps(m_id, sensors)) == Seq::new(
            sensors as nat,
            |s: int| (m_id, s as u8),
        ),
{
    let own = seq![Step::InsertMicrocontroller { m_id }];
    lemma_rows_concat(own, sensor_steps(m_id, sensors));
    lemma_sensor_steps_rows(m_id, sensors);
    assert(microcontroller_rows(own) =~= seq![m_id] && sensor_rows(own) =~= Seq::<
        (u16, u8),
    >::empty()) by {
        assert(own.drop_last() =~= Seq::<Step>::empty());
        reveal_with_fuel(microcontroller_rows, 2);
        reveal_with_fuel(sensor_rows, 2);
    }
    assert(microcontroller_rows(own) + Seq::<u16>::empty() =~= seq![m_id]);
    assert(Seq::<(u16, u8)>::empty() + sensor_rows(sensor_steps(m_id, sensors)) =~= sensor_rows(
        sensor_steps(m_id, sensors),
    ));
}

proof fn lemma_seeding_rows(microcontrollers: u16, sensors: u8)
    ensures
        microcontroller_rows(seeding_steps(microcontrollers, sensors)) == fleet_microcontrollers(
            microcontrollers,
        ),
        sensor_rows(seeding_steps(microcontrollers, sensors)) == fleet_sensors(
            microcontrollers,
            sensors,
        ),
    decreases microcontrollers,
{
    let steps = seeding_steps(microcontrollers, sensors);
    if microcontrollers == 0 {
        assert(microcontroller_rows(steps) =~= fleet_microcontrollers(microcontrollers));
        assert(microcontrollers * sensors == 0);
        assert(sensor_rows(steps) =~= fleet_sensors(microcontrollers, sensors));
    } else {
        let last = (microcontrollers - 1) as u16;
        lemma_seeding_rows(last, sensors);
        lemma_unit_rows(last, sensors);
        lemma_rows_concat(seeding_steps(last, sensors), unit_steps(last, sensors));
        assert(microcontroller_rows(steps) =~= fleet_microcontrollers(microcontrollers));
        let earlier = last * sensors;
        assert(earlier + sensors == microcontrollers * sensors && 0 <= earlier)
            by (nonlinear_arith)
            requires
                earlier == last * sensors,
                last + 1 == microcontrollers,
                0 <= last,
                0 <= sensors,
        ;
        let rows = sensor_rows(steps);
        let fleet = fleet_sensors(microcontrollers, sensors);
        assert(rows.len() == fleet.len());
        assert forall|i: int| 0 <= i < rows.len() implies rows[i] == fleet[i] by {
            if i < earlier {
                assert(rows[i] == fleet_sensors(last, sensors)[i]);
            } else {
                let s = i - earlier;
                assert(rows[i] == (last, s as u8));
                lemma_fundamental_div_mod_converse(i, sensors as int, last as int, s);
            }
        }
        assert(rows =~= fleet);
    }
}

/// An index into the sensor rows splits into a microcontroller id and a
/// sensor id, both within the counts.
proof fn lemma_split_index(i: int, microcontrollers: u16, sensors: u8)
    requires
        0 <= i < microcontrollers * sensors,
    ensures
        sensors > 0,
        0 <= i / (sensors as int) < microcontrollers,
        0 <= i % (sensors as int) < sensors,
        i == sensors * (i / (sensors as int)) + i % (sensors as int),
{
    assert(sensors > 0) by (nonlinear_arith)
        requires
            0 <= i < microcontrollers * sensors,
            0 <= sensors,
            0 <= microcontrollers,
    ;
    let d = sensors as int;
    lemma_fundamental_div_mod(i, d);
    lemma_mod_bound(i, d);
    let q = i / d;
    let r = i % d;
    assert(0 <= q < microcontrollers) by (nonlinear_arith)
        requires
            i == d * q + r,
            d == sensors,
            0 <= r < sensors,
            0 <= i < microcontrollers * sensors,
    ;
}

/// A run in which nothing fails leaves exactly the fleet behind.
///
/// The microcontroller table holds one row per microcontroller, with the ids
/// from zero upwards. The sensor table holds one row per microcontroller and
/// sensor: as many rows as the product of the two counts, every pair of ids
/// within the counts, and no pair twice.
pub proof fn lemma_provisioned_rows(microcontrollers: u16, sensors: u8)
    ensures
        microcontroller_rows(plan(microcontrollers, sensors)) == fleet_microcontrollers(
            microcontrollers,
        ),
        sensor_rows(plan(microcontrollers, sensors)) == fleet_sensors(microcontrollers, sensors),
        microcontroller_rows(plan(microcontrollers, sensors)).len() == microcontrollers,
        sensor_rows(plan(microcontrollers, sensors)).len() == microcontrollers * sensors,
        microcontroller_rows(plan(microcontrollers, sensors)).no_duplicates(),
        sensor_rows(plan(microcontrollers, sensors)).no_duplicates(),
        forall|i: int|
            0 <= i < microcontrollers ==> #[trigger] microcontroller_rows(
                plan(microcontrollers, sensors),
            )[i] == i,
        forall|i: int|
            0 <= i < microcontrollers * sensors ==> {
                let row = #[trigger] sensor_rows(plan(microcontrollers, sensors))[i];
                row.0 < microcontrollers && row.1 < sensors
            },
        forall|m_id: u16, s_id: u8|
            m_id < microcontrollers && s_id < sensors ==> #[trigger] sensor_rows(
                plan(microcontrollers, sensors),
            ).contains((m_id, s_id)),
{
    let opening = seq![Step::Connect, Step::CreateSchema];
    let seeding = seeding_steps(microcontrollers, sensors);
    let closing = seq![Step::Close];
    lemma_rows_concat(opening, seeding);
    lemma_rows_concat(opening + seeding, closing);
    lemma_seeding_rows(microcontrollers, sensors);
    assert(microcontroller_rows(opening) =~= Seq::<u16>::empty() && sensor_rows(opening)
        =~= Seq::<(u16, u8)>::empty()) by {
        assert(opening.drop_last() =~= seq![Step::Connect]);
        assert(seq![Step::Connect].drop_last() =~= Seq::<Step>::empty());
        reveal_with_fuel(microcontroller_rows, 3);
        reveal_with_fuel(sensor_rows, 3);
    }
    assert(microcontroller_rows(closing) =~= Seq::<u16>::empty() && sensor_rows(closing)
        =~= Seq::<(u16, u8)>::empty()) by {
        assert(closing.drop_last() =~= Seq::<Step>::empty());
        reveal_with_fuel(microcontroller_rows, 2);
        reveal_with_fuel(sensor_rows, 2);
    }
    let ids = microcontroller_rows(plan(microcontrollers, sensors));
    let pairs = sensor_rows(plan(microcontrollers, sensors));
    assert(ids =~= fleet_microcontrollers(microcontrollers));
    assert(pairs =~= fleet_sensors(microcontrollers, sensors));
    let total = microcontrollers * sensors;
    assert(0 <= total) by (nonlinear_arith)
        requires
            total == microcontrollers * sensors,
            0 <= microcontrollers,
            0 <= sensors,
    ;
    assert forall|i: int| 0 <= i < total implies {
        let row = #[trigger] pairs[i];
        row.0 < microcontrollers && row.1 < sensors
    } by {
        lemma_split_index(i, microcontrollers, sensors);
    }
    assert forall|i: int, j: int| 0 <= i < pairs.len() && 0 <= j < pairs.len() && i != j implies pairs[i]
        != pairs[j] by {
        lemma_split_index(i, microcontrollers, sensors);
        lemma_split_index(j, microcontrollers, sensors);
    }
    assert forall|m_id: u16, s_id: u8| m_id < microcontrollers && s_id < sensors implies #[trigger] pairs.contains(
        (m_id, s_id),
    ) by {
        let i = m_id * sensors + s_id;
        assert(0 <= i < total) by (nonlinear_arith)
            requires
                i == m_id * sensors + s_id,
                0 <= m_id,
                m_id + 1 <= microcontrollers,
                0 <= s_id < sensors,
                total == microcontrollers * sensors,
        ;
        lemma_fundamental_div_mod_converse(i, sensors as int, m_id as int, s_id as int);
        assert(pairs[i] == (m_id, s_id));
    }
}

} // verus!
