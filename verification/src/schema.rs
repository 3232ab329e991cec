//! The SQL text of the statements that provisioning executes.

use crate::plan::Step;
use vstd::prelude::*;

verus! {

/// Creates the three tables, parents before children.
///
/// Sensors belong to a microcontroller and readings to a sensor; deleting a
/// parent row deletes the rows that refer to it.
pub const CREATE_SCHEMA: &'static str = "\
CREATE TABLE Microcontrollers(
    id INTEGER PRIMARY KEY AUTOINCREMENT);

CREATE TABLE Sensors(
    m_id INT NOT NULL,
    s_id INT NOT NULL,
    PRIMARY KEY (m_id, s_id),
    FOREIGN KEY (m_id) REFERENCES Microcontrollers(id) ON DELETE CASCADE);

CREATE TABLE SensorData(
    id INTEGER PRIMARY KEY AUTOINCREMENT,
    timepoint TEXT NOT NULL,
    m_id INT NOT NULL,
    s_id INT NOT NULL,
    sensor_type INT NOT NULL,
    sensor_data INT NOT NULL,
    dummy BOOLEAN NOT NULL,
    FOREIGN KEY (m_id, s_id) REFERENCES Sensors(m_id, s_id) ON DELETE CASCADE,
    FOREIGN KEY (m_id) REFERENCES Microcontrollers(id) ON DELETE CASCADE);
";

/// Inserts one microcontroller; the parameter is its id.
pub const INSERT_MICROCONTROLLER: &'static str = "INSERT INTO Microcontrollers VALUES($1)";

/// Inserts one sensor; the parameters are the microcontroller id and the
/// sensor id.
pub const INSERT_SENSOR: &'static str = "INSERT INTO Sensors VALUES($1, $2)";

/// The SQL text that a step executes, if it executes any.
pub open spec fn statement_text(step: Step) -> Option<Seq<char>> {
    match step {
        Step::CreateSchema => Some(CREATE_SCHEMA@),
        Step::InsertMicrocontroller { .. } => Some(INSERT_MICROCONTROLLER@),
        Step::InsertSensor { .. } => Some(INSERT_SENSOR@),
        Step::Connect | Step::Close => None,
    }
}

/// The parameters that a step binds to its statement, in order.
pub open spec fn statement_parameters(step: Step) -> Seq<u16> {
    match step {
        Step::InsertMicrocontroller { m_id } => seq![m_id],
        Step::InsertSensor { m_id, s_id } => seq![m_id, s_id as u16],
        _ => Seq::empty(),
    }
}

impl Step {
    /// The SQL text to execute for this step; `None` for the steps that open
    /// and release the connection.
    pub fn statement(&self) -> (sql: Option<&'static str>)
        ensures
            match sql {
                Some(text) => statement_text(*self) == Some(text@),
                None => statement_text(*self) is None,
            },
    {
        match self {
            Step::CreateSchema => Some(CREATE_SCHEMA),
            Step::InsertMicrocontroller { .. } => Some(INSERT_MICROCONTROLLER),
            Step::InsertSensor { .. } => Some(INSERT_SENSOR),
            Step::Connect | Step::Close => None,
        }
    }

    /// The parameters to bind to the statement of this step, in order.
    pub fn parameters(&self) -> (bound: Vec<u16>)
        ensures
            bound@ == statement_parameters(*self),
    {
        let mut bound = Vec::new();
        match *self {
            Step::InsertMicrocontroller { m_id } => {
                bound.push(m_id);
            },
            Step::InsertSensor { m_id, s_id } => {
                bound.push(m_id);
                bound.push(s_id as u16);
            },
            _ => {},
        }
        bound
    }
}

} // verus!
