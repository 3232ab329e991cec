use womscp_server::config::ServerConfig;
use womscp_server::plan::Step;
use womscp_server::provision::{ProvisionError, Provisioner};
use womscp_server::schema::{CREATE_SCHEMA, INSERT_MICROCONTROLLER, INSERT_SENSOR};

fn fleet(microcontrollers: u16, sensors: u8) -> ServerConfig {
    ServerConfig {
        address: "127.0.0.1:3000".to_string(),
        database: "sqlite:w_orchid.db".to_string(),
        microcontroller_count: microcontrollers,
        sensors_per_microcontroller: sensors,
    }
}

/// Runs to the end with every step succeeding and returns the steps.
fn successful_run(microcontrollers: u16, sensors: u8) -> Vec<Step> {
    let mut run = Provisioner::new(&fleet(microcontrollers, sensors));
    let mut steps = Vec::new();
    while let Some(step) = run.pending() {
        steps.push(step);
        run.advance(Ok(()));
    }
    assert_eq!(run.outcome(), Some(Ok(())));
    steps
}

/// Runs with successes until `failing` is pending, and fails that step.
fn run_failing_at(microcontrollers: u16, sensors: u8, failing: Step) -> Provisioner {
    let mut run = Provisioner::new(&fleet(microcontrollers, sensors));
    while let Some(step) = run.pending() {
        if step == failing {
            run.advance(Err("refused".to_string()));
            return run;
        }
        run.advance(Ok(()));
    }
    panic!("the step never came up");
}

fn microcontroller(m_id: u16) -> Step {
    Step::InsertMicrocontroller { m_id }
}

fn sensor(m_id: u16, s_id: u8) -> Step {
    Step::InsertSensor { m_id, s_id }
}

#[test]
fn run_starts_by_connecting() {
    let run = Provisioner::new(&fleet(1, 2));
    assert_eq!(run.pending(), Some(Step::Connect));
    assert_eq!(run.outcome(), None);
}

#[test]
fn default_fleet_is_seeded_in_order() {
    assert_eq!(
        successful_run(1, 2),
        vec![
            Step::Connect,
            Step::CreateSchema,
            microcontroller(0),
            sensor(0, 0),
            sensor(0, 1),
            Step::Close,
        ]
    );
}

#[test]
fn seeding_is_microcontroller_major_and_sensor_minor() {
    assert_eq!(
        successful_run(2, 3),
        vec![
            Step::Connect,
            Step::CreateSchema,
            microcontroller(0),
            sensor(0, 0),
            sensor(0, 1),
            sensor(0, 2),
            microcontroller(1),
            sensor(1, 0),
            sensor(1, 1),
            sensor(1, 2),
            Step::Close,
        ]
    );
}

#[test]
fn fleet_without_microcontrollers_inserts_nothing() {
    assert_eq!(successful_run(0, 2), vec![Step::Connect, Step::CreateSchema, Step::Close]);
    assert_eq!(successful_run(0, 0), vec![Step::Connect, Step::CreateSchema, Step::Close]);
}

#[test]
fn fleet_without_sensors_inserts_microcontrollers_only() {
    assert_eq!(
        successful_run(3, 0),
        vec![
            Step::Connect,
            Step::CreateSchema,
            microcontroller(0),
            microcontroller(1),
            microcontroller(2),
            Step::Close,
        ]
    );
}

#[test]
fn every_pair_of_the_fleet_is_inserted_exactly_once() {
    let steps = successful_run(7, 5);
    assert_eq!(steps.len(), 7 * (5 + 1) + 3);
    let ids: Vec<u16> = steps
        .iter()
        .filter_map(|step| match step {
            Step::InsertMicrocontroller { m_id } => Some(*m_id),
            _ => None,
        })
        .collect();
    assert_eq!(ids, vec![0, 1, 2, 3, 4, 5, 6]);
    let pairs: Vec<(u16, u8)> = steps
        .iter()
        .filter_map(|step| match step {
            Step::InsertSensor { m_id, s_id } => Some((*m_id, *s_id)),
            _ => None,
        })
        .collect();
    assert_eq!(pairs.len(), 35);
    for (index, pair) in pairs.iter().enumerate() {
        assert_eq!(*pair, ((index / 5) as u16, (index % 5) as u8));
    }
}

#[test]
fn microcontroller_row_precedes_the_rows_of_its_sensors() {
    let steps = successful_run(4, 3);
    for (at, step) in steps.iter().enumerate() {
        if let Step::InsertSensor { m_id, .. } = step {
            let parent = steps.iter().position(|s| *s == microcontroller(*m_id)).unwrap();
            assert!(parent < at);
        }
    }
}

#[test]
fn widest_sensor_count_is_walked_through() {
    let steps = successful_run(2, 255);
    assert_eq!(steps.len(), 2 * 256 + 3);
    assert_eq!(steps[2], microcontroller(0));
    assert_eq!(steps[2 + 255], sensor(0, 254));
    assert_eq!(steps[2 + 256], microcontroller(1));
    assert_eq!(steps[2 + 256 + 255], sensor(1, 254));
    assert_eq!(steps[2 + 512], Step::Close);
}

#[test]
fn highest_microcontroller_id_is_reached() {
    let steps = successful_run(65535, 0);
    assert_eq!(steps.len(), 65535 + 3);
    assert_eq!(steps[2 + 65534], microcontroller(65534));
    assert_eq!(steps[steps.len() - 1], Step::Close);
}

#[test]
fn failed_connection_ends_the_run() {
    let run = run_failing_at(1, 2, Step::Connect);
    assert_eq!(run.pending(), None);
    assert_eq!(
        run.outcome(),
        Some(Err(ProvisionError::Connection { message: "refused".to_string() }))
    );
}

#[test]
fn failed_schema_creation_inserts_no_row() {
    let mut run = Provisioner::new(&fleet(3, 2));
    run.advance(Ok(()));
    assert_eq!(run.pending(), Some(Step::CreateSchema));
    run.advance(Err("table Microcontrollers already exists".to_string()));
    assert_eq!(run.pending(), None);
    assert_eq!(
        run.outcome(),
        Some(Err(ProvisionError::Schema {
            message: "table Microcontrollers already exists".to_string()
        }))
    );
}

#[test]
fn failed_microcontroller_insert_names_its_id() {
    let run = run_failing_at(3, 2, microcontroller(1));
    assert_eq!(run.pending(), None);
    assert_eq!(
        run.outcome(),
        Some(Err(ProvisionError::Microcontroller { m_id: 1, message: "refused".to_string() }))
    );
}

#[test]
fn failed_sensor_insert_names_both_ids() {
    let run = run_failing_at(3, 4, sensor(2, 3));
    assert_eq!(run.pending(), None);
    assert_eq!(
        run.outcome(),
        Some(Err(ProvisionError::Sensor { m_id: 2, s_id: 3, message: "refused".to_string() }))
    );
}

#[test]
fn nothing_moves_a_run_that_has_failed() {
    let mut run = run_failing_at(2, 2, sensor(0, 1));
    run.advance(Ok(()));
    assert_eq!(run.pending(), None);
    run.advance(Err("again".to_string()));
    assert_eq!(
        run.outcome(),
        Some(Err(ProvisionError::Sensor { m_id: 0, s_id: 1, message: "refused".to_string() }))
    );
}

#[test]
fn nothing_moves_a_run_that_has_finished() {
    let mut run = Provisioner::new(&fleet(0, 0));
    run.advance(Ok(()));
    run.advance(Ok(()));
    assert_eq!(run.pending(), Some(Step::Close));
    run.advance(Ok(()));
    assert_eq!(run.pending(), None);
    run.advance(Err("late".to_string()));
    run.advance(Ok(()));
    assert_eq!(run.pending(), None);
    assert_eq!(run.outcome(), Some(Ok(())));
}

#[test]
fn releasing_the_connection_cannot_fail_the_run() {
    let run = run_failing_at(1, 1, Step::Close);
    assert_eq!(run.pending(), None);
    assert_eq!(run.outcome(), Some(Ok(())));
}

#[test]
fn outcome_is_open_while_a_step_is_pending() {
    let mut run = Provisioner::new(&fleet(1, 1));
    run.advance(Ok(()));
    run.advance(Ok(()));
    assert_eq!(run.pending(), Some(microcontroller(0)));
    assert_eq!(run.outcome(), None);
}

#[test]
fn steps_carry_their_statements() {
    assert_eq!(Step::Connect.statement(), None);
    assert_eq!(Step::Close.statement(), None);
    assert_eq!(Step::CreateSchema.statement(), Some(CREATE_SCHEMA));
    assert_eq!(microcontroller(4).statement(), Some("INSERT INTO Microcontrollers VALUES($1)"));
    assert_eq!(microcontroller(4).statement(), Some(INSERT_MICROCONTROLLER));
    assert_eq!(sensor(4, 1).statement(), Some("INSERT INTO Sensors VALUES($1, $2)"));
    assert_eq!(sensor(4, 1).statement(), Some(INSERT_SENSOR));
}

#[test]
fn steps_carry_their_parameters() {
    assert_eq!(Step::Connect.parameters(), Vec::<u16>::new());
    assert_eq!(Step::CreateSchema.parameters(), Vec::<u16>::new());
    assert_eq!(Step::Close.parameters(), Vec::<u16>::new());
    assert_eq!(microcontroller(300).parameters(), vec![300]);
    assert_eq!(sensor(300, 255).parameters(), vec![300, 255]);
}

#[test]
fn schema_names_the_three_tables_with_cascading_keys() {
    let tables: Vec<usize> = ["Microcontrollers(", "Sensors(", "SensorData("]
        .iter()
        .map(|table| CREATE_SCHEMA.find(&format!("CREATE TABLE {table}")).unwrap())
        .collect();
    assert!(tables[0] < tables[1] && tables[1] < tables[2]);
    assert_eq!(CREATE_SCHEMA.matches("ON DELETE CASCADE").count(), 3);
    assert!(CREATE_SCHEMA.contains("PRIMARY KEY (m_id, s_id)"));
    assert!(CREATE_SCHEMA
        .contains("FOREIGN KEY (m_id, s_id) REFERENCES Sensors(m_id, s_id) ON DELETE CASCADE"));
    for column in ["timepoint TEXT", "sensor_type INT", "sensor_data INT", "dummy BOOLEAN"] {
        assert!(CREATE_SCHEMA.contains(&format!("{column} NOT NULL")));
    }
}
