use sqlx::sqlite::{SqliteConnectOptions, SqlitePoolOptions};
use sqlx::{Row, SqlitePool};
use womscp_server::config::ServerConfig;
use womscp_server::plan::Step;
use womscp_server::provision::{ProvisionError, Provisioner};

fn fleet(microcontrollers: u16, sensors: u8) -> ServerConfig {
    ServerConfig {
        address: "127.0.0.1:3000".to_string(),
        database: "sqlite::memory:".to_string(),
        microcontroller_count: microcontrollers,
        sensors_per_microcontroller: sensors,
    }
}

fn block_on<F: std::future::Future>(future: F) -> F::Output {
    tokio::runtime::Builder::new_current_thread()
        .enable_all()
        .build()
        .unwrap()
        .block_on(future)
}

/// One private in-memory database, kept alive by its single connection.
async fn open() -> SqlitePool {
    let options = SqliteConnectOptions::new().in_memory(true).foreign_keys(true);
    SqlitePoolOptions::new()
        .max_connections(1)
        .connect_with(options)
        .await
        .unwrap()
}

/// Executes the run step by step on a database that is open already.
async fn provision(pool: &SqlitePool, config: &ServerConfig) -> Result<(), ProvisionError> {
    let mut run = Provisioner::new(config);
    while let Some(step) = run.pending() {
        let outcome = match step.statement() {
            None => Ok(()),
            Some(sql) => {
                let mut query = sqlx::query(sql);
                for parameter in step.parameters() {
                    query = query.bind(parameter);
                }
                query.execute(pool).await.map(|_| ()).map_err(|error| error.to_string())
            }
        };
        run.advance(outcome);
    }
    run.outcome().unwrap()
}

async fn count(pool: &SqlitePool, table: &str) -> i64 {
    sqlx::query(&format!("SELECT COUNT(*) FROM {table}"))
        .fetch_one(pool)
        .await
        .unwrap()
        .get(0)
}

async fn microcontrollers(pool: &SqlitePool) -> Vec<i64> {
    sqlx::query("SELECT id FROM Microcontrollers ORDER BY id")
        .fetch_all(pool)
        .await
        .unwrap()
        .iter()
        .map(|row| row.get(0))
        .collect()
}

async fn sensors(pool: &SqlitePool) -> Vec<(i64, i64)> {
    sqlx::query("SELECT m_id, s_id FROM Sensors ORDER BY m_id, s_id")
        .fetch_all(pool)
        .await
        .unwrap()
        .iter()
        .map(|row| (row.get(0), row.get(1)))
        .collect()
}

#[test]
fn provisioned_database_holds_the_fleet() {
    block_on(async {
        let pool = open().await;
        assert_eq!(provision(&pool, &fleet(3, 2)).await, Ok(()));
        assert_eq!(microcontrollers(&pool).await, vec![0, 1, 2]);
        assert_eq!(
            sensors(&pool).await,
            vec![(0, 0), (0, 1), (1, 0), (1, 1), (2, 0), (2, 1)]
        );
        assert_eq!(count(&pool, "SensorData").await, 0);
    });
}

#[test]
fn provisioned_database_of_an_empty_fleet_holds_empty_tables() {
    block_on(async {
        let pool = open().await;
        assert_eq!(provision(&pool, &fleet(0, 4)).await, Ok(()));
        assert_eq!(count(&pool, "Microcontrollers").await, 0);
        assert_eq!(count(&pool, "Sensors").await, 0);
        assert_eq!(count(&pool, "SensorData").await, 0);
    });
}

#[test]
fn provisioning_twice_fails_and_duplicates_nothing() {
    block_on(async {
        let pool = open().await;
        assert_eq!(provision(&pool, &fleet(2, 3)).await, Ok(()));
        let again = provision(&pool, &fleet(2, 3)).await;
        assert!(matches!(again, Err(ProvisionError::Schema { .. })));
        assert_eq!(count(&pool, "Microcontrollers").await, 2);
        assert_eq!(count(&pool, "Sensors").await, 6);
    });
}

#[test]
fn sensor_without_its_microcontroller_is_refused() {
    block_on(async {
        let pool = open().await;
        assert_eq!(provision(&pool, &fleet(1, 1)).await, Ok(()));
        let orphan = Step::InsertSensor { m_id: 9, s_id: 0 };
        let mut query = sqlx::query(orphan.statement().unwrap());
        for parameter in orphan.parameters() {
            query = query.bind(parameter);
        }
        assert!(query.execute(&pool).await.is_err());
        assert_eq!(count(&pool, "Sensors").await, 1);
    });
}

#[test]
fn deleting_a_microcontroller_deletes_its_sensors_and_readings() {
    block_on(async {
        let pool = open().await;
        assert_eq!(provision(&pool, &fleet(2, 2)).await, Ok(()));
        for (m_id, s_id) in [(0, 0), (0, 1), (1, 0)] {
            sqlx::query(
                "INSERT INTO SensorData(timepoint, m_id, s_id, sensor_type, sensor_data, dummy) \
                 VALUES('2024-01-01T00:00:00', $1, $2, 1, 20, 0)",
            )
            .bind(m_id)
            .bind(s_id)
            .execute(&pool)
            .await
            .unwrap();
        }
        assert_eq!(count(&pool, "SensorData").await, 3);
        sqlx::query("DELETE FROM Microcontrollers WHERE id = 0")
            .execute(&pool)
            .await
            .unwrap();
        assert_eq!(microcontrollers(&pool).await, vec![1]);
        assert_eq!(sensors(&pool).await, vec![(1, 0), (1, 1)]);
        assert_eq!(count(&pool, "SensorData").await, 1);
    });
}

#[test]
fn deleting_a_sensor_deletes_its_readings() {
    block_on(async {
        let pool = open().await;
        assert_eq!(provision(&pool, &fleet(1, 2)).await, Ok(()));
        for s_id in [0, 1] {
            sqlx::query(
                "INSERT INTO SensorData(timepoint, m_id, s_id, sensor_type, sensor_data, dummy) \
                 VALUES('2024-01-01T00:00:00', 0, $1, 1, 20, 1)",
            )
            .bind(s_id)
            .execute(&pool)
            .await
            .unwrap();
        }
        sqlx::query("DELETE FROM Sensors WHERE m_id = 0 AND s_id = 1")
            .execute(&pool)
            .await
            .unwrap();
        assert_eq!(sensors(&pool).await, vec![(0, 0)]);
        assert_eq!(count(&pool, "SensorData").await, 1);
    });
}
