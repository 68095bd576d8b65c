use vstd::prelude::*;
use crate::repository_error::RepositoryError;

verus! {

/// An update of a field that may be cleared: `value: None` clears it.
#[derive(Debug, PartialEq, Eq)]
pub struct NullableUpdate<T> {
    pub value: Option<T>,
}

#[derive(Debug, PartialEq, Eq)]
pub struct SensorRow {
    pub id: String,
    pub name: String,
    pub serial: String,
    pub location_id: Option<String>,
    pub store_id: String,
    pub battery_level: Option<i32>,
    pub log_interval: Option<i32>,
    pub is_active: bool,
}

#[derive(Debug, PartialEq)]
pub enum UpdateSensorError {
    SensorDoesNotExist,
    SensorDoesNotBelongToCurrentStore,
    UpdatedRecordNotFound,
    LocationIsOnHold,
    DatabaseError(RepositoryError),
}

#[derive(Debug)]
pub struct UpdateSensor {
    pub id: String,
    pub name: Option<String>,
    pub is_active: Option<bool>,
    pub location_id: Option<NullableUpdate<String>>,
    pub log_interval: Option<i32>,
    pub battery_level: Option<i32>,
}

/// Checks an update against the stored sensor it names (`None` when there is none).
pub fn validate(sensor_row: Option<SensorRow>, store_id: &str, input: &UpdateSensor) -> (r: Result<
    SensorRow,
    UpdateSensorError,
>)
    ensures
        match sensor_row {
            None => r == Err::<SensorRow, UpdateSensorError>(UpdateSensorError::SensorDoesNotExist),
            Some(row) => if row.store_id@ != store_id@ {
                r == Err::<SensorRow, UpdateSensorError>(
                    UpdateSensorError::SensorDoesNotBelongToCurrentStore,
                )
            } else {
                r == Ok::<SensorRow, UpdateSensorError>(row)
            },
        },
{
    let row = match sensor_row {
        Some(row) => row,
        None => { return Err(UpdateSensorError::SensorDoesNotExist); },
    };
    if row.store_id != crate::text::text(store_id) {
        return Err(UpdateSensorError::SensorDoesNotBelongToCurrentStore);
    }
    Ok(row)
}

/// The sensor row after an update: each given field replaces the stored one, a given
/// location update sets the location (clearing it when its value is `None`).
pub fn generate(input: UpdateSensor, sensor_row: SensorRow) -> (r: SensorRow)
    ensures
        r.id == sensor_row.id,
        r.serial == sensor_row.serial,
        r.store_id == sensor_row.store_id,
        r.name == match input.name {
            Some(n) => n,
            None => sensor_row.name,
        },
        r.is_active == match input.is_active {
            Some(a) => a,
            None => sensor_row.is_active,
        },
        r.location_id == match input.location_id {
            Some(u) => u.value,
            None => sensor_row.location_id,
        },
        r.log_interval == match input.log_interval {
            Some(v) => Some(v),
            None => sensor_row.log_interval,
        },
        r.battery_level == match input.battery_level {
            Some(v) => Some(v),
            None => sensor_row.battery_level,
        },
{
    let UpdateSensor { id: _, name, is_active, location_id, log_interval, battery_level } = input;
    let mut sensor_row = sensor_row;
    if let Some(location_id) = location_id {
        sensor_row.location_id = location_id.value;
    }
    sensor_row.name = match name {
        Some(n) => n,
        None => sensor_row.name,
    };
    sensor_row.is_active = match is_active {
        Some(a) => a,
        None => sensor_row.is_active,
    };
    sensor_row.log_interval = match log_interval {
        Some(v) => Some(v),
        None => sensor_row.log_interval,
    };
    sensor_row.battery_level = match battery_level {
        Some(v) => Some(v),
        None => sensor_row.battery_level,
    };
    sensor_row
}

/// Decides an update of a sensor: the row to store, or why the update is refused.
pub fn update_sensor(sensor_row: Option<SensorRow>, store_id: &str, input: UpdateSensor) -> (r: Result<
    SensorRow,
    UpdateSensorError,
>)
    ensures
        match sensor_row {
            None => r == Err::<SensorRow, UpdateSensorError>(UpdateSensorError::SensorDoesNotExist),
            Some(row) => if row.store_id@ != store_id@ {
                r == Err::<SensorRow, UpdateSensorError>(
                    UpdateSensorError::SensorDoesNotBelongToCurrentStore,
                )
            } else {
                r matches Ok(updated) && updated.id == row.id && updated.store_id == row.store_id
                    && updated.serial == row.serial && updated.name == match input.name {
                    Some(n) => n,
                    None => row.name,
                } && updated.is_active == match input.is_active {
                    Some(a) => a,
                    None => row.is_active,
                } && updated.location_id == match input.location_id {
                    Some(u) => u.value,
                    None => row.location_id,
                } && updated.log_interval == match input.log_interval {
                    Some(v) => Some(v),
                    None => row.log_interval,
                } && updated.battery_level == match input.battery_level {
                    Some(v) => Some(v),
                    None => row.battery_level,
                }
            },
        },
{
    let row = validate(sensor_row, store_id, &input)?;
    Ok(generate(input, row))
}

} // verus!
