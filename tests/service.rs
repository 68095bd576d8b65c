use sync_engine::stock_out::{should_adjust_total_number_of_packs, StockOutType};
use sync_engine::inbound_shipment::{InvoiceStatus, UpdateInboundShipmentStatus};
use sync_engine::mock_stats::{item_1_soh, item_1_store_b_soh, item_2_soh};
use sync_engine::program_indicator::{
    program_indicators, IndicatorColumnRow, IndicatorLineRow, ProgramIndicatorRow,
};
use sync_engine::repository_error::RepositoryError;
use sync_engine::sensor::{generate, update_sensor, validate, NullableUpdate, SensorRow, UpdateSensor, UpdateSensorError};

fn s(v: &str) -> String {
    v.to_string()
}

#[test]
fn mock_stock_on_hand() {
    assert_eq!(item_1_soh(), 220);
    assert_eq!(item_1_store_b_soh(), 10);
    assert_eq!(item_2_soh(), 22);
}

#[test]
fn inbound_status_maps_to_invoice_status() {
    assert_eq!(UpdateInboundShipmentStatus::Delivered.full_status(), InvoiceStatus::Delivered);
    assert_eq!(UpdateInboundShipmentStatus::Verified.full_status(), InvoiceStatus::Verified);
}

#[test]
fn db_error_keeps_message_and_debug_detail() {
    let e = RepositoryError::as_db_error("query failed", 42);
    assert_eq!(e, RepositoryError::DBError { msg: s("query failed"), extra: s("42") });
}

fn sensor() -> SensorRow {
    SensorRow {
        id: s("S1"),
        name: s("fridge"),
        serial: s("123"),
        location_id: Some(s("L1")),
        store_id: s("store_a"),
        battery_level: Some(90),
        log_interval: None,
        is_active: true,
    }
}

fn blank_update() -> UpdateSensor {
    UpdateSensor { id: s("S1"), name: None, is_active: None, location_id: None, log_interval: None, battery_level: None }
}

#[test]
fn sensor_validation() {
    assert_eq!(validate(None, "store_a", &blank_update()), Err(UpdateSensorError::SensorDoesNotExist));
    assert_eq!(
        validate(Some(sensor()), "store_b", &blank_update()),
        Err(UpdateSensorError::SensorDoesNotBelongToCurrentStore)
    );
    assert_eq!(validate(Some(sensor()), "store_a", &blank_update()), Ok(sensor()));
}

#[test]
fn sensor_update_sets_given_fields() {
    let input = UpdateSensor {
        id: s("S1"),
        name: Some(s("freezer")),
        is_active: Some(false),
        location_id: Some(NullableUpdate { value: None }),
        log_interval: Some(5),
        battery_level: None,
    };
    let row = generate(input, sensor());
    assert_eq!(row.name, "freezer");
    assert!(!row.is_active);
    assert_eq!(row.location_id, None);
    assert_eq!(row.log_interval, Some(5));
    assert_eq!(row.battery_level, Some(90));
    assert_eq!(update_sensor(Some(sensor()), "store_a", blank_update()), Ok(sensor()));
}

#[test]
fn indicators_group_lines_and_columns() {
    let ind = |id: &str| ProgramIndicatorRow { id: s(id), program_id: s("p"), code: None, is_active: true };
    let line = |id: &str, pid: &str| IndicatorLineRow { id: s(id), program_indicator_id: s(pid), code: s(id) };
    let col = |id: &str, pid: &str| IndicatorColumnRow { id: s(id), program_indicator_id: s(pid), header: s(id) };
    let result = program_indicators(
        vec![ind("a"), ind("b")],
        vec![line("l1", "a"), line("l2", "b"), line("l3", "a"), line("l4", "a")],
        vec![col("c1", "a"), col("c2", "a"), col("c3", "b")],
    );
    assert_eq!(result.len(), 2);
    assert_eq!(result[0].lines.len(), 3);
    assert_eq!(result[1].lines.len(), 1);
    assert_eq!(result[0].lines.iter().flat_map(|l| l.columns.iter()).count(), 6);
    assert_eq!(result[0].lines[1].line.id, "l3");
    assert_eq!(result[1].lines[0].columns[0].id, "c3");
}

#[test]
fn total_packs_adjust_for_reductions_and_picked_invoices() {
    assert!(should_adjust_total_number_of_packs(InvoiceStatus::New, &StockOutType::InventoryReduction));
    assert!(should_adjust_total_number_of_packs(InvoiceStatus::Picked, &StockOutType::OutboundShipment));
    assert!(!should_adjust_total_number_of_packs(InvoiceStatus::Allocated, &StockOutType::OutboundShipment));
}
