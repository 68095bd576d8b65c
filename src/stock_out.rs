use vstd::prelude::*;
use crate::inbound_shipment::InvoiceStatus;

verus! {

/// The kinds of stock-out lines.
#[derive(Clone, Copy, Debug, PartialEq, Eq, Structural)]
pub enum StockOutType {
    OutboundShipment,
    Prescription,
    InventoryReduction,
    SupplierReturn,
}

/// Whether issuing stock also lowers a batch's total packs, not only its available packs:
/// always for an inventory reduction, otherwise once the invoice is picked.
pub fn should_adjust_total_number_of_packs(status: InvoiceStatus, out_type: &StockOutType) -> (r:
    bool)
    ensures
        r == (*out_type == StockOutType::InventoryReduction || status == InvoiceStatus::Picked),
{
    match out_type {
        StockOutType::InventoryReduction => true,
        _ => status == InvoiceStatus::Picked,
    }
}

} // verus!
