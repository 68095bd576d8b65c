use vstd::prelude::*;
use crate::repository_error::RepositoryError;

verus! {

#[derive(Clone, Copy, Debug, PartialEq, Eq, Structural)]
pub enum InvoiceStatus {
    New,
    Allocated,
    Picked,
    Shipped,
    Delivered,
    Verified,
}

/// The statuses an inbound shipment may be moved to.
#[derive(Clone, Copy, Debug, PartialEq, Eq, Structural)]
pub enum UpdateInboundShipmentStatus {
    Delivered,
    Verified,
}

impl UpdateInboundShipmentStatus {
    pub fn full_status(&self) -> (r: InvoiceStatus)
        ensures
            r == match self {
                UpdateInboundShipmentStatus::Delivered => InvoiceStatus::Delivered,
                UpdateInboundShipmentStatus::Verified => InvoiceStatus::Verified,
            },
    {
        match self {
            UpdateInboundShipmentStatus::Delivered => InvoiceStatus::Delivered,
            UpdateInboundShipmentStatus::Verified => InvoiceStatus::Verified,
        }
    }
}

#[derive(Debug, PartialEq)]
pub enum UpdateInboundShipmentError {
    InvoiceDoesNotExist,
    NotAnInboundShipment,
    NotThisStoreInvoice,
    CannotReverseInvoiceStatus,
    CannotEditFinalised,
    CannotChangeStatusOfInvoiceOnHold,
    CannotIssueForeignCurrencyForInternalSuppliers,
    OtherPartyDoesNotExist,
    OtherPartyNotVisible,
    OtherPartyNotASupplier,
    DatabaseError(RepositoryError),
    UpdatedInvoiceDoesNotExist,
}

/// A request to delete a line of an inbound shipment.
#[derive(Debug, PartialEq, Eq, Default)]
pub struct DeleteInboundShipmentLine {
    pub id: String,
    pub invoice_id: String,
}

#[derive(Debug, PartialEq)]
pub enum DeleteInboundShipmentLineError {
    LineDoesNotExist,
    DatabaseError(RepositoryError),
    InvoiceDoesNotExist,
    NotAnInboundShipment,
    NotThisStoreInvoice,
    CannotEditFinalised,
    BatchIsReserved,
    NotThisInvoiceLine(String),
}

#[derive(Debug, PartialEq)]
pub enum UpdateAssetError {
    AssetDoesNotExist,
    AssetDoesNotBelongToCurrentStore,
    SerialNumberAlreadyExists,
    UpdatedRecordNotFound,
    DatabaseError(RepositoryError),
    LocationsAlreadyAssigned,
}

} // verus!
