//! Lifecycle tracking for medical devices: registration, implantation into patients,
//! maintenance, removal, performance reports, and recalls with the discovery of the
//! patients they affect.
//!
//! A [`MedicalDeviceRegistry`] holds every record and the indices that relate them.
//! Its operations either succeed and change it as their contracts say, or fail with an
//! [`Error`] and leave it as it was. Records are numbered from 1 in the order of their
//! creation and are never deleted; an implant is active until its removal is recorded,
//! and inactive from then on.
//!
//! The registry is kept by a host, which is responsible for two things that the
//! registry does not do itself: verifying the identity that gates an operation, which
//! it attests with an [`IdentityProof`], and keeping the registry between operations.
//!
//! * [`types`]: the records, and what each holds.
//! * [`index`]: append-only indices from a key to a list of identifiers.
//! * [`state`]: what a registry holds, what each operation makes of it and what each
//!   query reads from it.
//! * [`registry`]: the registry and its operations.
//! * [`history`]: how a registry may change over time.
//! * [`validity`]: what holds of every registry that the operations can produce.
//! * [`laws`]: laws that relate the operations to one another.

pub mod history;
pub mod index;
pub mod laws;
pub mod registry;
pub mod state;
pub mod types;
pub mod validity;

pub use registry::MedicalDeviceRegistry;
pub use state::RegistryView;
pub use types::{
    Address, DeviceRecord, DmePrescription, Error, IdentityProof, ImplantRecord,
    MaintenanceRecord, PerformanceReport, RecallInfo,
};
