//! The records the registry keeps, and the mathematical view of each.

use vstd::prelude::*;

verus! {

/// Why an operation was refused.
#[derive(Clone, Copy, Debug, PartialEq, Eq, Structural)]
pub enum Error {
    /// The identity that gates the operation could not be verified. The host reports
    /// this when its verification fails; the operations of the registry, which are
    /// handed a proof of identity, never do.
    NotAuthorized,
    /// The identifier names no stored record.
    RecordNotFound,
    /// The implant has already been removed.
    DeviceNotActive,
}

/// An identity: a patient, a provider, a technician or a manufacturer, by the text
/// under which the host knows it.
#[derive(Debug, PartialEq, Eq)]
pub struct Address(pub String);

impl View for Address {
    type V = Seq<char>;

    open spec fn view(&self) -> Seq<char> {
        self.0@
    }
}

impl Clone for Address {
    fn clone(&self) -> (copy: Self)
        ensures
            copy@ == self@,
    {
        Address(self.0.clone())
    }
}

impl Address {
    /// Whether two addresses name the same identity.
    pub fn same(&self, other: &Address) -> (equal: bool)
        ensures
            equal == (self@ == other@),
    {
        self.0 == other.0
    }
}

/// Confirmation that the caller of the operation in progress controls an identity.
///
/// The registry does not verify identities itself. Its host does, and builds a proof
/// with [`IdentityProof::confirmed`] once the verification has passed; the operations
/// that are gated by an identity take the proof in place of the bare address.
#[derive(Debug, PartialEq, Eq)]
pub struct IdentityProof {
    identity: Address,
}

impl Clone for IdentityProof {
    fn clone(&self) -> (copy: Self)
        ensures
            copy.subject() == self.subject(),
    {
        IdentityProof { identity: self.identity.clone() }
    }
}

impl IdentityProof {
    /// The identity that was confirmed.
    pub closed spec fn subject(&self) -> Seq<char> {
        self.identity@
    }

    /// Records that the host has confirmed `identity` for the operation in progress.
    pub fn confirmed(identity: Address) -> (proof_of: IdentityProof)
        ensures
            proof_of.subject() == identity@,
    {
        IdentityProof { identity }
    }

    /// Gives up the proof for the address it was about.
    pub fn into_address(self) -> (identity: Address)
        ensures
            identity@ == self.subject(),
    {
        self.identity
    }
}

/// The text of an optional string.
pub open spec fn text_of(text: Option<String>) -> Option<Seq<char>> {
    match text {
        Some(t) => Some(t@),
        None => None,
    }
}

/// The bytes of an optional content hash.
pub open spec fn hash_of(hash: Option<[u8; 32]>) -> Option<Seq<u8>> {
    match hash {
        Some(h) => Some(h@),
        None => None,
    }
}

/// The texts of an optional list of strings, in order.
pub open spec fn texts_of(texts: Option<Vec<String>>) -> Option<Seq<Seq<char>>> {
    match texts {
        Some(list) => Some(list@.map_values(|t: String| t@)),
        None => None,
    }
}

fn clone_text(text: &Option<String>) -> (copy: Option<String>)
    ensures
        text_of(copy) == text_of(*text),
{
    match text {
        Some(t) => Some(t.clone()),
        None => None,
    }
}

fn clone_texts(texts: &Option<Vec<String>>) -> (copy: Option<Vec<String>>)
    ensures
        texts_of(copy) == texts_of(*texts),
{
    match texts {
        Some(list) => {
            let copied = list.clone();
            assert(copied@ =~= list@);
            Some(copied)
        },
        None => None,
    }
}

fn clone_ids(ids: &Vec<u64>) -> (copy: Vec<u64>)
    ensures
        copy@ == ids@,
{
    let copy = ids.clone();
    assert(copy@ =~= ids@);
    copy
}

/// The descriptor of a registered device. Written once, never changed.
#[derive(Debug, PartialEq, Eq)]
pub struct DeviceRecord {
    pub device_id: u64,
    pub device_udi: String,
    pub device_type: String,
    pub manufacturer: String,
    pub model_number: String,
    pub lot_number: String,
    pub manufacturing_date: u64,
    pub expiration_date: Option<u64>,
    pub device_specs_hash: [u8; 32],
}

/// What a [`DeviceRecord`] holds.
pub struct DeviceRecordView {
    pub device_id: u64,
    pub device_udi: Seq<char>,
    pub device_type: Seq<char>,
    pub manufacturer: Seq<char>,
    pub model_number: Seq<char>,
    pub lot_number: Seq<char>,
    pub manufacturing_date: u64,
    pub expiration_date: Option<u64>,
    pub device_specs_hash: Seq<u8>,
}

impl View for DeviceRecord {
    type V = DeviceRecordView;

    open spec fn view(&self) -> DeviceRecordView {
        DeviceRecordView {
            device_id: self.device_id,
            device_udi: self.device_udi@,
            device_type: self.device_type@,
            manufacturer: self.manufacturer@,
            model_number: self.model_number@,
            lot_number: self.lot_number@,
            manufacturing_date: self.manufacturing_date,
            expiration_date: self.expiration_date,
            device_specs_hash: self.device_specs_hash@,
        }
    }
}

impl Clone for DeviceRecord {
    fn clone(&self) -> (copy: Self)
        ensures
            copy@ == self@,
    {
        DeviceRecord {
            device_id: self.device_id,
            device_udi: self.device_udi.clone(),
            device_type: self.device_type.clone(),
            manufacturer: self.manufacturer.clone(),
            model_number: self.model_number.clone(),
            lot_number: self.lot_number.clone(),
            manufacturing_date: self.manufacturing_date,
            expiration_date: self.expiration_date,
            device_specs_hash: self.device_specs_hash,
        }
    }
}

/// One implantation and what became of it. Created active; removal is recorded once
/// and is final.
#[derive(Debug, PartialEq, Eq)]
pub struct ImplantRecord {
    pub implant_record_id: u64,
    pub patient_id: Address,
    pub device_id: u64,
    pub implant_date: u64,
    pub implant_location: String,
    pub implanting_provider: Address,
    pub surgical_notes_hash: [u8; 32],
    pub is_active: bool,
    pub removal_date: Option<u64>,
    pub removal_reason: Option<String>,
    pub explant_analysis_hash: Option<[u8; 32]>,
    pub maintenance_history: Vec<u64>,
}

/// What an [`ImplantRecord`] holds.
pub struct ImplantRecordView {
    pub implant_record_id: u64,
    pub patient_id: Seq<char>,
    pub device_id: u64,
    pub implant_date: u64,
    pub implant_location: Seq<char>,
    pub implanting_provider: Seq<char>,
    pub surgical_notes_hash: Seq<u8>,
    pub is_active: bool,
    pub removal_date: Option<u64>,
    pub removal_reason: Option<Seq<char>>,
    pub explant_analysis_hash: Option<Seq<u8>>,
    pub maintenance_history: Seq<u64>,
}

impl ImplantRecordView {
    /// The flag and the removal fields agree: an active implant carries no trace of a
    /// removal, a removed one carries its date and reason.
    pub open spec fn coherent(self) -> bool {
        if self.is_active {
            self.removal_date is None && self.removal_reason is None
                && self.explant_analysis_hash is None
        } else {
            self.removal_date is Some && self.removal_reason is Some
        }
    }

    /// This implant after its removal was recorded.
    pub open spec fn removed(
        self,
        removal_date: u64,
        removal_reason: Seq<char>,
        explant_analysis_hash: Option<Seq<u8>>,
    ) -> ImplantRecordView {
        ImplantRecordView {
            is_active: false,
            removal_date: Some(removal_date),
            removal_reason: Some(removal_reason),
            explant_analysis_hash,
            ..self
        }
    }

    /// Whether this may be what became of `earlier`: what identifies an implant never
    /// changes, its maintenance history only grows at the end, and a removal, once
    /// recorded, stays as it was recorded.
    pub open spec fn follows(self, earlier: ImplantRecordView) -> bool {
        &&& self.implant_record_id == earlier.implant_record_id
        &&& self.patient_id == earlier.patient_id
        &&& self.device_id == earlier.device_id
        &&& self.implant_date == earlier.implant_date
        &&& self.implant_location == earlier.implant_location
        &&& self.implanting_provider == earlier.implanting_provider
        &&& self.surgical_notes_hash == earlier.surgical_notes_hash
        &&& earlier.maintenance_history.is_prefix_of(self.maintenance_history)
        &&& !earlier.is_active ==> {
            &&& !self.is_active
            &&& self.removal_date == earlier.removal_date
            &&& self.removal_reason == earlier.removal_reason
            &&& self.explant_analysis_hash == earlier.explant_analysis_hash
        }
    }

    /// This implant with one more maintenance event at the end of its history.
    pub open spec fn maintained(self, maintenance_id: u64) -> ImplantRecordView {
        ImplantRecordView {
            maintenance_history: self.maintenance_history.push(maintenance_id),
            ..self
        }
    }
}

impl View for ImplantRecord {
    type V = ImplantRecordView;

    open spec fn view(&self) -> ImplantRecordView {
        ImplantRecordView {
            implant_record_id: self.implant_record_id,
            patient_id: self.patient_id@,
            device_id: self.device_id,
            implant_date: self.implant_date,
            implant_location: self.implant_location@,
            implanting_provider: self.implanting_provider@,
            surgical_notes_hash: self.surgical_notes_hash@,
            is_active: self.is_active,
            removal_date: self.removal_date,
            removal_reason: text_of(self.removal_reason),
            explant_analysis_hash: hash_of(self.explant_analysis_hash),
            maintenance_history: self.maintenance_history@,
        }
    }
}

impl Clone for ImplantRecord {
    fn clone(&self) -> (copy: Self)
        ensures
            copy@ == self@,
    {
        ImplantRecord {
            implant_record_id: self.implant_record_id,
            patient_id: self.patient_id.clone(),
            device_id: self.device_id,
            implant_date: self.implant_date,
            implant_location: self.implant_location.clone(),
            implanting_provider: self.implanting_provider.clone(),
            surgical_notes_hash: self.surgical_notes_hash,
            is_active: self.is_active,
            removal_date: self.removal_date,
            removal_reason: clone_text(&self.removal_reason),
            explant_analysis_hash: self.explant_analysis_hash,
            maintenance_history: clone_ids(&self.maintenance_history),
        }
    }
}

/// A prescription of durable medical equipment. Written once, never changed.
#[derive(Debug, PartialEq, Eq)]
pub struct DmePrescription {
    pub prescription_id: u64,
    pub patient_id: Address,
    pub provider_id: Address,
    pub device_type: String,
    pub device_id: u64,
    pub prescription_date: u64,
    pub duration_days: Option<u64>,
    pub instructions_hash: [u8; 32],
}

/// What a [`DmePrescription`] holds.
pub struct DmePrescriptionView {
    pub prescription_id: u64,
    pub patient_id: Seq<char>,
    pub provider_id: Seq<char>,
    pub device_type: Seq<char>,
    pub device_id: u64,
    pub prescription_date: u64,
    pub duration_days: Option<u64>,
    pub instructions_hash: Seq<u8>,
}

impl View for DmePrescription {
    type V = DmePrescriptionView;

    open spec fn view(&self) -> DmePrescriptionView {
        DmePrescriptionView {
            prescription_id: self.prescription_id,
            patient_id: self.patient_id@,
            provider_id: self.provider_id@,
            device_type: self.device_type@,
            device_id: self.device_id,
            prescription_date: self.prescription_date,
            duration_days: self.duration_days,
            instructions_hash: self.instructions_hash@,
        }
    }
}

impl Clone for DmePrescription {
    fn clone(&self) -> (copy: Self)
        ensures
            copy@ == self@,
    {
        DmePrescription {
            prescription_id: self.prescription_id,
            patient_id: self.patient_id.clone(),
            provider_id: self.provider_id.clone(),
            device_type: self.device_type.clone(),
            device_id: self.device_id,
            prescription_date: self.prescription_date,
            duration_days: self.duration_days,
            instructions_hash: self.instructions_hash,
        }
    }
}

/// One maintenance event on an implant. Written once, never changed.
#[derive(Debug, PartialEq, Eq)]
pub struct MaintenanceRecord {
    pub maintenance_id: u64,
    pub implant_record_id: u64,
    pub maintenance_date: u64,
    pub maintenance_type: String,
    pub performed_by: Address,
    pub notes_hash: [u8; 32],
}

/// What a [`MaintenanceRecord`] holds.
pub struct MaintenanceRecordView {
    pub maintenance_id: u64,
    pub implant_record_id: u64,
    pub maintenance_date: u64,
    pub maintenance_type: Seq<char>,
    pub performed_by: Seq<char>,
    pub notes_hash: Seq<u8>,
}

impl View for MaintenanceRecord {
    type V = MaintenanceRecordView;

    open spec fn view(&self) -> MaintenanceRecordView {
        MaintenanceRecordView {
            maintenance_id: self.maintenance_id,
            implant_record_id: self.implant_record_id,
            maintenance_date: self.maintenance_date,
            maintenance_type: self.maintenance_type@,
            performed_by: self.performed_by@,
            notes_hash: self.notes_hash@,
        }
    }
}

impl Clone for MaintenanceRecord {
    fn clone(&self) -> (copy: Self)
        ensures
            copy@ == self@,
    {
        MaintenanceRecord {
            maintenance_id: self.maintenance_id,
            implant_record_id: self.implant_record_id,
            maintenance_date: self.maintenance_date,
            maintenance_type: self.maintenance_type.clone(),
            performed_by: self.performed_by.clone(),
            notes_hash: self.notes_hash,
        }
    }
}

/// A patient's report on how an implant performs. Written once, never changed.
#[derive(Debug, PartialEq, Eq)]
pub struct PerformanceReport {
    pub implant_record_id: u64,
    pub patient_id: Address,
    pub performance_data_hash: [u8; 32],
    pub reported_date: u64,
    pub complications: Option<Vec<String>>,
}

/// What a [`PerformanceReport`] holds.
pub struct PerformanceReportView {
    pub implant_record_id: u64,
    pub patient_id: Seq<char>,
    pub performance_data_hash: Seq<u8>,
    pub reported_date: u64,
    pub complications: Option<Seq<Seq<char>>>,
}

impl View for PerformanceReport {
    type V = PerformanceReportView;

    open spec fn view(&self) -> PerformanceReportView {
        PerformanceReportView {
            implant_record_id: self.implant_record_id,
            patient_id: self.patient_id@,
            performance_data_hash: self.performance_data_hash@,
            reported_date: self.reported_date,
            complications: texts_of(self.complications),
        }
    }
}

impl Clone for PerformanceReport {
    fn clone(&self) -> (copy: Self)
        ensures
            copy@ == self@,
    {
        PerformanceReport {
            implant_record_id: self.implant_record_id,
            patient_id: self.patient_id.clone(),
            performance_data_hash: self.performance_data_hash,
            reported_date: self.reported_date,
            complications: clone_texts(&self.complications),
        }
    }
}

/// A manufacturer's recall of one or more devices. Written once, never changed.
#[derive(Debug, PartialEq, Eq)]
pub struct RecallInfo {
    pub recall_id: u64,
    pub device_ids: Vec<u64>,
    pub recall_reason: String,
    pub severity: String,
    pub recall_date: u64,
    pub action_required: String,
    pub resolution_deadline: Option<u64>,
}

/// What a [`RecallInfo`] holds.
pub struct RecallInfoView {
    pub recall_id: u64,
    pub device_ids: Seq<u64>,
    pub recall_reason: Seq<char>,
    pub severity: Seq<char>,
    pub recall_date: u64,
    pub action_required: Seq<char>,
    pub resolution_deadline: Option<u64>,
}

impl View for RecallInfo {
    type V = RecallInfoView;

    open spec fn view(&self) -> RecallInfoView {
        RecallInfoView {
            recall_id: self.recall_id,
            device_ids: self.device_ids@,
            recall_reason: self.recall_reason@,
            severity: self.severity@,
            recall_date: self.recall_date,
            action_required: self.action_required@,
            resolution_deadline: self.resolution_deadline,
        }
    }
}

impl Clone for RecallInfo {
    fn clone(&self) -> (copy: Self)
        ensures
            copy@ == self@,
    {
        RecallInfo {
            recall_id: self.recall_id,
            device_ids: clone_ids(&self.device_ids),
            recall_reason: self.recall_reason.clone(),
            severity: self.severity.clone(),
            recall_date: self.recall_date,
            action_required: self.action_required.clone(),
            resolution_deadline: self.resolution_deadline,
        }
    }
}

} // verus!
