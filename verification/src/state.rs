//! What the registry holds, as mathematics: the records of each category, the
//! indices that relate them, what each operation makes of them and what each query
//! reads from them.

use vstd::prelude::*;
use crate::index::filed_under;
use crate::types::{
    DeviceRecordView, DmePrescriptionView, Error, ImplantRecordView, MaintenanceRecordView,
    PerformanceReportView, RecallInfoView,
};

verus! {

/// The views of a sequence of records, in the same order.
pub open spec fn views<T: View>(records: Seq<T>) -> Seq<T::V> {
    records.map_values(|record: T| record@)
}

/// Whether `id` is one of the identifiers `1, 2, .., count`.
pub open spec fn issued(count: nat, id: u64) -> bool {
    1 <= id <= count
}

/// `ids` with `id` filed under `key` after whatever was filed there before.
pub open spec fn filed<V>(ids: Map<V, Seq<u64>>, key: V, id: u64) -> Map<V, Seq<u64>> {
    ids.insert(key, filed_under(ids, key).push(id))
}

/// `ids` with `id` filed under each of `keys` in turn; under a key that occurs twice,
/// twice.
pub open spec fn filed_under_each(ids: Map<u64, Seq<u64>>, keys: Seq<u64>, id: u64) -> Map<
    u64,
    Seq<u64>,
>
    decreases keys.len(),
{
    if keys.len() == 0 {
        ids
    } else {
        filed(filed_under_each(ids, keys.drop_last(), id), keys.last(), id)
    }
}

/// What a [`MedicalDeviceRegistry`](crate::MedicalDeviceRegistry) holds.
pub struct RegistryView {
    pub devices: Seq<DeviceRecordView>,
    pub implants: Seq<ImplantRecordView>,
    pub prescriptions: Seq<DmePrescriptionView>,
    pub maintenance: Seq<MaintenanceRecordView>,
    pub recalls: Seq<RecallInfoView>,
    pub performance_reports: Seq<PerformanceReportView>,
    pub patient_implants: Map<Seq<char>, Seq<u64>>,
    pub device_implants: Map<u64, Seq<u64>>,
    pub device_recalls: Map<u64, Seq<u64>>,
}

impl RegistryView {
    /// The registry in which nothing has been recorded yet.
    pub open spec fn empty() -> RegistryView {
        RegistryView {
            devices: Seq::empty(),
            implants: Seq::empty(),
            prescriptions: Seq::empty(),
            maintenance: Seq::empty(),
            recalls: Seq::empty(),
            performance_reports: Seq::empty(),
            patient_implants: Map::empty(),
            device_implants: Map::empty(),
            device_recalls: Map::empty(),
        }
    }

    /// Whether a device with this identifier was registered.
    pub open spec fn device_exists(self, device_id: u64) -> bool {
        issued(self.devices.len(), device_id)
    }

    /// Whether an implant with this identifier was recorded.
    pub open spec fn implant_exists(self, implant_record_id: u64) -> bool {
        issued(self.implants.len(), implant_record_id)
    }

    /// Whether a recall with this identifier was issued.
    pub open spec fn recall_exists(self, recall_id: u64) -> bool {
        issued(self.recalls.len(), recall_id)
    }

    /// The identifier that the next device to be registered gets.
    pub open spec fn next_device_id(self) -> nat {
        self.devices.len() + 1
    }

    /// The identifier that the next implant to be recorded gets.
    pub open spec fn next_implant_id(self) -> nat {
        self.implants.len() + 1
    }

    /// The identifier that the next prescription gets.
    pub open spec fn next_prescription_id(self) -> nat {
        self.prescriptions.len() + 1
    }

    /// The identifier that the next maintenance event gets.
    pub open spec fn next_maintenance_id(self) -> nat {
        self.maintenance.len() + 1
    }

    /// The identifier that the next recall gets.
    pub open spec fn next_recall_id(self) -> nat {
        self.recalls.len() + 1
    }

    /// How an attempt to record the removal of an implant ends: it fails if there is
    /// no such implant, or if the implant was removed before.
    pub open spec fn removal_outcome(self, implant_record_id: u64) -> Result<(), Error> {
        if !self.implant_exists(implant_record_id) {
            Err(Error::RecordNotFound)
        } else if !self.implant(implant_record_id).is_active {
            Err(Error::DeviceNotActive)
        } else {
            Ok(())
        }
    }

    /// The implant with this identifier.
    pub open spec fn implant(self, implant_record_id: u64) -> ImplantRecordView
        recommends
            self.implant_exists(implant_record_id),
    {
        self.implants[implant_record_id - 1]
    }

    /// The recall with this identifier.
    pub open spec fn recall(self, recall_id: u64) -> RecallInfoView
        recommends
            self.recall_exists(recall_id),
    {
        self.recalls[recall_id - 1]
    }

    /// This registry with one more device.
    pub open spec fn registered(self, device: DeviceRecordView) -> RegistryView {
        RegistryView { devices: self.devices.push(device), ..self }
    }

    /// This registry after the devices of a sequence were registered one after another.
    pub open spec fn registered_all(self, devices: Seq<DeviceRecordView>) -> RegistryView
        decreases devices.len(),
    {
        if devices.len() == 0 {
            self
        } else {
            self.registered_all(devices.drop_last()).registered(devices.last())
        }
    }

    /// This registry with one more implant, filed under its patient and its device.
    pub open spec fn implanted(self, implant: ImplantRecordView) -> RegistryView {
        RegistryView {
            implants: self.implants.push(implant),
            patient_implants: filed(
                self.patient_implants,
                implant.patient_id,
                implant.implant_record_id,
            ),
            device_implants: filed(
                self.device_implants,
                implant.device_id,
                implant.implant_record_id,
            ),
            ..self
        }
    }

    /// This registry with one more prescription.
    pub open spec fn prescribed(self, prescription: DmePrescriptionView) -> RegistryView {
        RegistryView { prescriptions: self.prescriptions.push(prescription), ..self }
    }

    /// This registry with one more maintenance event, entered at the end of the history
    /// of the implant it was made on.
    pub open spec fn maintained(self, event: MaintenanceRecordView) -> RegistryView
        recommends
            self.implant_exists(event.implant_record_id),
    {
        RegistryView {
            maintenance: self.maintenance.push(event),
            implants: self.implants.update(
                event.implant_record_id - 1,
                self.implant(event.implant_record_id).maintained(event.maintenance_id),
            ),
            ..self
        }
    }

    /// This registry with one more recall, filed under each device the recall lists, as
    /// often as it lists it.
    pub open spec fn recalled(self, recall: RecallInfoView) -> RegistryView {
        RegistryView {
            recalls: self.recalls.push(recall),
            device_recalls: filed_under_each(
                self.device_recalls,
                recall.device_ids,
                recall.recall_id,
            ),
            ..self
        }
    }

    /// This registry after the removal of an implant was recorded.
    pub open spec fn removed(
        self,
        implant_record_id: u64,
        removal_date: u64,
        removal_reason: Seq<char>,
        explant_analysis_hash: Option<Seq<u8>>,
    ) -> RegistryView
        recommends
            self.implant_exists(implant_record_id),
    {
        RegistryView {
            implants: self.implants.update(
                implant_record_id - 1,
                self.implant(implant_record_id).removed(
                    removal_date,
                    removal_reason,
                    explant_analysis_hash,
                ),
            ),
            ..self
        }
    }

    /// This registry with one more performance report.
    pub open spec fn reported(self, report: PerformanceReportView) -> RegistryView {
        RegistryView { performance_reports: self.performance_reports.push(report), ..self }
    }

    /// The predicate that holds of the performance reports on one implant.
    pub open spec fn report_on(implant_record_id: u64) -> spec_fn(PerformanceReportView) -> bool {
        |report: PerformanceReportView| report.implant_record_id == implant_record_id
    }

    /// The performance reports on one implant, oldest first.
    pub open spec fn reports_on(self, implant_record_id: u64) -> Seq<PerformanceReportView> {
        self.performance_reports.filter(Self::report_on(implant_record_id))
    }

    /// What an entry `id` of a list of implants contributes to a listing: the implant
    /// it names, unless no such implant exists or only active ones are asked for and it
    /// is not active.
    pub open spec fn listed_implant(self, id: u64, active_only: bool) -> Option<
        ImplantRecordView,
    > {
        if self.implant_exists(id) && (!active_only || self.implant(id).is_active) {
            Some(self.implant(id))
        } else {
            None
        }
    }

    /// [`Self::listed_implant`] as a function of the entry.
    pub open spec fn implant_lister(self, active_only: bool) -> spec_fn(u64) -> Option<
        ImplantRecordView,
    > {
        |id: u64| self.listed_implant(id, active_only)
    }

    /// The implants of a patient in the order in which they were placed; with
    /// `active_only`, those among them that are still active.
    pub open spec fn implants_of(self, patient: Seq<char>, active_only: bool) -> Seq<
        ImplantRecordView,
    > {
        filed_under(self.patient_implants, patient).filter_map(self.implant_lister(active_only))
    }

    /// The patient of the implant `id`, if that implant exists and is active.
    pub open spec fn active_patient(self, id: u64) -> Option<Seq<char>> {
        if self.implant_exists(id) && self.implant(id).is_active {
            Some(self.implant(id).patient_id)
        } else {
            None
        }
    }

    /// [`Self::active_patient`] as a function of the entry.
    pub open spec fn patient_lister(self) -> spec_fn(u64) -> Option<Seq<char>> {
        |id: u64| self.active_patient(id)
    }

    /// The patients who carry an active implant of one device, one entry for each such
    /// implant, in the order in which the implants were placed.
    pub open spec fn patients_with(self, device_id: u64) -> Seq<Seq<char>> {
        filed_under(self.device_implants, device_id).filter_map(self.patient_lister())
    }

    /// The patients who carry an active implant of one of the listed devices: those of
    /// the first device, then those of the second, and so on. Nothing is left out for
    /// having been listed before.
    pub open spec fn affected_patients(self, device_ids: Seq<u64>) -> Seq<Seq<char>>
        decreases device_ids.len(),
    {
        if device_ids.len() == 0 {
            Seq::empty()
        } else {
            self.affected_patients(device_ids.drop_last()) + self.patients_with(
                device_ids.last(),
            )
        }
    }

    /// What an entry `id` of a list of recalls contributes to a listing: the recall it
    /// names, if there is one.
    pub open spec fn listed_recall(self, id: u64) -> Option<RecallInfoView> {
        if self.recall_exists(id) {
            Some(self.recall(id))
        } else {
            None
        }
    }

    /// [`Self::listed_recall`] as a function of the entry.
    pub open spec fn recall_lister(self) -> spec_fn(u64) -> Option<RecallInfoView> {
        |id: u64| self.listed_recall(id)
    }

    /// The recalls that name a device, in the order in which they were issued.
    pub open spec fn recalls_of(self, device_id: u64) -> Seq<RecallInfoView> {
        filed_under(self.device_recalls, device_id).filter_map(self.recall_lister())
    }
}

pub proof fn lemma_views_push<T: View>(records: Seq<T>, record: T)
    ensures
        views(records.push(record)) == views(records).push(record@),
{
    assert(views(records.push(record)) =~= views(records).push(record@));
}

pub proof fn lemma_views_update<T: View>(records: Seq<T>, at: int, record: T)
    requires
        0 <= at < records.len(),
    ensures
        views(records.update(at, record)) == views(records).update(at, record@),
{
    assert(views(records.update(at, record)) =~= views(records).update(at, record@));
}
} // verus!
