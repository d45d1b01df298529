//! The registry itself, and the operations that read and change it.

use vstd::prelude::*;
use crate::history::{
    lemma_extends_itself, lemma_implanted_extends, lemma_maintained_extends,
    lemma_prescribed_extends, lemma_recalled_extends, lemma_registered_extends,
    lemma_removed_extends, lemma_reported_extends,
};
use crate::index::SecondaryIndex;
use crate::state::{
    filed_under_each, issued, lemma_views_push, lemma_views_update, views, RegistryView,
};
use crate::types::{
    hash_of, texts_of, Address, DeviceRecord, DeviceRecordView, DmePrescription,
    DmePrescriptionView, Error, IdentityProof, ImplantRecord, ImplantRecordView,
    MaintenanceRecord, MaintenanceRecordView, PerformanceReport, PerformanceReportView,
    RecallInfo, RecallInfoView,
};
use crate::validity::{
    lemma_empty_well_formed, lemma_implanted_well_formed, lemma_maintained_well_formed,
    lemma_prescribed_well_formed, lemma_recalled_well_formed, lemma_registered_well_formed,
    lemma_removed_well_formed, lemma_reported_well_formed,
};

verus! {

/// Every medical device, implant, prescription, maintenance event, performance report
/// and recall on record, with the indices that relate them.
///
/// In each category the record with identifier `n` is the `n`-th that was created; it
/// stands at position `n - 1`. Nothing is ever deleted.
#[derive(Debug, PartialEq, Eq)]
pub struct MedicalDeviceRegistry {
    pub devices: Vec<DeviceRecord>,
    pub implants: Vec<ImplantRecord>,
    pub prescriptions: Vec<DmePrescription>,
    pub maintenance: Vec<MaintenanceRecord>,
    pub recalls: Vec<RecallInfo>,
    /// The performance reports on all implants, oldest first.
    pub performance_reports: Vec<PerformanceReport>,
    /// For each patient, the implants placed in them.
    pub patient_implants: SecondaryIndex<Address>,
    /// For each device, the implants made of it.
    pub device_implants: SecondaryIndex<u64>,
    /// For each device, the recalls that name it.
    pub device_recalls: SecondaryIndex<u64>,
}

impl View for MedicalDeviceRegistry {
    type V = RegistryView;

    open spec fn view(&self) -> RegistryView {
        RegistryView {
            devices: views(self.devices@),
            implants: views(self.implants@),
            prescriptions: views(self.prescriptions@),
            maintenance: views(self.maintenance@),
            recalls: views(self.recalls@),
            performance_reports: views(self.performance_reports@),
            patient_implants: self.patient_implants@,
            device_implants: self.device_implants@,
            device_recalls: self.device_recalls@,
        }
    }
}

impl Clone for MedicalDeviceRegistry {
    fn clone(&self) -> (copy: Self)
        ensures
            copy@ == self@,
    {
        let devices = self.devices.clone();
        let implants = self.implants.clone();
        let prescriptions = self.prescriptions.clone();
        let maintenance = self.maintenance.clone();
        let recalls = self.recalls.clone();
        let performance_reports = self.performance_reports.clone();
        assert(views(devices@) =~= views(self.devices@));
        assert(views(implants@) =~= views(self.implants@));
        assert(views(prescriptions@) =~= views(self.prescriptions@));
        assert(views(maintenance@) =~= views(self.maintenance@));
        assert(views(recalls@) =~= views(self.recalls@));
        assert(views(performance_reports@) =~= views(self.performance_reports@));
        MedicalDeviceRegistry {
            devices,
            implants,
            prescriptions,
            maintenance,
            recalls,
            performance_reports,
            patient_implants: self.patient_implants.clone(),
            device_implants: self.device_implants.clone(),
            device_recalls: self.device_recalls.clone(),
        }
    }
}

/// The position of the record with identifier `id` among `count` records.
fn slot(count: usize, id: u64) -> (at: Option<usize>)
    ensures
        at is Some <==> issued(count as nat, id),
        at is Some ==> at->Some_0 == id - 1,
{
    if 1 <= id && id <= count as u64 {
        Some((id - 1) as usize)
    } else {
        None
    }
}

/// The identifier for the next record after `count` of them.
fn next_id(count: usize) -> (id: u64)
    requires
        count < u64::MAX,
    ensures
        id == count + 1,
{
    count as u64 + 1
}

impl MedicalDeviceRegistry {
    /// A registry in which nothing has been recorded yet.
    pub fn new() -> (registry: Self)
        ensures
            registry@ == RegistryView::empty(),
            registry@.well_formed(),
    {
        let registry = MedicalDeviceRegistry {
            devices: Vec::new(),
            implants: Vec::new(),
            prescriptions: Vec::new(),
            maintenance: Vec::new(),
            recalls: Vec::new(),
            performance_reports: Vec::new(),
            patient_implants: SecondaryIndex::new(),
            device_implants: SecondaryIndex::new(),
            device_recalls: SecondaryIndex::new(),
        };
        assert(registry@.devices =~= Seq::empty());
        assert(registry@.implants =~= Seq::empty());
        assert(registry@.prescriptions =~= Seq::empty());
        assert(registry@.maintenance =~= Seq::empty());
        assert(registry@.recalls =~= Seq::empty());
        assert(registry@.performance_reports =~= Seq::empty());
        proof {
            lemma_empty_well_formed();
        }
        registry
    }

    /// Registers a device under the next device identifier and returns that identifier.
    ///
    /// Needs no proof of identity. The first device gets the identifier 1, and each
    /// later one the identifier after the one before.
    pub fn register_device(
        &mut self,
        device_udi: String,
        device_type: String,
        manufacturer: String,
        model_number: String,
        lot_number: String,
        manufacturing_date: u64,
        expiration_date: Option<u64>,
        device_specs_hash: [u8; 32],
    ) -> (result: Result<u64, Error>)
        requires
            old(self)@.next_device_id() <= u64::MAX,
        ensures
            result == Ok::<u64, Error>(old(self)@.next_device_id() as u64),
            final(self)@ == old(self)@.registered(
                DeviceRecordView {
                    device_id: old(self)@.next_device_id() as u64,
                    device_udi: device_udi@,
                    device_type: device_type@,
                    manufacturer: manufacturer@,
                    model_number: model_number@,
                    lot_number: lot_number@,
                    manufacturing_date,
                    expiration_date,
                    device_specs_hash: device_specs_hash@,
                },
            ),
            final(self)@.extends(old(self)@),
            old(self)@.well_formed() ==> final(self)@.well_formed(),
    {
        let new_id = next_id(self.devices.len());
        let device = DeviceRecord {
            device_id: new_id,
            device_udi,
            device_type,
            manufacturer,
            model_number,
            lot_number,
            manufacturing_date,
            expiration_date,
            device_specs_hash,
        };
        proof {
            lemma_views_push(self.devices@, device);
            lemma_registered_extends(self@, device@);
            if self@.well_formed() {
                lemma_registered_well_formed(self@, device@);
            }
        }
        self.devices.push(device);
        Ok(new_id)
    }

    /// Records that a device was implanted into a patient, and returns the identifier
    /// of the new implant record.
    ///
    /// `provider` proves the identity of the implanting provider. Fails with
    /// [`Error::RecordNotFound`], changing nothing, if no device has the identifier
    /// `device_id`. Otherwise the implant is recorded as active, with an empty
    /// maintenance history, and filed at the end of the patient's and of the device's
    /// list of implants.
    pub fn implant_device(
        &mut self,
        patient_id: Address,
        device_id: u64,
        provider: IdentityProof,
        implant_date: u64,
        implant_location: String,
        surgical_notes_hash: [u8; 32],
    ) -> (result: Result<u64, Error>)
        requires
            old(self)@.device_exists(device_id) ==> old(self)@.next_implant_id() <= u64::MAX,
        ensures
            !old(self)@.device_exists(device_id) ==> {
                &&& result == Err::<u64, Error>(Error::RecordNotFound)
                &&& final(self)@ == old(self)@
            },
            old(self)@.device_exists(device_id) ==> {
                &&& result == Ok::<u64, Error>(old(self)@.next_implant_id() as u64)
                &&& final(self)@ == old(self)@.implanted(
                    ImplantRecordView {
                        implant_record_id: old(self)@.next_implant_id() as u64,
                        patient_id: patient_id@,
                        device_id,
                        implant_date,
                        implant_location: implant_location@,
                        implanting_provider: provider.subject(),
                        surgical_notes_hash: surgical_notes_hash@,
                        is_active: true,
                        removal_date: None,
                        removal_reason: None,
                        explant_analysis_hash: None,
                        maintenance_history: Seq::empty(),
                    },
                )
            },
            final(self)@.extends(old(self)@),
            old(self)@.well_formed() ==> final(self)@.well_formed(),
    {
        if slot(self.devices.len(), device_id).is_none() {
            proof {
                lemma_extends_itself(self@);
            }
            return Err(Error::RecordNotFound);
        }
        let new_id = next_id(self.implants.len());
        let patient_key = patient_id.clone();
        let record = ImplantRecord {
            implant_record_id: new_id,
            patient_id,
            device_id,
            implant_date,
            implant_location,
            implanting_provider: provider.into_address(),
            surgical_notes_hash,
            is_active: true,
            removal_date: None,
            removal_reason: None,
            explant_analysis_hash: None,
            maintenance_history: Vec::new(),
        };
        proof {
            lemma_views_push(self.implants@, record);
            lemma_implanted_extends(self@, record@);
            if self@.well_formed() {
                lemma_implanted_well_formed(self@, record@);
            }
        }
        self.implants.push(record);
        self.patient_implants.append(patient_key, new_id);
        self.device_implants.append(device_id, new_id);
        Ok(new_id)
    }

    /// Records a prescription of durable medical equipment and returns its identifier.
    ///
    /// `provider` proves the identity of the prescribing provider. Always succeeds.
    pub fn prescribe_dme(
        &mut self,
        patient_id: Address,
        provider: IdentityProof,
        device_type: String,
        device_id: u64,
        prescription_date: u64,
        duration_days: Option<u64>,
        instructions_hash: [u8; 32],
    ) -> (result: Result<u64, Error>)
        requires
            old(self)@.next_prescription_id() <= u64::MAX,
        ensures
            result == Ok::<u64, Error>(old(self)@.next_prescription_id() as u64),
            final(self)@ == old(self)@.prescribed(
                DmePrescriptionView {
                    prescription_id: old(self)@.next_prescription_id() as u64,
                    patient_id: patient_id@,
                    provider_id: provider.subject(),
                    device_type: device_type@,
                    device_id,
                    prescription_date,
                    duration_days,
                    instructions_hash: instructions_hash@,
                },
            ),
            final(self)@.extends(old(self)@),
            old(self)@.well_formed() ==> final(self)@.well_formed(),
    {
        let new_id = next_id(self.prescriptions.len());
        let prescription = DmePrescription {
            prescription_id: new_id,
            patient_id,
            provider_id: provider.into_address(),
            device_type,
            device_id,
            prescription_date,
            duration_days,
            instructions_hash,
        };
        proof {
            lemma_views_push(self.prescriptions@, prescription);
            lemma_prescribed_extends(self@, prescription@);
            if self@.well_formed() {
                lemma_prescribed_well_formed(self@, prescription@);
            }
        }
        self.prescriptions.push(prescription);
        Ok(new_id)
    }

    /// Records a maintenance event on an implant.
    ///
    /// `performed_by` proves the identity of whoever did the maintenance. Fails with
    /// [`Error::RecordNotFound`], changing nothing, if no implant has the identifier
    /// `implant_record_id`. Otherwise the event is stored under the next maintenance
    /// identifier, and that identifier is entered at the end of the implant's
    /// maintenance history.
    pub fn record_device_maintenance(
        &mut self,
        implant_record_id: u64,
        maintenance_date: u64,
        maintenance_type: String,
        performed_by: IdentityProof,
        notes_hash: [u8; 32],
    ) -> (result: Result<(), Error>)
        requires
            old(self)@.implant_exists(implant_record_id) ==> old(self)@.next_maintenance_id()
                <= u64::MAX,
        ensures
            !old(self)@.implant_exists(implant_record_id) ==> {
                &&& result == Err::<(), Error>(Error::RecordNotFound)
                &&& final(self)@ == old(self)@
            },
            old(self)@.implant_exists(implant_record_id) ==> {
                &&& result == Ok::<(), Error>(())
                &&& final(self)@ == old(self)@.maintained(
                    MaintenanceRecordView {
                        maintenance_id: old(self)@.next_maintenance_id() as u64,
                        implant_record_id,
                        maintenance_date,
                        maintenance_type: maintenance_type@,
                        performed_by: performed_by.subject(),
                        notes_hash: notes_hash@,
                    },
                )
            },
            final(self)@.extends(old(self)@),
            old(self)@.well_formed() ==> final(self)@.well_formed(),
    {
        let at = match slot(self.implants.len(), implant_record_id) {
            Some(at) => at,
            None => {
                proof {
                    lemma_extends_itself(self@);
                }
                return Err(Error::RecordNotFound);
            },
        };
        let new_id = next_id(self.maintenance.len());
        let event = MaintenanceRecord {
            maintenance_id: new_id,
            implant_record_id,
            maintenance_date,
            maintenance_type,
            performed_by: performed_by.into_address(),
            notes_hash,
        };
        proof {
            lemma_views_push(self.maintenance@, event);
            lemma_maintained_extends(self@, event@);
            if self@.well_formed() {
                lemma_maintained_well_formed(self@, event@);
            }
        }
        self.maintenance.push(event);
        let ghost before = self.implants@;
        self.implants[at].maintenance_history.push(new_id);
        proof {
            assert(self.implants@ =~= before.update(at as int, self.implants[at as int]));
            lemma_views_update(before, at as int, self.implants[at as int]);
            assert(self.implants[at as int]@ == before[at as int]@.maintained(new_id));
        }
        Ok(())
    }

    /// Issues a recall of the listed devices and returns its identifier.
    ///
    /// `manufacturer` proves the identity of the manufacturer. Always succeeds: the
    /// listed devices need not exist. The recall keeps the whole list, and its
    /// identifier is filed at the end of the list of recalls of each listed device.
    #[allow(unused_variables)]
    pub fn issue_device_recall(
        &mut self,
        manufacturer: IdentityProof,
        device_ids: Vec<u64>,
        recall_reason: String,
        severity: String,
        recall_date: u64,
        action_required: String,
    ) -> (result: Result<u64, Error>)
        requires
            old(self)@.next_recall_id() <= u64::MAX,
        ensures
            result == Ok::<u64, Error>(old(self)@.next_recall_id() as u64),
            final(self)@ == old(self)@.recalled(
                RecallInfoView {
                    recall_id: old(self)@.next_recall_id() as u64,
                    device_ids: device_ids@,
                    recall_reason: recall_reason@,
                    severity: severity@,
                    recall_date,
                    action_required: action_required@,
                    resolution_deadline: None,
                },
            ),
            final(self)@.extends(old(self)@),
            old(self)@.well_formed() ==> final(self)@.well_formed(),
    {
        let ghost before = self@;
        let new_id = next_id(self.recalls.len());
        file_under_each(&mut self.device_recalls, &device_ids, new_id);
        let recall = RecallInfo {
            recall_id: new_id,
            device_ids,
            recall_reason,
            severity,
            recall_date,
            action_required,
            resolution_deadline: None,
        };
        proof {
            lemma_views_push(self.recalls@, recall);
            lemma_recalled_extends(before, recall@);
            if before.well_formed() {
                lemma_recalled_well_formed(before, recall@);
            }
        }
        self.recalls.push(recall);
        Ok(new_id)
    }

    /// The patients to notify of a recall: for each device the recall lists, in the
    /// order of the list, the patient of each active implant of that device, in the
    /// order in which the implants were placed.
    ///
    /// A patient with several such implants is named once for each. Fails with
    /// [`Error::RecordNotFound`] if no recall has the identifier `recall_id`. The date
    /// of the notification has no bearing on the answer.
    pub fn notify_affected_patients(&self, recall_id: u64, _notification_date: u64) -> (result:
        Result<Vec<Address>, Error>)
        ensures
            !self@.recall_exists(recall_id) ==> result == Err::<Vec<Address>, Error>(
                Error::RecordNotFound,
            ),
            self@.recall_exists(recall_id) ==> result is Ok && views(result->Ok_0@)
                == self@.affected_patients(self@.recall(recall_id).device_ids),
    {
        let at = match slot(self.recalls.len(), recall_id) {
            Some(at) => at,
            None => {
                return Err(Error::RecordNotFound);
            },
        };
        let device_ids = &self.recalls[at].device_ids;
        let mut affected: Vec<Address> = Vec::new();
        let mut i: usize = 0;
        assert(views(affected@) =~= Seq::<Seq<char>>::empty());
        assert(device_ids@.take(0) =~= Seq::<u64>::empty());
        while i < device_ids.len()
            invariant
                i <= device_ids.len(),
                views(affected@) == self@.affected_patients(device_ids@.take(i as int)),
            decreases device_ids.len() - i,
        {
            let ghost so_far = views(affected@);
            match self.device_implants.get(&device_ids[i]) {
                Some(implant_ids) => {
                    self.add_active_patients(implant_ids, &mut affected);
                },
                None => {
                    assert(Seq::<u64>::empty().filter_map(self@.patient_lister())
                        =~= Seq::<Seq<char>>::empty());
                    assert(views(affected@) =~= so_far + Seq::<Seq<char>>::empty());
                },
            }
            proof {
                let upto = device_ids@.take(i + 1);
                assert(upto.drop_last() =~= device_ids@.take(i as int));
                assert(upto.last() == device_ids@[i as int]);
            }
            i = i + 1;
        }
        assert(device_ids@.take(i as int) =~= device_ids@);
        Ok(affected)
    }

    /// Records the removal of an implant.
    ///
    /// `provider` proves the identity of the removing provider. Fails with
    /// [`Error::RecordNotFound`] if no implant has the identifier `implant_record_id`,
    /// and with [`Error::DeviceNotActive`] if that implant was removed before; either
    /// way nothing changes. Otherwise the implant becomes inactive and takes the date,
    /// the reason and the explant analysis of the removal, all at once.
    #[allow(unused_variables)]
    pub fn remove_implant(
        &mut self,
        implant_record_id: u64,
        provider: IdentityProof,
        removal_date: u64,
        removal_reason: String,
        explant_analysis_hash: Option<[u8; 32]>,
    ) -> (result: Result<(), Error>)
        ensures
            result == old(self)@.removal_outcome(implant_record_id),
            result is Err ==> final(self)@ == old(self)@,
            result is Ok ==> final(self)@ == old(self)@.removed(
                implant_record_id,
                removal_date,
                removal_reason@,
                hash_of(explant_analysis_hash),
            ),
            final(self)@.extends(old(self)@),
            old(self)@.well_formed() ==> final(self)@.well_formed(),
    {
        let at = match slot(self.implants.len(), implant_record_id) {
            Some(at) => at,
            None => {
                proof {
                    lemma_extends_itself(self@);
                }
                return Err(Error::RecordNotFound);
            },
        };
        if !self.implants[at].is_active {
            proof {
                lemma_extends_itself(self@);
            }
            return Err(Error::DeviceNotActive);
        }
        proof {
            lemma_removed_extends(
                self@,
                implant_record_id,
                removal_date,
                removal_reason@,
                hash_of(explant_analysis_hash),
            );
            if self@.well_formed() {
                lemma_removed_well_formed(
                    self@,
                    implant_record_id,
                    removal_date,
                    removal_reason@,
                    hash_of(explant_analysis_hash),
                );
            }
        }
        let ghost before = self.implants@;
        let record = &mut self.implants[at];
        record.is_active = false;
        record.removal_date = Some(removal_date);
        record.removal_reason = Some(removal_reason);
        record.explant_analysis_hash = explant_analysis_hash;
        proof {
            assert(self.implants@ =~= before.update(at as int, self.implants[at as int]));
            lemma_views_update(before, at as int, self.implants[at as int]);
            assert(self.implants[at as int]@ == before[at as int]@.removed(
                removal_date,
                removal_reason@,
                hash_of(explant_analysis_hash),
            ));
        }
        Ok(())
    }

    /// Records a patient's report on the performance of an implant.
    ///
    /// `patient` proves the identity of the reporting patient. Fails with
    /// [`Error::RecordNotFound`], changing nothing, if no implant has the identifier
    /// `implant_record_id`. Otherwise the report is added after all earlier ones; the
    /// same report may be made twice.
    pub fn track_device_performance(
        &mut self,
        implant_record_id: u64,
        patient: IdentityProof,
        performance_data_hash: [u8; 32],
        reported_date: u64,
        complications: Option<Vec<String>>,
    ) -> (result: Result<(), Error>)
        ensures
            !old(self)@.implant_exists(implant_record_id) ==> {
                &&& result == Err::<(), Error>(Error::RecordNotFound)
                &&& final(self)@ == old(self)@
            },
            old(self)@.implant_exists(implant_record_id) ==> {
                &&& result == Ok::<(), Error>(())
                &&& final(self)@ == old(self)@.reported(
                    PerformanceReportView {
                        implant_record_id,
                        patient_id: patient.subject(),
                        performance_data_hash: performance_data_hash@,
                        reported_date,
                        complications: texts_of(complications),
                    },
                )
            },
            final(self)@.extends(old(self)@),
            old(self)@.well_formed() ==> final(self)@.well_formed(),
    {
        if slot(self.implants.len(), implant_record_id).is_none() {
            proof {
                lemma_extends_itself(self@);
            }
            return Err(Error::RecordNotFound);
        }
        let report = PerformanceReport {
            implant_record_id,
            patient_id: patient.into_address(),
            performance_data_hash,
            reported_date,
            complications,
        };
        proof {
            lemma_views_push(self.performance_reports@, report);
            lemma_reported_extends(self@, report@);
            if self@.well_formed() {
                lemma_reported_well_formed(self@, report@);
            }
        }
        self.performance_reports.push(report);
        Ok(())
    }

    /// The implant records of a patient, in the order in which the implants were
    /// placed; with `active_only`, only those that are still active.
    ///
    /// `requester` proves the identity of whoever asks; it need not be the patient.
    /// Always succeeds: a patient without implants has the empty list.
    #[allow(unused_variables)]
    pub fn get_patient_implants(
        &self,
        patient_id: Address,
        requester: IdentityProof,
        active_only: bool,
    ) -> (result: Result<Vec<ImplantRecord>, Error>)
        ensures
            result is Ok,
            views(result->Ok_0@) == self@.implants_of(patient_id@, active_only),
    {
        let ghost lister = self@.implant_lister(active_only);
        let mut implants: Vec<ImplantRecord> = Vec::new();
        assert(Seq::<u64>::empty().filter_map(lister) =~= Seq::<ImplantRecordView>::empty());
        assert(views(implants@) =~= Seq::<ImplantRecordView>::empty());
        let implant_ids = match self.patient_implants.get(&patient_id) {
            Some(implant_ids) => implant_ids,
            None => {
                return Ok(implants);
            },
        };
        let mut i: usize = 0;
        assert(implant_ids@.take(0) =~= Seq::<u64>::empty());
        while i < implant_ids.len()
            invariant
                i <= implant_ids.len(),
                lister == self@.implant_lister(active_only),
                views(implants@) == implant_ids@.take(i as int).filter_map(lister),
            decreases implant_ids.len() - i,
        {
            proof {
                implant_ids@.lemma_filter_map_take_succ(lister, i as int);
            }
            match slot(self.implants.len(), implant_ids[i]) {
                Some(at) => {
                    if !active_only || self.implants[at].is_active {
                        let record = self.implants[at].clone();
                        proof {
                            lemma_views_push(implants@, record);
                            assert(lister(implant_ids@[i as int]) == Some(record@));
                        }
                        implants.push(record);
                    } else {
                        assert(lister(implant_ids@[i as int]) is None);
                    }
                },
                None => {
                    assert(lister(implant_ids@[i as int]) is None);
                },
            }
            assert(views(implants@) =~= implant_ids@.take(i + 1).filter_map(lister));
            i = i + 1;
        }
        assert(implant_ids@.take(i as int) =~= implant_ids@);
        Ok(implants)
    }

    /// The recalls that name a device, in the order in which they were issued.
    ///
    /// Always succeeds: a device without recalls, or one that was never registered, has
    /// the empty list.
    pub fn check_device_recalls(&self, device_id: u64) -> (result: Result<
        Vec<RecallInfo>,
        Error,
    >)
        ensures
            result is Ok,
            views(result->Ok_0@) == self@.recalls_of(device_id),
    {
        let ghost lister = self@.recall_lister();
        let mut recalls: Vec<RecallInfo> = Vec::new();
        assert(Seq::<u64>::empty().filter_map(lister) =~= Seq::<RecallInfoView>::empty());
        assert(views(recalls@) =~= Seq::<RecallInfoView>::empty());
        let recall_ids = match self.device_recalls.get(&device_id) {
            Some(recall_ids) => recall_ids,
            None => {
                return Ok(recalls);
            },
        };
        let mut i: usize = 0;
        assert(recall_ids@.take(0) =~= Seq::<u64>::empty());
        while i < recall_ids.len()
            invariant
                i <= recall_ids.len(),
                lister == self@.recall_lister(),
                views(recalls@) == recall_ids@.take(i as int).filter_map(lister),
            decreases recall_ids.len() - i,
        {
            proof {
                recall_ids@.lemma_filter_map_take_succ(lister, i as int);
            }
            match slot(self.recalls.len(), recall_ids[i]) {
                Some(at) => {
                    let recall = self.recalls[at].clone();
                    proof {
                        lemma_views_push(recalls@, recall);
                        assert(lister(recall_ids@[i as int]) == Some(recall@));
                    }
                    recalls.push(recall);
                },
                None => {
                    assert(lister(recall_ids@[i as int]) is None);
                },
            }
            assert(views(recalls@) =~= recall_ids@.take(i + 1).filter_map(lister));
            i = i + 1;
        }
        assert(recall_ids@.take(i as int) =~= recall_ids@);
        Ok(recalls)
    }

    /// The performance reports on an implant, oldest first; empty if there are none or
    /// the implant does not exist.
    pub fn reports_on(&self, implant_record_id: u64) -> (reports: Vec<PerformanceReport>)
        ensures
            views(reports@) == self@.reports_on(implant_record_id),
    {
        let ghost wanted = RegistryView::report_on(implant_record_id);
        let mut reports: Vec<PerformanceReport> = Vec::new();
        let mut i: usize = 0;
        proof {
            reveal(Seq::filter);
            assert(views(self.performance_reports@).take(0).filter(wanted) =~= views(reports@));
        }
        while i < self.performance_reports.len()
            invariant
                i <= self.performance_reports.len(),
                wanted == RegistryView::report_on(implant_record_id),
                views(reports@) == views(self.performance_reports@).take(i as int).filter(wanted),
            decreases self.performance_reports.len() - i,
        {
            proof {
                reveal(Seq::filter);
                let upto = views(self.performance_reports@).take(i + 1);
                assert(upto.drop_last() =~= views(self.performance_reports@).take(i as int));
                assert(upto.last() == self.performance_reports[i as int]@);
            }
            if self.performance_reports[i].implant_record_id == implant_record_id {
                let report = self.performance_reports[i].clone();
                proof {
                    lemma_views_push(reports@, report);
                }
                reports.push(report);
            }
            i = i + 1;
        }
        assert(views(self.performance_reports@).take(i as int) =~= views(
            self.performance_reports@,
        ));
        reports
    }

    /// Adds to `patients` the patient of each active implant among `implant_ids`.
    fn add_active_patients(&self, implant_ids: &Vec<u64>, patients: &mut Vec<Address>)
        ensures
            views(final(patients)@) == views(old(patients)@) + implant_ids@.filter_map(
                self@.patient_lister(),
            ),
    {
        let ghost lister = self@.patient_lister();
        let ghost before = views(patients@);
        let mut j: usize = 0;
        assert(implant_ids@.take(0).filter_map(lister) =~= Seq::<Seq<char>>::empty());
        assert(views(patients@) =~= before + Seq::<Seq<char>>::empty());
        while j < implant_ids.len()
            invariant
                j <= implant_ids.len(),
                lister == self@.patient_lister(),
                views(patients@) == before + implant_ids@.take(j as int).filter_map(lister),
            decreases implant_ids.len() - j,
        {
            let ghost listed = views(patients@);
            proof {
                implant_ids@.lemma_filter_map_take_succ(lister, j as int);
            }
            match slot(self.implants.len(), implant_ids[j]) {
                Some(at) => {
                    if self.implants[at].is_active {
                        let patient = self.implants[at].patient_id.clone();
                        proof {
                            lemma_views_push(patients@, patient);
                            assert(lister(implant_ids@[j as int]) == Some(patient@));
                        }
                        patients.push(patient);
                        assert(views(patients@) =~= before + implant_ids@.take(
                            j + 1,
                        ).filter_map(lister));
                    } else {
                        assert(lister(implant_ids@[j as int]) is None);
                        assert(views(patients@) =~= before + implant_ids@.take(
                            j + 1,
                        ).filter_map(lister));
                    }
                },
                None => {
                    assert(lister(implant_ids@[j as int]) is None);
                    assert(views(patients@) =~= before + implant_ids@.take(j + 1).filter_map(
                        lister,
                    ));
                },
            }
            j = j + 1;
        }
        assert(implant_ids@.take(j as int) =~= implant_ids@);
    }
}

/// Files `id` under each of `keys` in turn.
fn file_under_each(index: &mut SecondaryIndex<u64>, keys: &Vec<u64>, id: u64)
    ensures
        final(index)@ == filed_under_each(old(index)@, keys@, id),
{
    let ghost before = index@;
    let mut i: usize = 0;
    assert(keys@.take(0) =~= Seq::<u64>::empty());
    while i < keys.len()
        invariant
            i <= keys.len(),
            index@ == filed_under_each(before, keys@.take(i as int), id),
        decreases keys.len() - i,
    {
        proof {
            let upto = keys@.take(i + 1);
            assert(upto.drop_last() =~= keys@.take(i as int));
            assert(upto.last() == keys@[i as int]);
        }
        index.append(keys[i], id);
        i = i + 1;
    }
    assert(keys@.take(i as int) =~= keys@);
}

} // verus!
