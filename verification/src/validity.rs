//! What holds of every registry that the operations can produce.

use vstd::prelude::*;
use crate::index::filed_under;
use crate::state::{filed, filed_under_each, issued, RegistryView};
use crate::types::{
    DeviceRecordView, DmePrescriptionView, ImplantRecordView, MaintenanceRecordView,
    PerformanceReportView, RecallInfoView,
};

verus! {

/// Each identifier of the list is greater than the one before it.
pub open spec fn increasing(ids: Seq<u64>) -> bool {
    forall|a: int, b: int| 0 <= a < b < ids.len() ==> ids[a] < ids[b]
}

/// No identifier of the list is less than the one before it.
pub open spec fn ordered(ids: Seq<u64>) -> bool {
    forall|a: int, b: int| 0 <= a <= b < ids.len() ==> ids[a] <= ids[b]
}

impl RegistryView {
    /// In each category, the record at position `n - 1` carries the identifier `n`.
    pub open spec fn numbered(self) -> bool {
        &&& forall|i: int|
            0 <= i < self.devices.len() ==> (#[trigger] self.devices[i]).device_id == i + 1
        &&& forall|i: int|
            0 <= i < self.implants.len() ==> (#[trigger] self.implants[i]).implant_record_id == i
                + 1
        &&& forall|i: int|
            0 <= i < self.prescriptions.len() ==> (#[trigger] self.prescriptions[i]).prescription_id
                == i + 1
        &&& forall|i: int|
            0 <= i < self.maintenance.len() ==> (#[trigger] self.maintenance[i]).maintenance_id == i
                + 1
        &&& forall|i: int|
            0 <= i < self.recalls.len() ==> (#[trigger] self.recalls[i]).recall_id == i + 1
    }

    /// The implant is coherent, its device is registered, and its maintenance history
    /// lists, in the order of their identifiers, maintenance events that were made on
    /// it.
    pub open spec fn implant_valid(self, implant: ImplantRecordView) -> bool {
        &&& implant.coherent()
        &&& self.device_exists(implant.device_id)
        &&& increasing(implant.maintenance_history)
        &&& forall|j: int|
            0 <= j < implant.maintenance_history.len() ==> {
                &&& issued(self.maintenance.len(), #[trigger] implant.maintenance_history[j])
                &&& self.maintenance[implant.maintenance_history[j] - 1].implant_record_id
                    == implant.implant_record_id
            }
    }

    /// Every implant is [valid](Self::implant_valid).
    pub open spec fn implants_valid(self) -> bool {
        forall|i: int| 0 <= i < self.implants.len() ==> self.implant_valid(#[trigger] self.implants[i])
    }

    /// Every maintenance event and every performance report names an implant on
    /// record, and every maintenance event stands in the history of its implant.
    pub open spec fn events_valid(self) -> bool {
        &&& forall|i: int|
            0 <= i < self.maintenance.len() ==> {
                &&& self.implant_exists((#[trigger] self.maintenance[i]).implant_record_id)
                &&& self.implant(self.maintenance[i].implant_record_id).maintenance_history.contains(
                    self.maintenance[i].maintenance_id,
                )
            }
        &&& forall|i: int|
            0 <= i < self.performance_reports.len() ==> self.implant_exists(
                (#[trigger] self.performance_reports[i]).implant_record_id,
            )
    }

    /// The list of implants of `patient` names, in the order of their identifiers,
    /// implants on record that were placed in that patient.
    pub open spec fn patient_list_valid(self, patient: Seq<char>) -> bool {
        let list = filed_under(self.patient_implants, patient);
        &&& increasing(list)
        &&& forall|j: int|
            0 <= j < list.len() ==> self.implant_exists(#[trigger] list[j]) && self.implant(
                list[j],
            ).patient_id == patient
    }

    /// The list of implants of the device `device_id` names, in the order of their
    /// identifiers, implants on record that were made of that device.
    pub open spec fn device_list_valid(self, device_id: u64) -> bool {
        let list = filed_under(self.device_implants, device_id);
        &&& increasing(list)
        &&& forall|j: int|
            0 <= j < list.len() ==> self.implant_exists(#[trigger] list[j]) && self.implant(
                list[j],
            ).device_id == device_id
    }

    /// The list of recalls of the device `device_id` names, in the order of their
    /// identifiers, recalls on record that list that device.
    pub open spec fn recall_list_valid(self, device_id: u64) -> bool {
        let list = filed_under(self.device_recalls, device_id);
        &&& ordered(list)
        &&& forall|j: int|
            0 <= j < list.len() ==> self.recall_exists(#[trigger] list[j]) && self.recall(
                list[j],
            ).device_ids.contains(device_id)
    }

    /// Every list of every index is valid, every implant is named in the list of its
    /// patient and in that of its device, and every recall is named in the list of
    /// each device that it lists.
    pub open spec fn indices_valid(self) -> bool {
        &&& forall|patient: Seq<char>| #[trigger] self.patient_list_valid(patient)
        &&& forall|device_id: u64| #[trigger] self.device_list_valid(device_id)
        &&& forall|device_id: u64| #[trigger] self.recall_list_valid(device_id)
        &&& forall|i: int|
            0 <= i < self.implants.len() ==> {
                &&& filed_under(
                    self.patient_implants,
                    (#[trigger] self.implants[i]).patient_id,
                ).contains(self.implants[i].implant_record_id)
                &&& filed_under(self.device_implants, self.implants[i].device_id).contains(
                    self.implants[i].implant_record_id,
                )
            }
        &&& forall|i: int, k: int|
            0 <= i < self.recalls.len() && 0 <= k < self.recalls[i].device_ids.len() ==> filed_under(
                self.device_recalls,
                #[trigger] self.recalls[i].device_ids[k],
            ).contains(self.recalls[i].recall_id)
    }

    /// What holds of every registry that the operations can produce from the empty
    /// one: records are numbered in the order of their creation, and every reference
    /// from one record or index to another is sound.
    pub open spec fn well_formed(self) -> bool {
        &&& self.numbered()
        &&& self.implants_valid()
        &&& self.events_valid()
        &&& self.indices_valid()
    }
}

/// The empty registry is well formed.
pub proof fn lemma_empty_well_formed()
    ensures
        RegistryView::empty().well_formed(),
{
    let empty = RegistryView::empty();
    assert forall|patient: Seq<char>| #[trigger] empty.patient_list_valid(patient) by {}
    assert forall|device_id: u64| #[trigger] empty.device_list_valid(device_id) by {}
    assert forall|device_id: u64| #[trigger] empty.recall_list_valid(device_id) by {}
}

/// Registering a device under the next device identifier keeps a registry well formed.
pub proof fn lemma_registered_well_formed(registry: RegistryView, device: DeviceRecordView)
    requires
        registry.well_formed(),
        device.device_id == registry.devices.len() + 1,
    ensures
        registry.registered(device).well_formed(),
{
    let later = registry.registered(device);
    assert forall|i: int| 0 <= i < later.implants.len() implies later.implant_valid(
        #[trigger] later.implants[i],
    ) by {
        assert(registry.implant_valid(registry.implants[i]));
    }
    assert forall|patient: Seq<char>| #[trigger] later.patient_list_valid(patient) by {
        assert(registry.patient_list_valid(patient));
    }
    assert forall|device_id: u64| #[trigger] later.device_list_valid(device_id) by {
        assert(registry.device_list_valid(device_id));
    }
    assert forall|device_id: u64| #[trigger] later.recall_list_valid(device_id) by {
        assert(registry.recall_list_valid(device_id));
    }
}

/// Recording a prescription under the next prescription identifier keeps a registry
/// well formed.
pub proof fn lemma_prescribed_well_formed(
    registry: RegistryView,
    prescription: DmePrescriptionView,
)
    requires
        registry.well_formed(),
        prescription.prescription_id == registry.prescriptions.len() + 1,
    ensures
        registry.prescribed(prescription).well_formed(),
{
    let later = registry.prescribed(prescription);
    assert forall|i: int| 0 <= i < later.implants.len() implies later.implant_valid(
        #[trigger] later.implants[i],
    ) by {
        assert(registry.implant_valid(registry.implants[i]));
    }
    assert forall|patient: Seq<char>| #[trigger] later.patient_list_valid(patient) by {
        assert(registry.patient_list_valid(patient));
    }
    assert forall|device_id: u64| #[trigger] later.device_list_valid(device_id) by {
        assert(registry.device_list_valid(device_id));
    }
    assert forall|device_id: u64| #[trigger] later.recall_list_valid(device_id) by {
        assert(registry.recall_list_valid(device_id));
    }
}

/// Recording a performance report on an implant on record keeps a registry well
/// formed.
pub proof fn lemma_reported_well_formed(registry: RegistryView, report: PerformanceReportView)
    requires
        registry.well_formed(),
        registry.implant_exists(report.implant_record_id),
    ensures
        registry.reported(report).well_formed(),
{
    let later = registry.reported(report);
    assert forall|i: int| 0 <= i < later.implants.len() implies later.implant_valid(
        #[trigger] later.implants[i],
    ) by {
        assert(registry.implant_valid(registry.implants[i]));
    }
    assert forall|patient: Seq<char>| #[trigger] later.patient_list_valid(patient) by {
        assert(registry.patient_list_valid(patient));
    }
    assert forall|device_id: u64| #[trigger] later.device_list_valid(device_id) by {
        assert(registry.device_list_valid(device_id));
    }
    assert forall|device_id: u64| #[trigger] later.recall_list_valid(device_id) by {
        assert(registry.recall_list_valid(device_id));
    }
}

/// Recording an implant of a registered device under the next implant identifier,
/// active and without maintenance history, keeps a registry well formed.
pub proof fn lemma_implanted_well_formed(registry: RegistryView, implant: ImplantRecordView)
    requires
        registry.well_formed(),
        implant.implant_record_id == registry.implants.len() + 1,
        registry.device_exists(implant.device_id),
        implant.is_active,
        implant.coherent(),
        implant.maintenance_history.len() == 0,
    ensures
        registry.implanted(implant).well_formed(),
{
    let later = registry.implanted(implant);
    let new_id = implant.implant_record_id;
    assert forall|i: int| 0 <= i < later.implants.len() implies later.implant_valid(
        #[trigger] later.implants[i],
    ) by {
        if i < registry.implants.len() {
            assert(registry.implant_valid(registry.implants[i]));
        }
    }
    assert forall|i: int| 0 <= i < later.maintenance.len() implies {
        &&& later.implant_exists((#[trigger] later.maintenance[i]).implant_record_id)
        &&& later.implant(later.maintenance[i].implant_record_id).maintenance_history.contains(
            later.maintenance[i].maintenance_id,
        )
    } by {
        let on = registry.maintenance[i].implant_record_id;
        assert(registry.implant_exists(on));
        assert(later.implant(on) == registry.implant(on));
    }
    assert forall|patient: Seq<char>| #[trigger] later.patient_list_valid(patient) by {
        assert(registry.patient_list_valid(patient));
        let before = filed_under(registry.patient_implants, patient);
        let list = filed_under(later.patient_implants, patient);
        if patient == implant.patient_id {
            assert(list == before.push(new_id));
        } else {
            assert(list == before);
        }
        assert forall|j: int| 0 <= j < list.len() implies later.implant_exists(#[trigger] list[j])
            && later.implant(list[j]).patient_id == patient by {
            if j < before.len() {
                assert(registry.implant_exists(before[j]));
                assert(later.implant(before[j]) == registry.implant(before[j]));
            }
        }
        assert forall|a: int, b: int| 0 <= a < b < list.len() implies list[a] < list[b] by {
            assert(registry.implant_exists(before[a]));
        }
    }
    assert forall|device_id: u64| #[trigger] later.device_list_valid(device_id) by {
        assert(registry.device_list_valid(device_id));
        let before = filed_under(registry.device_implants, device_id);
        let list = filed_under(later.device_implants, device_id);
        if device_id == implant.device_id {
            assert(list == before.push(new_id));
        } else {
            assert(list == before);
        }
        assert forall|j: int| 0 <= j < list.len() implies later.implant_exists(#[trigger] list[j])
            && later.implant(list[j]).device_id == device_id by {
            if j < before.len() {
                assert(registry.implant_exists(before[j]));
                assert(later.implant(before[j]) == registry.implant(before[j]));
            }
        }
        assert forall|a: int, b: int| 0 <= a < b < list.len() implies list[a] < list[b] by {
            assert(registry.implant_exists(before[a]));
        }
    }
    assert forall|device_id: u64| #[trigger] later.recall_list_valid(device_id) by {
        assert(registry.recall_list_valid(device_id));
    }
    assert forall|i: int| 0 <= i < later.implants.len() implies {
        &&& filed_under(later.patient_implants, (#[trigger] later.implants[i]).patient_id).contains(
            later.implants[i].implant_record_id,
        )
        &&& filed_under(later.device_implants, later.implants[i].device_id).contains(
            later.implants[i].implant_record_id,
        )
    } by {
        let one = later.implants[i];
        lemma_filed_contains(registry.patient_implants, implant.patient_id, new_id, one.patient_id, one.implant_record_id);
        lemma_filed_contains(registry.device_implants, implant.device_id, new_id, one.device_id, one.implant_record_id);
    }
}

/// After `id` was filed under `key`, the list of `other` holds `wanted` if it is the
/// one just filed there or was there before.
proof fn lemma_filed_contains<K>(ids: Map<K, Seq<u64>>, key: K, id: u64, other: K, wanted: u64)
    requires
        (other == key && wanted == id) || filed_under(ids, other).contains(wanted),
    ensures
        filed_under(filed(ids, key, id), other).contains(wanted),
{
    let before = filed_under(ids, other);
    let list = filed_under(filed(ids, key, id), other);
    if other == key {
        assert(list == before.push(id));
        if before.contains(wanted) {
            let at = choose|at: int| 0 <= at < before.len() && before[at] == wanted;
            assert(list[at] == wanted);
        } else {
            assert(list[before.len() as int] == wanted);
        }
    } else {
        assert(list == before);
    }
}

/// Recording a maintenance event on an implant on record, under the next maintenance
/// identifier, keeps a registry well formed.
pub proof fn lemma_maintained_well_formed(registry: RegistryView, event: MaintenanceRecordView)
    requires
        registry.well_formed(),
        event.maintenance_id == registry.maintenance.len() + 1,
        registry.implant_exists(event.implant_record_id),
    ensures
        registry.maintained(event).well_formed(),
{
    let later = registry.maintained(event);
    let on = event.implant_record_id - 1;
    assert forall|i: int| 0 <= i < later.implants.len() implies later.implant_valid(
        #[trigger] later.implants[i],
    ) by {
        let was = registry.implants[i];
        let is = later.implants[i];
        assert(registry.implant_valid(was));
        if i == on {
            assert(is.maintenance_history == was.maintenance_history.push(event.maintenance_id));
            assert forall|a: int, b: int|
                0 <= a < b < is.maintenance_history.len() implies is.maintenance_history[a]
                < is.maintenance_history[b] by {
                assert(issued(registry.maintenance.len(), was.maintenance_history[a]));
            }
        }
    }
    assert forall|i: int| 0 <= i < later.maintenance.len() implies {
        &&& later.implant_exists((#[trigger] later.maintenance[i]).implant_record_id)
        &&& later.implant(later.maintenance[i].implant_record_id).maintenance_history.contains(
            later.maintenance[i].maintenance_id,
        )
    } by {
        let named = later.maintenance[i].implant_record_id;
        let history = later.implant(named).maintenance_history;
        if i < registry.maintenance.len() {
            let was = registry.implant(named).maintenance_history;
            assert(registry.implant_exists(named));
            let at = choose|at: int|
                0 <= at < was.len() && was[at] == registry.maintenance[i].maintenance_id;
            assert(history[at] == registry.maintenance[i].maintenance_id);
        } else {
            assert(history[history.len() - 1] == event.maintenance_id);
        }
    }
    assert forall|patient: Seq<char>| #[trigger] later.patient_list_valid(patient) by {
        assert(registry.patient_list_valid(patient));
        let list = filed_under(later.patient_implants, patient);
        assert forall|j: int| 0 <= j < list.len() implies later.implant_exists(#[trigger] list[j])
            && later.implant(list[j]).patient_id == patient by {
            assert(registry.implant_exists(list[j]));
        }
    }
    assert forall|device_id: u64| #[trigger] later.device_list_valid(device_id) by {
        assert(registry.device_list_valid(device_id));
        let list = filed_under(later.device_implants, device_id);
        assert forall|j: int| 0 <= j < list.len() implies later.implant_exists(#[trigger] list[j])
            && later.implant(list[j]).device_id == device_id by {
            assert(registry.implant_exists(list[j]));
        }
    }
    assert forall|device_id: u64| #[trigger] later.recall_list_valid(device_id) by {
        assert(registry.recall_list_valid(device_id));
    }
    assert forall|i: int| 0 <= i < later.implants.len() implies {
        &&& filed_under(later.patient_implants, (#[trigger] later.implants[i]).patient_id).contains(
            later.implants[i].implant_record_id,
        )
        &&& filed_under(later.device_implants, later.implants[i].device_id).contains(
            later.implants[i].implant_record_id,
        )
    } by {
        assert(later.implants[i].patient_id == registry.implants[i].patient_id);
    }
}

/// Recording the removal of an implant on record keeps a registry well formed.
pub proof fn lemma_removed_well_formed(
    registry: RegistryView,
    implant_record_id: u64,
    removal_date: u64,
    removal_reason: Seq<char>,
    explant_analysis_hash: Option<Seq<u8>>,
)
    requires
        registry.well_formed(),
        registry.implant_exists(implant_record_id),
    ensures
        registry.removed(
            implant_record_id,
            removal_date,
            removal_reason,
            explant_analysis_hash,
        ).well_formed(),
{
    let later = registry.removed(
        implant_record_id,
        removal_date,
        removal_reason,
        explant_analysis_hash,
    );
    assert forall|i: int| 0 <= i < later.implants.len() implies later.implant_valid(
        #[trigger] later.implants[i],
    ) by {
        assert(registry.implant_valid(registry.implants[i]));
    }
    assert forall|i: int| 0 <= i < later.maintenance.len() implies {
        &&& later.implant_exists((#[trigger] later.maintenance[i]).implant_record_id)
        &&& later.implant(later.maintenance[i].implant_record_id).maintenance_history.contains(
            later.maintenance[i].maintenance_id,
        )
    } by {
        let named = later.maintenance[i].implant_record_id;
        assert(registry.implant_exists(named));
        assert(later.implant(named).maintenance_history == registry.implant(
            named,
        ).maintenance_history);
    }
    assert forall|patient: Seq<char>| #[trigger] later.patient_list_valid(patient) by {
        assert(registry.patient_list_valid(patient));
        let list = filed_under(later.patient_implants, patient);
        assert forall|j: int| 0 <= j < list.len() implies later.implant_exists(#[trigger] list[j])
            && later.implant(list[j]).patient_id == patient by {
            assert(registry.implant_exists(list[j]));
        }
    }
    assert forall|device_id: u64| #[trigger] later.device_list_valid(device_id) by {
        assert(registry.device_list_valid(device_id));
        let list = filed_under(later.device_implants, device_id);
        assert forall|j: int| 0 <= j < list.len() implies later.implant_exists(#[trigger] list[j])
            && later.implant(list[j]).device_id == device_id by {
            assert(registry.implant_exists(list[j]));
        }
    }
    assert forall|device_id: u64| #[trigger] later.recall_list_valid(device_id) by {
        assert(registry.recall_list_valid(device_id));
    }
    assert forall|i: int| 0 <= i < later.implants.len() implies {
        &&& filed_under(later.patient_implants, (#[trigger] later.implants[i]).patient_id).contains(
            later.implants[i].implant_record_id,
        )
        &&& filed_under(later.device_implants, later.implants[i].device_id).contains(
            later.implants[i].implant_record_id,
        )
    } by {
        assert(later.implants[i].patient_id == registry.implants[i].patient_id);
    }
}

/// What filing `id` under each of `keys` makes of the list of `key`: the list as it
/// was, followed by `id` alone, at least once if `key` is among `keys` and not at all
/// if it is not.
pub proof fn lemma_filed_under_each_list(
    ids: Map<u64, Seq<u64>>,
    keys: Seq<u64>,
    id: u64,
    key: u64,
)
    ensures
        filed_under(ids, key).is_prefix_of(filed_under(filed_under_each(ids, keys, id), key)),
        forall|j: int|
            filed_under(ids, key).len() <= j < filed_under(
                filed_under_each(ids, keys, id),
                key,
            ).len() ==> filed_under(filed_under_each(ids, keys, id), key)[j] == id,
        keys.contains(key) ==> filed_under(filed_under_each(ids, keys, id), key).len()
            > filed_under(ids, key).len(),
        !keys.contains(key) ==> filed_under(filed_under_each(ids, keys, id), key) == filed_under(
            ids,
            key,
        ),
    decreases keys.len(),
{
    let before = filed_under(ids, key);
    if keys.len() == 0 {
        assert(before =~= before.subrange(0, before.len() as int));
    } else {
        let prior = filed_under_each(ids, keys.drop_last(), id);
        let between = filed_under(prior, key);
        let list = filed_under(filed_under_each(ids, keys, id), key);
        lemma_filed_under_each_list(ids, keys.drop_last(), id, key);
        if keys.last() == key {
            assert(list == between.push(id));
            assert(keys[keys.len() - 1] == key);
        } else {
            assert(list == between);
            if keys.contains(key) {
                let at = choose|at: int| 0 <= at < keys.len() && keys[at] == key;
                assert(keys.drop_last()[at] == key);
            }
        }
        if !keys.contains(key) {
            assert forall|at: int| 0 <= at < keys.drop_last().len() implies keys.drop_last()[at]
                != key by {
                assert(keys[at] == keys.drop_last()[at]);
            }
        }
        assert(before =~= list.subrange(0, before.len() as int)) by {
            assert(before =~= between.subrange(0, before.len() as int));
        }
    }
}

/// Issuing a recall under the next recall identifier keeps a registry well formed.
pub proof fn lemma_recalled_well_formed(registry: RegistryView, recall: RecallInfoView)
    requires
        registry.well_formed(),
        recall.recall_id == registry.recalls.len() + 1,
    ensures
        registry.recalled(recall).well_formed(),
{
    let later = registry.recalled(recall);
    assert forall|i: int| 0 <= i < later.implants.len() implies later.implant_valid(
        #[trigger] later.implants[i],
    ) by {
        assert(registry.implant_valid(registry.implants[i]));
    }
    assert forall|patient: Seq<char>| #[trigger] later.patient_list_valid(patient) by {
        assert(registry.patient_list_valid(patient));
    }
    assert forall|device_id: u64| #[trigger] later.device_list_valid(device_id) by {
        assert(registry.device_list_valid(device_id));
    }
    assert forall|device_id: u64| #[trigger] later.recall_list_valid(device_id) by {
        assert(registry.recall_list_valid(device_id));
        lemma_filed_under_each_list(
            registry.device_recalls,
            recall.device_ids,
            recall.recall_id,
            device_id,
        );
        let before = filed_under(registry.device_recalls, device_id);
        let list = filed_under(later.device_recalls, device_id);
        assert forall|j: int| 0 <= j < list.len() implies later.recall_exists(#[trigger] list[j])
            && later.recall(list[j]).device_ids.contains(device_id) by {
            if j < before.len() {
                assert(list[j] == list.subrange(0, before.len() as int)[j]);
                assert(registry.recall_exists(before[j]));
                assert(later.recall(before[j]) == registry.recall(before[j]));
            } else {
                assert(later.recall(recall.recall_id) == recall);
            }
        }
        assert forall|a: int, b: int| 0 <= a <= b < list.len() implies list[a] <= list[b] by {
            if a < before.len() {
                assert(list[a] == list.subrange(0, before.len() as int)[a]);
                assert(registry.recall_exists(before[a]));
            }
            if b < before.len() {
                assert(list[b] == list.subrange(0, before.len() as int)[b]);
            }
        }
    }
    assert forall|i: int, k: int|
        0 <= i < later.recalls.len() && 0 <= k < later.recalls[i].device_ids.len() implies filed_under(
        later.device_recalls,
        #[trigger] later.recalls[i].device_ids[k],
    ).contains(later.recalls[i].recall_id) by {
        let device_id = later.recalls[i].device_ids[k];
        lemma_filed_under_each_list(
            registry.device_recalls,
            recall.device_ids,
            recall.recall_id,
            device_id,
        );
        let before = filed_under(registry.device_recalls, device_id);
        let list = filed_under(later.device_recalls, device_id);
        if i < registry.recalls.len() {
            assert(registry.recalls[i].device_ids[k] == device_id);
            assert(before.contains(registry.recalls[i].recall_id));
            let at = choose|at: int| 0 <= at < before.len() && before[at] == registry.recalls[i].recall_id;
            assert(list[at] == list.subrange(0, before.len() as int)[at]);
        } else {
            assert(recall.device_ids.contains(device_id));
            assert(list[before.len() as int] == recall.recall_id);
        }
    }
}

} // verus!
