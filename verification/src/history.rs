//! How the registry may change over time: records are added, never taken away or
//! rewritten, and a removed implant stays removed.

use vstd::prelude::*;
use crate::index::filed_under;
use crate::state::{filed, filed_under_each, RegistryView};
use crate::types::{
    DeviceRecordView, DmePrescriptionView, ImplantRecordView, MaintenanceRecordView,
    PerformanceReportView, RecallInfoView,
};

verus! {

/// Whether, under every key, the list in `later` starts with the list in `earlier`.
pub open spec fn lists_grow<K>(earlier: Map<K, Seq<u64>>, later: Map<K, Seq<u64>>) -> bool {
    forall|key: K|
        (#[trigger] filed_under(earlier, key)).is_prefix_of(#[trigger] filed_under(later, key))
}

impl RegistryView {
    /// Whether this registry may be what became of `earlier`.
    ///
    /// Devices, prescriptions, maintenance events, recalls and performance reports are
    /// the earlier ones, unchanged, followed by new ones. Each earlier implant is still
    /// there and [follows](ImplantRecordView::follows) what it was. Each list of each
    /// index starts with what it held earlier.
    pub open spec fn extends(self, earlier: RegistryView) -> bool {
        &&& earlier.devices.is_prefix_of(self.devices)
        &&& earlier.prescriptions.is_prefix_of(self.prescriptions)
        &&& earlier.maintenance.is_prefix_of(self.maintenance)
        &&& earlier.recalls.is_prefix_of(self.recalls)
        &&& earlier.performance_reports.is_prefix_of(self.performance_reports)
        &&& earlier.implants.len() <= self.implants.len()
        &&& forall|i: int|
            0 <= i < earlier.implants.len() ==> (#[trigger] self.implants[i]).follows(
                earlier.implants[i],
            )
        &&& lists_grow(earlier.patient_implants, self.patient_implants)
        &&& lists_grow(earlier.device_implants, self.device_implants)
        &&& lists_grow(earlier.device_recalls, self.device_recalls)
    }
}

proof fn lemma_prefix_transitive<T>(a: Seq<T>, b: Seq<T>, c: Seq<T>)
    requires
        a.is_prefix_of(b),
        b.is_prefix_of(c),
    ensures
        a.is_prefix_of(c),
{
    assert forall|i: int| 0 <= i < a.len() implies a[i] == c[i] by {
        assert(a[i] == b.subrange(0, a.len() as int)[i]);
        assert(b[i] == c.subrange(0, b.len() as int)[i]);
    }
    assert(a =~= c.subrange(0, a.len() as int));
}

proof fn lemma_lists_grow_transitive<K>(
    a: Map<K, Seq<u64>>,
    b: Map<K, Seq<u64>>,
    c: Map<K, Seq<u64>>,
)
    requires
        lists_grow(a, b),
        lists_grow(b, c),
    ensures
        lists_grow(a, c),
{
    assert forall|key: K|
        (#[trigger] filed_under(a, key)).is_prefix_of(#[trigger] filed_under(c, key)) by {
        lemma_prefix_transitive(filed_under(a, key), filed_under(b, key), filed_under(c, key));
    }
}

proof fn lemma_filed_grows<K>(ids: Map<K, Seq<u64>>, key: K, id: u64)
    ensures
        lists_grow(ids, filed(ids, key, id)),
{
    assert forall|other: K|
        (#[trigger] filed_under(ids, other)).is_prefix_of(
            #[trigger] filed_under(filed(ids, key, id), other),
        ) by {
        let before = filed_under(ids, other);
        let after = filed_under(filed(ids, key, id), other);
        if other == key {
            assert(after == before.push(id));
        }
        assert(before =~= after.subrange(0, before.len() as int));
    }
}

proof fn lemma_filed_under_each_grows(ids: Map<u64, Seq<u64>>, keys: Seq<u64>, id: u64)
    ensures
        lists_grow(ids, filed_under_each(ids, keys, id)),
    decreases keys.len(),
{
    if keys.len() == 0 {
        assert forall|key: u64|
            (#[trigger] filed_under(ids, key)).is_prefix_of(#[trigger] filed_under(ids, key)) by {
            let list = filed_under(ids, key);
            assert(list =~= list.subrange(0, list.len() as int));
        }
    } else {
        let prior = filed_under_each(ids, keys.drop_last(), id);
        lemma_filed_under_each_grows(ids, keys.drop_last(), id);
        lemma_filed_grows(prior, keys.last(), id);
        lemma_lists_grow_transitive(ids, prior, filed(prior, keys.last(), id));
    }
}

proof fn lemma_lists_grow_reflexive<K>(ids: Map<K, Seq<u64>>)
    ensures
        lists_grow(ids, ids),
{
    assert forall|key: K|
        (#[trigger] filed_under(ids, key)).is_prefix_of(#[trigger] filed_under(ids, key)) by {
        let list = filed_under(ids, key);
        assert(list =~= list.subrange(0, list.len() as int));
    }
}

proof fn lemma_prefix_reflexive<T>(s: Seq<T>)
    ensures
        s.is_prefix_of(s),
        forall|x: T| s.is_prefix_of(#[trigger] s.push(x)),
{
    assert(s =~= s.subrange(0, s.len() as int));
    assert forall|x: T| s.is_prefix_of(#[trigger] s.push(x)) by {
        assert(s =~= s.push(x).subrange(0, s.len() as int));
    }
}

proof fn lemma_same_records_extend(earlier: RegistryView)
    ensures
        earlier.devices.is_prefix_of(earlier.devices),
        earlier.prescriptions.is_prefix_of(earlier.prescriptions),
        earlier.maintenance.is_prefix_of(earlier.maintenance),
        earlier.recalls.is_prefix_of(earlier.recalls),
        earlier.performance_reports.is_prefix_of(earlier.performance_reports),
        forall|i: int|
            0 <= i < earlier.implants.len() ==> (#[trigger] earlier.implants[i]).follows(
                earlier.implants[i],
            ),
        lists_grow(earlier.patient_implants, earlier.patient_implants),
        lists_grow(earlier.device_implants, earlier.device_implants),
        lists_grow(earlier.device_recalls, earlier.device_recalls),
{
    lemma_prefix_reflexive(earlier.devices);
    lemma_prefix_reflexive(earlier.prescriptions);
    lemma_prefix_reflexive(earlier.maintenance);
    lemma_prefix_reflexive(earlier.recalls);
    lemma_prefix_reflexive(earlier.performance_reports);
    assert forall|i: int| 0 <= i < earlier.implants.len() implies (#[trigger] earlier.implants[i]).follows(
        earlier.implants[i],
    ) by {
        lemma_prefix_reflexive(earlier.implants[i].maintenance_history);
    }
    lemma_lists_grow_reflexive(earlier.patient_implants);
    lemma_lists_grow_reflexive(earlier.device_implants);
    lemma_lists_grow_reflexive(earlier.device_recalls);
}

/// A registry extends itself.
pub proof fn lemma_extends_itself(registry: RegistryView)
    ensures
        registry.extends(registry),
{
    lemma_same_records_extend(registry);
}

/// What extends an extension of a registry extends that registry: whatever held of
/// one change of the registry holds of any number of changes in a row.
pub proof fn lemma_extends_transitive(first: RegistryView, second: RegistryView, third: RegistryView)
    requires
        second.extends(first),
        third.extends(second),
    ensures
        third.extends(first),
{
    lemma_prefix_transitive(first.devices, second.devices, third.devices);
    lemma_prefix_transitive(first.prescriptions, second.prescriptions, third.prescriptions);
    lemma_prefix_transitive(first.maintenance, second.maintenance, third.maintenance);
    lemma_prefix_transitive(first.recalls, second.recalls, third.recalls);
    lemma_prefix_transitive(
        first.performance_reports,
        second.performance_reports,
        third.performance_reports,
    );
    assert forall|i: int| 0 <= i < first.implants.len() implies (#[trigger] third.implants[i]).follows(
        first.implants[i],
    ) by {
        assert(second.implants[i].follows(first.implants[i]));
        assert(third.implants[i].follows(second.implants[i]));
        lemma_prefix_transitive(
            first.implants[i].maintenance_history,
            second.implants[i].maintenance_history,
            third.implants[i].maintenance_history,
        );
    }
    lemma_lists_grow_transitive(
        first.patient_implants,
        second.patient_implants,
        third.patient_implants,
    );
    lemma_lists_grow_transitive(
        first.device_implants,
        second.device_implants,
        third.device_implants,
    );
    lemma_lists_grow_transitive(first.device_recalls, second.device_recalls, third.device_recalls);
}

/// Registering a device extends the registry.
pub proof fn lemma_registered_extends(registry: RegistryView, device: DeviceRecordView)
    ensures
        registry.registered(device).extends(registry),
{
    lemma_same_records_extend(registry);
    lemma_prefix_reflexive(registry.devices);
}

/// Recording an implant extends the registry.
pub proof fn lemma_implanted_extends(registry: RegistryView, implant: ImplantRecordView)
    ensures
        registry.implanted(implant).extends(registry),
{
    lemma_same_records_extend(registry);
    lemma_filed_grows(registry.patient_implants, implant.patient_id, implant.implant_record_id);
    lemma_filed_grows(registry.device_implants, implant.device_id, implant.implant_record_id);
}

/// Recording a prescription extends the registry.
pub proof fn lemma_prescribed_extends(registry: RegistryView, prescription: DmePrescriptionView)
    ensures
        registry.prescribed(prescription).extends(registry),
{
    lemma_same_records_extend(registry);
    lemma_prefix_reflexive(registry.prescriptions);
}

/// Recording a maintenance event on an implant on record extends the registry.
pub proof fn lemma_maintained_extends(registry: RegistryView, event: MaintenanceRecordView)
    requires
        registry.implant_exists(event.implant_record_id),
    ensures
        registry.maintained(event).extends(registry),
{
    lemma_same_records_extend(registry);
    lemma_prefix_reflexive(registry.maintenance);
    let later = registry.maintained(event);
    assert forall|i: int| 0 <= i < registry.implants.len() implies (#[trigger] later.implants[i]).follows(
        registry.implants[i],
    ) by {
        lemma_prefix_reflexive(registry.implants[i].maintenance_history);
    }
}

/// Issuing a recall extends the registry.
pub proof fn lemma_recalled_extends(registry: RegistryView, recall: RecallInfoView)
    ensures
        registry.recalled(recall).extends(registry),
{
    lemma_same_records_extend(registry);
    lemma_prefix_reflexive(registry.recalls);
    lemma_filed_under_each_grows(registry.device_recalls, recall.device_ids, recall.recall_id);
}

/// Recording the removal of an active implant extends the registry.
pub proof fn lemma_removed_extends(
    registry: RegistryView,
    implant_record_id: u64,
    removal_date: u64,
    removal_reason: Seq<char>,
    explant_analysis_hash: Option<Seq<u8>>,
)
    requires
        registry.implant_exists(implant_record_id),
        registry.implant(implant_record_id).is_active,
    ensures
        registry.removed(
            implant_record_id,
            removal_date,
            removal_reason,
            explant_analysis_hash,
        ).extends(registry),
{
    lemma_same_records_extend(registry);
    let later = registry.removed(
        implant_record_id,
        removal_date,
        removal_reason,
        explant_analysis_hash,
    );
    assert forall|i: int| 0 <= i < registry.implants.len() implies (#[trigger] later.implants[i]).follows(
        registry.implants[i],
    ) by {
        lemma_prefix_reflexive(registry.implants[i].maintenance_history);
    }
}

/// Recording a performance report extends the registry.
pub proof fn lemma_reported_extends(registry: RegistryView, report: PerformanceReportView)
    ensures
        registry.reported(report).extends(registry),
{
    lemma_same_records_extend(registry);
    lemma_prefix_reflexive(registry.performance_reports);
}

} // verus!
