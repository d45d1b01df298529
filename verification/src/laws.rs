//! Laws that relate the operations of the registry to one another.
//!
//! Each is stated over [`RegistryView`], in the terms in which the operations state
//! what they do. Where a law speaks of a later registry, it means any registry that
//! [extends](RegistryView::extends) the earlier one: every operation extends the
//! registry it works on, so what holds of an extension holds after any number of
//! operations.

use vstd::prelude::*;
use crate::index::filed_under;
use crate::state::RegistryView;
use crate::types::{
    DeviceRecordView, Error, ImplantRecordView, PerformanceReportView, RecallInfoView,
};
use crate::validity::{
    increasing, lemma_filed_under_each_list, lemma_recalled_well_formed, ordered,
};

verus! {

/// The first device to be registered gets the identifier 1.
pub proof fn law_first_device_identifier()
    ensures
        RegistryView::empty().next_device_id() == 1,
{
}

/// No identifier is given out twice: in a later registry the next identifier of each
/// category is at least what it was.
pub proof fn law_identifiers_never_reused(earlier: RegistryView, later: RegistryView)
    requires
        later.extends(earlier),
    ensures
        later.next_device_id() >= earlier.next_device_id(),
        later.next_implant_id() >= earlier.next_implant_id(),
        later.next_prescription_id() >= earlier.next_prescription_id(),
        later.next_maintenance_id() >= earlier.next_maintenance_id(),
        later.next_recall_id() >= earlier.next_recall_id(),
{
}

/// Device identifiers increase: whatever is registered after a device gets a greater
/// identifier than that device got.
pub proof fn law_device_identifiers_increase(
    earlier: RegistryView,
    device: DeviceRecordView,
    later: RegistryView,
)
    requires
        later.extends(earlier.registered(device)),
    ensures
        earlier.registered(device).next_device_id() == earlier.next_device_id() + 1,
        later.next_device_id() > earlier.next_device_id(),
{
}

/// In a row of registrations, each device gets the identifier after that of the device
/// before it, and the first gets the next identifier of the registry that the row
/// starts from: 1, if that registry is empty.
pub proof fn law_registrations_count_up(
    start: RegistryView,
    devices: Seq<DeviceRecordView>,
    done: int,
)
    requires
        0 <= done <= devices.len(),
    ensures
        start.registered_all(devices.take(done)).next_device_id() == start.next_device_id()
            + done,
        RegistryView::empty().registered_all(devices.take(done)).next_device_id() == 1 + done,
    decreases done,
{
    if done > 0 {
        law_registrations_count_up(start, devices, done - 1);
        law_registrations_count_up(RegistryView::empty(), devices, done - 1);
        assert(devices.take(done).drop_last() =~= devices.take(done - 1));
    }
}

/// A removal is final: once the removal of an implant has been recorded, every later
/// attempt to remove that implant fails because the implant is not active.
pub proof fn law_removal_is_final(
    earlier: RegistryView,
    implant_record_id: u64,
    removal_date: u64,
    removal_reason: Seq<char>,
    explant_analysis_hash: Option<Seq<u8>>,
    later: RegistryView,
)
    requires
        earlier.removal_outcome(implant_record_id) is Ok,
        later.extends(
            earlier.removed(
                implant_record_id,
                removal_date,
                removal_reason,
                explant_analysis_hash,
            ),
        ),
    ensures
        later.removal_outcome(implant_record_id) == Err::<(), Error>(Error::DeviceNotActive),
{
    let removed = earlier.removed(
        implant_record_id,
        removal_date,
        removal_reason,
        explant_analysis_hash,
    );
    assert(later.implants[implant_record_id - 1].follows(removed.implants[implant_record_id - 1]));
}

/// Whether an implant is active, as a predicate.
pub open spec fn is_active() -> spec_fn(ImplantRecordView) -> bool {
    |implant: ImplantRecordView| implant.is_active
}

proof fn lemma_active_listing_filters(registry: RegistryView, ids: Seq<u64>)
    ensures
        ids.filter_map(registry.implant_lister(true)) == ids.filter_map(
            registry.implant_lister(false),
        ).filter(is_active()),
    decreases ids.len(),
{
    reveal(Seq::filter);
    if ids.len() > 0 {
        lemma_active_listing_filters(registry, ids.drop_last());
        let all = ids.drop_last().filter_map(registry.implant_lister(false));
        match registry.listed_implant(ids.last(), false) {
            Some(implant) => {
                assert((all + seq![implant]).drop_last() =~= all);
                assert(all.filter(is_active()) + seq![implant] =~= all.filter(is_active()).push(
                    implant,
                ));
            },
            None => {},
        }
    }
}

/// The active implants of a patient are those of all the implants of that patient that
/// are active, in the same order.
pub proof fn law_active_listing_filters(registry: RegistryView, patient: Seq<char>)
    ensures
        registry.implants_of(patient, true) == registry.implants_of(patient, false).filter(
            is_active(),
        ),
{
    lemma_active_listing_filters(registry, filed_under(registry.patient_implants, patient));
}

/// A device under which no recall is filed has the empty list of recalls.
pub proof fn law_no_recalls_listed(registry: RegistryView, device_id: u64)
    requires
        filed_under(registry.device_recalls, device_id).len() == 0,
    ensures
        registry.recalls_of(device_id) == Seq::<RecallInfoView>::empty(),
{
}

proof fn lemma_all_listed<T>(ids: Seq<u64>, lister: spec_fn(u64) -> Option<T>)
    requires
        forall|j: int| 0 <= j < ids.len() ==> lister(#[trigger] ids[j]) is Some,
    ensures
        ids.filter_map(lister).len() == ids.len(),
        forall|j: int|
            0 <= j < ids.len() ==> Some(#[trigger] ids.filter_map(lister)[j]) == lister(ids[j]),
    decreases ids.len(),
{
    if ids.len() > 0 {
        assert forall|j: int| 0 <= j < ids.drop_last().len() implies lister(
            #[trigger] ids.drop_last()[j],
        ) is Some by {
            assert(ids.drop_last()[j] == ids[j]);
        }
        lemma_all_listed(ids.drop_last(), lister);
        assert(lister(ids[ids.len() - 1]) is Some);
    }
}

/// In a well-formed registry, the recalls of a device are listed one for one as they
/// were filed, in the order in which they were issued: none comes before a recall
/// with a smaller identifier.
pub proof fn law_recalls_in_order_of_issue(registry: RegistryView, device_id: u64)
    requires
        registry.well_formed(),
    ensures
        registry.recalls_of(device_id).len() == filed_under(
            registry.device_recalls,
            device_id,
        ).len(),
        forall|j: int|
            0 <= j < registry.recalls_of(device_id).len() ==> (#[trigger] registry.recalls_of(
                device_id,
            )[j]).recall_id == filed_under(registry.device_recalls, device_id)[j],
        forall|a: int, b: int|
            0 <= a <= b < registry.recalls_of(device_id).len() ==> registry.recalls_of(
                device_id,
            )[a].recall_id <= registry.recalls_of(device_id)[b].recall_id,
{
    let list = filed_under(registry.device_recalls, device_id);
    assert(registry.recall_list_valid(device_id));
    assert(ordered(list));
    lemma_all_listed(list, registry.recall_lister());
    assert forall|j: int| 0 <= j < registry.recalls_of(device_id).len() implies (
    #[trigger] registry.recalls_of(device_id)[j]).recall_id == list[j] by {
        assert(registry.recall_exists(list[j]));
        assert(Some(registry.recalls_of(device_id)[j]) == registry.listed_recall(list[j]));
    }
}

/// A recall that has just been issued is the last of the recalls of each device that
/// it lists, after all the recalls that the device had before.
pub proof fn law_new_recall_listed_last(
    registry: RegistryView,
    recall: RecallInfoView,
    device_id: u64,
)
    requires
        registry.well_formed(),
        recall.recall_id == registry.next_recall_id(),
        recall.device_ids.contains(device_id),
    ensures
        registry.recalls_of(device_id).is_prefix_of(
            registry.recalled(recall).recalls_of(device_id),
        ),
        registry.recalled(recall).recalls_of(device_id).len() > registry.recalls_of(
            device_id,
        ).len(),
        registry.recalled(recall).recalls_of(device_id).last() == recall,
{
    let later = registry.recalled(recall);
    let before = filed_under(registry.device_recalls, device_id);
    let list = filed_under(later.device_recalls, device_id);
    let was = registry.recalls_of(device_id);
    let is = later.recalls_of(device_id);
    lemma_recalled_well_formed(registry, recall);
    lemma_filed_under_each_list(
        registry.device_recalls,
        recall.device_ids,
        recall.recall_id,
        device_id,
    );
    law_recalls_in_order_of_issue(registry, device_id);
    law_recalls_in_order_of_issue(later, device_id);
    assert(registry.recall_list_valid(device_id));
    assert(later.recall_list_valid(device_id));
    lemma_all_listed(before, registry.recall_lister());
    lemma_all_listed(list, later.recall_lister());
    assert forall|j: int| 0 <= j < was.len() implies was[j] == is[j] by {
        assert(list[j] == list.subrange(0, before.len() as int)[j]);
        assert(registry.recall_exists(before[j]));
        assert(Some(was[j]) == registry.listed_recall(before[j]));
        assert(Some(is[j]) == later.listed_recall(list[j]));
    }
    assert(was =~= is.subrange(0, was.len() as int));
    assert(Some(is[is.len() - 1]) == later.listed_recall(list[list.len() - 1]));
}

proof fn lemma_listers_agree<T>(
    ids: Seq<u64>,
    one: spec_fn(u64) -> Option<T>,
    other: spec_fn(u64) -> Option<T>,
)
    requires
        forall|j: int| 0 <= j < ids.len() ==> one(#[trigger] ids[j]) == other(ids[j]),
    ensures
        ids.filter_map(one) == ids.filter_map(other),
    decreases ids.len(),
{
    if ids.len() > 0 {
        assert forall|j: int| 0 <= j < ids.drop_last().len() implies one(
            #[trigger] ids.drop_last()[j],
        ) == other(ids.drop_last()[j]) by {
            assert(ids.drop_last()[j] == ids[j]);
        }
        lemma_listers_agree(ids.drop_last(), one, other);
        assert(one(ids[ids.len() - 1]) == other(ids[ids.len() - 1]));
    }
}

/// An implant that has just been recorded is the last of the implants of its patient,
/// after all the implants that the patient had before, and its patient is the last of
/// the patients to notify of a recall of its device; the implants of other patients
/// and the patients of other devices are what they were.
pub proof fn law_new_implant_listed_last(
    registry: RegistryView,
    implant: ImplantRecordView,
    patient: Seq<char>,
    device_id: u64,
    active_only: bool,
)
    requires
        registry.well_formed(),
        implant.implant_record_id == registry.next_implant_id(),
        implant.is_active,
    ensures
        patient == implant.patient_id ==> registry.implanted(implant).implants_of(
            patient,
            active_only,
        ) == registry.implants_of(patient, active_only).push(implant),
        patient != implant.patient_id ==> registry.implanted(implant).implants_of(
            patient,
            active_only,
        ) == registry.implants_of(patient, active_only),
        device_id == implant.device_id ==> registry.implanted(implant).patients_with(device_id)
            == registry.patients_with(device_id).push(implant.patient_id),
        device_id != implant.device_id ==> registry.implanted(implant).patients_with(device_id)
            == registry.patients_with(device_id),
{
    lemma_new_implant_among_patients(registry, implant, device_id);
    let later = registry.implanted(implant);
    let before = filed_under(registry.patient_implants, patient);
    let list = filed_under(later.patient_implants, patient);
    let was = registry.implant_lister(active_only);
    let is = later.implant_lister(active_only);
    assert(registry.patient_list_valid(patient));
    assert forall|j: int| 0 <= j < before.len() implies was(#[trigger] before[j]) == is(
        before[j],
    ) by {
        assert(registry.implant_exists(before[j]));
        assert(later.implant(before[j]) == registry.implant(before[j]));
    }
    lemma_listers_agree(before, was, is);
    if patient == implant.patient_id {
        assert(list == before.push(implant.implant_record_id));
        assert(list.drop_last() =~= before);
        assert(is(list.last()) == Some(implant));
        assert(before.filter_map(is) + seq![implant] =~= before.filter_map(is).push(implant));
    } else {
        assert(list == before);
    }
}

proof fn lemma_new_implant_among_patients(
    registry: RegistryView,
    implant: ImplantRecordView,
    device_id: u64,
)
    requires
        registry.well_formed(),
        implant.implant_record_id == registry.next_implant_id(),
        implant.is_active,
    ensures
        device_id == implant.device_id ==> registry.implanted(implant).patients_with(device_id)
            == registry.patients_with(device_id).push(implant.patient_id),
        device_id != implant.device_id ==> registry.implanted(implant).patients_with(device_id)
            == registry.patients_with(device_id),
{
    let later = registry.implanted(implant);
    let before = filed_under(registry.device_implants, device_id);
    let list = filed_under(later.device_implants, device_id);
    let was = registry.patient_lister();
    let is = later.patient_lister();
    assert(registry.device_list_valid(device_id));
    assert forall|j: int| 0 <= j < before.len() implies was(#[trigger] before[j]) == is(
        before[j],
    ) by {
        assert(registry.implant_exists(before[j]));
        assert(later.implant(before[j]) == registry.implant(before[j]));
    }
    lemma_listers_agree(before, was, is);
    if device_id == implant.device_id {
        assert(list == before.push(implant.implant_record_id));
        assert(list.drop_last() =~= before);
        assert(is(list.last()) == Some(implant.patient_id));
        assert(before.filter_map(is) + seq![implant.patient_id] =~= before.filter_map(is).push(
            implant.patient_id,
        ));
    } else {
        assert(list == before);
    }
}

/// The predicate that holds of every identifier but `id`.
pub open spec fn other_than(id: u64) -> spec_fn(u64) -> bool {
    |other: u64| other != id
}

proof fn lemma_removed_not_listed<T>(
    ids: Seq<u64>,
    id: u64,
    was: spec_fn(u64) -> Option<T>,
    is: spec_fn(u64) -> Option<T>,
)
    requires
        is(id) is None,
        forall|other: u64| other != id ==> #[trigger] is(other) == was(other),
    ensures
        ids.filter_map(is) == ids.filter(other_than(id)).filter_map(was),
    decreases ids.len(),
{
    reveal(Seq::filter);
    if ids.len() > 0 {
        lemma_removed_not_listed(ids.drop_last(), id, was, is);
        let kept = ids.drop_last().filter(other_than(id));
        if ids.last() != id {
            assert(is(ids.last()) == was(ids.last()));
            assert(kept.push(ids.last()).drop_last() =~= kept);
        }
    }
}

/// After the removal of an implant, the active implants of a patient are those that
/// the other entries of the patient's list name, and the patients to notify of a
/// recall of a device are those that the other entries of the device's list name.
pub proof fn law_removed_implant_not_listed(
    registry: RegistryView,
    implant_record_id: u64,
    removal_date: u64,
    removal_reason: Seq<char>,
    explant_analysis_hash: Option<Seq<u8>>,
    patient: Seq<char>,
    device_id: u64,
)
    requires
        registry.removal_outcome(implant_record_id) is Ok,
    ensures
        registry.removed(
            implant_record_id,
            removal_date,
            removal_reason,
            explant_analysis_hash,
        ).implants_of(patient, true) == filed_under(registry.patient_implants, patient).filter(
            other_than(implant_record_id),
        ).filter_map(registry.implant_lister(true)),
        registry.removed(
            implant_record_id,
            removal_date,
            removal_reason,
            explant_analysis_hash,
        ).patients_with(device_id) == filed_under(registry.device_implants, device_id).filter(
            other_than(implant_record_id),
        ).filter_map(registry.patient_lister()),
{
    let later = registry.removed(
        implant_record_id,
        removal_date,
        removal_reason,
        explant_analysis_hash,
    );
    assert forall|other: u64| other != implant_record_id implies #[trigger] later.implant_lister(
        true,
    )(other) == registry.implant_lister(true)(other) by {
        if registry.implant_exists(other) {
            assert(later.implant(other) == registry.implant(other));
        }
    }
    lemma_removed_not_listed(
        filed_under(registry.patient_implants, patient),
        implant_record_id,
        registry.implant_lister(true),
        later.implant_lister(true),
    );
    assert forall|other: u64| other != implant_record_id implies #[trigger] later.patient_lister()(
        other,
    ) == registry.patient_lister()(other) by {
        if registry.implant_exists(other) {
            assert(later.implant(other) == registry.implant(other));
        }
    }
    lemma_removed_not_listed(
        filed_under(registry.device_implants, device_id),
        implant_record_id,
        registry.patient_lister(),
        later.patient_lister(),
    );
}

/// A performance report that has just been recorded is the last of the reports on its
/// implant, after all that were made on it before; the reports on other implants are
/// what they were.
pub proof fn law_new_report_listed_last(
    registry: RegistryView,
    report: PerformanceReportView,
    implant_record_id: u64,
)
    ensures
        implant_record_id == report.implant_record_id ==> registry.reported(report).reports_on(
            implant_record_id,
        ) == registry.reports_on(implant_record_id).push(report),
        implant_record_id != report.implant_record_id ==> registry.reported(report).reports_on(
            implant_record_id,
        ) == registry.reports_on(implant_record_id),
{
    reveal(Seq::filter);
    assert(registry.performance_reports.push(report).drop_last() =~= registry.performance_reports);
}

/// The identifiers `1, 2, .., count`, in this order.
pub open spec fn identifiers(count: nat) -> Seq<u64> {
    Seq::new(count, |i: int| (i + 1) as u64)
}

impl RegistryView {
    /// The predicate that holds of the identifiers of the implants placed in `patient`.
    pub open spec fn placed_in(self, patient: Seq<char>) -> spec_fn(u64) -> bool {
        |id: u64| self.implant(id).patient_id == patient
    }

    /// The predicate that holds of the identifiers of the implants made of the device
    /// `device_id`.
    pub open spec fn made_of(self, device_id: u64) -> spec_fn(u64) -> bool {
        |id: u64| self.implant(id).device_id == device_id
    }
}

proof fn lemma_filter_of_increasing(ids: Seq<u64>, wanted: spec_fn(u64) -> bool)
    requires
        increasing(ids),
    ensures
        increasing(ids.filter(wanted)),
        forall|id: u64|
            #![trigger ids.filter(wanted).contains(id)]
            #![trigger ids.contains(id)]
            ids.filter(wanted).contains(id) <==> ids.contains(id) && wanted(id),
    decreases ids.len(),
{
    reveal(Seq::filter);
    let kept = ids.filter(wanted);
    if ids.len() == 0 {
        assert forall|id: u64|
            #![trigger kept.contains(id)]
            #![trigger ids.contains(id)]
            kept.contains(id) <==> ids.contains(id) && wanted(id) by {}
    } else {
        let rest = ids.drop_last();
        let last = ids.last();
        assert forall|a: int, b: int| 0 <= a < b < rest.len() implies rest[a] < rest[b] by {
            assert(rest[a] == ids[a] && rest[b] == ids[b]);
        }
        lemma_filter_of_increasing(rest, wanted);
        let before = rest.filter(wanted);
        assert forall|a: int| 0 <= a < before.len() implies before[a] < last by {
            assert(before.contains(before[a]));
            assert(rest.contains(before[a]));
            let at = choose|at: int| 0 <= at < rest.len() && rest[at] == before[a];
            assert(ids[at] < ids[ids.len() - 1]);
        }
        assert forall|id: u64|
            #![trigger kept.contains(id)]
            #![trigger ids.contains(id)]
            kept.contains(id) <==> ids.contains(id) && wanted(id) by {
            if kept.contains(id) {
                let at = choose|at: int| 0 <= at < kept.len() && kept[at] == id;
                if at < before.len() {
                    assert(before[at] == id);
                    assert(before.contains(id));
                    let from = choose|from: int| 0 <= from < rest.len() && rest[from] == id;
                    assert(ids[from] == id);
                } else {
                    assert(ids[ids.len() - 1] == id);
                }
            }
            if ids.contains(id) && wanted(id) {
                let from = choose|from: int| 0 <= from < ids.len() && ids[from] == id;
                if from < rest.len() {
                    assert(rest[from] == id);
                    assert(rest.contains(id));
                    assert(before.contains(id));
                    let at = choose|at: int| 0 <= at < before.len() && before[at] == id;
                    assert(kept[at] == id);
                } else {
                    assert(kept[kept.len() - 1] == id);
                }
            }
        }
    }
}

proof fn lemma_increasing_with_same_members(one: Seq<u64>, other: Seq<u64>)
    requires
        increasing(one),
        increasing(other),
        forall|id: u64|
            #![trigger one.contains(id)]
            #![trigger other.contains(id)]
            one.contains(id) <==> other.contains(id),
    ensures
        one == other,
    decreases one.len(),
{
    if one.len() == 0 {
        if other.len() > 0 {
            assert(other.contains(other[0]));
        }
        assert(one =~= other);
    } else {
        assert(one.contains(one[one.len() - 1]));
        let there = choose|there: int| 0 <= there < other.len() && other[there] == one.last();
        assert(other.contains(other[other.len() - 1]));
        let here = choose|here: int| 0 <= here < one.len() && one[here] == other.last();
        assert(one.last() == other.last()) by {
            if here < one.len() - 1 {
                assert(one[here] < one[one.len() - 1]);
            }
            if there < other.len() - 1 {
                assert(other[there] < other[other.len() - 1]);
            }
        }
        let less = one.drop_last();
        let fewer = other.drop_last();
        assert forall|id: u64|
            #![trigger less.contains(id)]
            #![trigger fewer.contains(id)]
            less.contains(id) <==> fewer.contains(id) by {
            if less.contains(id) {
                let at = choose|at: int| 0 <= at < less.len() && less[at] == id;
                assert(one[at] == id);
                assert(one[at] < one[one.len() - 1]);
                assert(one.contains(id));
                let to = choose|to: int| 0 <= to < other.len() && other[to] == id;
                assert(fewer[to] == id);
            }
            if fewer.contains(id) {
                let at = choose|at: int| 0 <= at < fewer.len() && fewer[at] == id;
                assert(other[at] == id);
                assert(other[at] < other[other.len() - 1]);
                assert(other.contains(id));
                let to = choose|to: int| 0 <= to < one.len() && one[to] == id;
                assert(less[to] == id);
            }
        }
        assert forall|a: int, b: int| 0 <= a < b < less.len() implies less[a] < less[b] by {
            assert(less[a] == one[a] && less[b] == one[b]);
        }
        assert forall|a: int, b: int| 0 <= a < b < fewer.len() implies fewer[a] < fewer[b] by {
            assert(fewer[a] == other[a] && fewer[b] == other[b]);
        }
        lemma_increasing_with_same_members(less, fewer);
        assert(one =~= less.push(one.last()));
        assert(other =~= fewer.push(other.last()));
    }
}

/// In a well-formed registry the indices of implants hold nothing that the implants
/// themselves do not say: the list of a patient names the implants placed in that
/// patient, and the list of a device the implants made of that device, each in the
/// order of their identifiers.
pub proof fn law_implant_indices_are_derived(
    registry: RegistryView,
    patient: Seq<char>,
    device_id: u64,
)
    requires
        registry.well_formed(),
    ensures
        filed_under(registry.patient_implants, patient) == identifiers(
            registry.implants.len(),
        ).filter(registry.placed_in(patient)),
        filed_under(registry.device_implants, device_id) == identifiers(
            registry.implants.len(),
        ).filter(registry.made_of(device_id)),
{
    let all = identifiers(registry.implants.len());
    assert forall|i: int| 0 <= i < all.len() implies all[i] == i + 1 by {
        assert(registry.implants[i].implant_record_id == i + 1);
    }
    assert(increasing(all));
    assert forall|id: u64| #[trigger] all.contains(id) <==> registry.implant_exists(id) by {
        if registry.implant_exists(id) {
            assert(all[id - 1] == id);
        }
    }

    let of_patient = filed_under(registry.patient_implants, patient);
    assert(registry.patient_list_valid(patient));
    lemma_filter_of_increasing(all, registry.placed_in(patient));
    assert forall|id: u64|
        #![trigger of_patient.contains(id)]
        #![trigger all.filter(registry.placed_in(patient)).contains(id)]
        of_patient.contains(id) <==> all.filter(registry.placed_in(patient)).contains(id) by {
        if registry.implant_exists(id) && registry.implant(id).patient_id == patient {
            assert(registry.implants[id - 1].implant_record_id == id);
        }
    }
    lemma_increasing_with_same_members(of_patient, all.filter(registry.placed_in(patient)));

    let of_device = filed_under(registry.device_implants, device_id);
    assert(registry.device_list_valid(device_id));
    lemma_filter_of_increasing(all, registry.made_of(device_id));
    assert forall|id: u64|
        #![trigger of_device.contains(id)]
        #![trigger all.filter(registry.made_of(device_id)).contains(id)]
        of_device.contains(id) <==> all.filter(registry.made_of(device_id)).contains(id) by {
        if registry.implant_exists(id) && registry.implant(id).device_id == device_id {
            assert(registry.implants[id - 1].implant_record_id == id);
        }
    }
    lemma_increasing_with_same_members(of_device, all.filter(registry.made_of(device_id)));
}

} // verus!
