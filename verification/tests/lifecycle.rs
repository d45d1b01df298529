use medical_device_tracking::{
    Address, Error, IdentityProof, ImplantRecord, MedicalDeviceRegistry, RecallInfo,
};

fn hash(byte: u8) -> [u8; 32] {
    [byte; 32]
}

fn address(name: &str) -> Address {
    Address(name.to_string())
}

fn proven(name: &str) -> IdentityProof {
    IdentityProof::confirmed(address(name))
}

fn register(registry: &mut MedicalDeviceRegistry, udi: &str) -> u64 {
    registry
        .register_device(
            udi.to_string(),
            "IMPLANT".to_string(),
            "MedCorp".to_string(),
            "MC-100".to_string(),
            "LOT-001".to_string(),
            1690000000,
            None,
            hash(0),
        )
        .unwrap()
}

fn implant(registry: &mut MedicalDeviceRegistry, patient: &str, device_id: u64, date: u64) -> u64 {
    registry
        .implant_device(
            address(patient),
            device_id,
            proven("provider"),
            date,
            "Left Hip".to_string(),
            hash(1),
        )
        .unwrap()
}

fn remove(registry: &mut MedicalDeviceRegistry, implant_id: u64, date: u64) -> Result<(), Error> {
    registry.remove_implant(implant_id, proven("provider"), date, "Worn out".to_string(), None)
}

fn recall(registry: &mut MedicalDeviceRegistry, device_ids: Vec<u64>, reason: &str) -> u64 {
    registry
        .issue_device_recall(
            proven("manufacturer"),
            device_ids,
            reason.to_string(),
            "HIGH".to_string(),
            1750000000,
            "Monitoring required".to_string(),
        )
        .unwrap()
}

fn implants_of(registry: &MedicalDeviceRegistry, patient: &str, active_only: bool) -> Vec<ImplantRecord> {
    registry
        .get_patient_implants(address(patient), proven("requester"), active_only)
        .unwrap()
}

fn recall_ids(recalls: &[RecallInfo]) -> Vec<u64> {
    let mut ids = Vec::new();
    for recall in recalls {
        ids.push(recall.recall_id);
    }
    ids
}

#[test]
fn device_identifiers_count_up_from_one() {
    let mut registry = MedicalDeviceRegistry::new();
    let mut previous = 0;
    for n in 1..=25u64 {
        let id = register(&mut registry, "UDI");
        assert_eq!(id, n);
        assert!(id > previous);
        previous = id;
    }
    assert_eq!(registry.devices.len(), 25);
    assert_eq!(registry.devices[24].device_id, 25);
}

#[test]
fn device_identifiers_do_not_depend_on_other_operations() {
    let mut registry = MedicalDeviceRegistry::new();
    assert_eq!(register(&mut registry, "UDI-1"), 1);
    assert_eq!(implant(&mut registry, "patient", 1, 10), 1);
    recall(&mut registry, vec![1, 7], "Battery");
    registry
        .prescribe_dme(
            address("patient"),
            proven("provider"),
            "WHEELCHAIR".to_string(),
            1,
            20,
            Some(90),
            hash(2),
        )
        .unwrap();
    assert_eq!(register(&mut registry, "UDI-2"), 2);
    assert_eq!(implant(&mut registry, "patient", 2, 30), 2);
    assert_eq!(register(&mut registry, "UDI-3"), 3);
}

#[test]
fn registered_device_is_stored_as_given() {
    let mut registry = MedicalDeviceRegistry::new();
    let id = registry
        .register_device(
            "UDI-99999-XYZ".to_string(),
            "DME".to_string(),
            "DeviceMaker".to_string(),
            "DM-500".to_string(),
            "LOT-999".to_string(),
            1690000000,
            Some(1800000000),
            hash(7),
        )
        .unwrap();
    let device = &registry.devices[0];
    assert_eq!(device.device_id, id);
    assert_eq!(device.device_udi, "UDI-99999-XYZ");
    assert_eq!(device.device_type, "DME");
    assert_eq!(device.manufacturer, "DeviceMaker");
    assert_eq!(device.model_number, "DM-500");
    assert_eq!(device.lot_number, "LOT-999");
    assert_eq!(device.manufacturing_date, 1690000000);
    assert_eq!(device.expiration_date, Some(1800000000));
    assert_eq!(device.device_specs_hash, hash(7));
}

#[test]
fn implant_of_unknown_device_changes_nothing() {
    let mut registry = MedicalDeviceRegistry::new();
    register(&mut registry, "UDI-1");
    implant(&mut registry, "patient", 1, 10);
    let before = registry.clone();

    for unknown in [0u64, 2, 999, u64::MAX] {
        let result = registry.implant_device(
            address("patient"),
            unknown,
            proven("provider"),
            1700000000,
            "Left Hip".to_string(),
            hash(1),
        );
        assert_eq!(result, Err(Error::RecordNotFound));
        assert_eq!(registry, before);
    }
    assert_eq!(implants_of(&registry, "patient", false).len(), 1);
    assert_eq!(implant(&mut registry, "patient", 1, 20), 2);
}

#[test]
fn implant_is_recorded_active_and_indexed() {
    let mut registry = MedicalDeviceRegistry::new();
    register(&mut registry, "UDI-1");
    let id = registry
        .implant_device(
            address("patient"),
            1,
            proven("surgeon"),
            1700000000,
            "Left Hip".to_string(),
            hash(9),
        )
        .unwrap();
    assert_eq!(id, 1);
    let expected = ImplantRecord {
        implant_record_id: 1,
        patient_id: address("patient"),
        device_id: 1,
        implant_date: 1700000000,
        implant_location: "Left Hip".to_string(),
        implanting_provider: address("surgeon"),
        surgical_notes_hash: hash(9),
        is_active: true,
        removal_date: None,
        removal_reason: None,
        explant_analysis_hash: None,
        maintenance_history: Vec::new(),
    };
    assert_eq!(registry.implants, vec![expected.clone()]);
    assert_eq!(registry.patient_implants.ids(&address("patient")), vec![1]);
    assert_eq!(registry.device_implants.ids(&1), vec![1]);
    assert_eq!(implants_of(&registry, "patient", true), vec![expected]);
    assert!(implants_of(&registry, "somebody else", false).is_empty());
}

#[test]
fn removal_sets_all_removal_fields_at_once() {
    let mut registry = MedicalDeviceRegistry::new();
    register(&mut registry, "UDI-1");
    implant(&mut registry, "patient", 1, 10);
    registry
        .remove_implant(
            1,
            proven("provider"),
            1750000000,
            "Device malfunction".to_string(),
            Some(hash(5)),
        )
        .unwrap();
    let record = &registry.implants[0];
    assert!(!record.is_active);
    assert_eq!(record.removal_date, Some(1750000000));
    assert_eq!(record.removal_reason, Some("Device malfunction".to_string()));
    assert_eq!(record.explant_analysis_hash, Some(hash(5)));
    assert_eq!(record.patient_id, address("patient"));
    assert_eq!(record.implant_date, 10);
}

#[test]
fn second_removal_fails_and_changes_nothing() {
    let mut registry = MedicalDeviceRegistry::new();
    register(&mut registry, "UDI-1");
    implant(&mut registry, "patient", 1, 10);
    implant(&mut registry, "patient", 1, 20);
    assert_eq!(remove(&mut registry, 1, 100), Ok(()));
    let before = registry.clone();

    let again = registry.remove_implant(
        1,
        proven("provider"),
        200,
        "Duplicate".to_string(),
        Some(hash(3)),
    );
    assert_eq!(again, Err(Error::DeviceNotActive));
    assert_eq!(registry, before);
    assert_eq!(registry.implants[0].removal_date, Some(100));
}

#[test]
fn removed_implant_stays_removed_through_later_operations() {
    let mut registry = MedicalDeviceRegistry::new();
    register(&mut registry, "UDI-1");
    implant(&mut registry, "patient", 1, 10);
    assert_eq!(remove(&mut registry, 1, 100), Ok(()));

    register(&mut registry, "UDI-2");
    implant(&mut registry, "patient", 2, 20);
    registry
        .record_device_maintenance(1, 30, "INSPECTION".to_string(), proven("technician"), hash(0))
        .unwrap();
    registry
        .track_device_performance(1, proven("patient"), hash(0), 40, None)
        .unwrap();
    recall(&mut registry, vec![1], "Battery");

    assert_eq!(remove(&mut registry, 1, 300), Err(Error::DeviceNotActive));
    assert!(!registry.implants[0].is_active);
    assert_eq!(registry.implants[0].removal_date, Some(100));
    assert_eq!(remove(&mut registry, 2, 300), Ok(()));
}

#[test]
fn removal_of_unknown_implant_changes_nothing() {
    let mut registry = MedicalDeviceRegistry::new();
    register(&mut registry, "UDI-1");
    implant(&mut registry, "patient", 1, 10);
    let before = registry.clone();
    assert_eq!(remove(&mut registry, 0, 100), Err(Error::RecordNotFound));
    assert_eq!(remove(&mut registry, 2, 100), Err(Error::RecordNotFound));
    assert_eq!(registry, before);
}

#[test]
fn active_listing_is_the_active_part_of_the_full_listing() {
    let mut registry = MedicalDeviceRegistry::new();
    register(&mut registry, "UDI-1");
    for n in 0..6u64 {
        implant(&mut registry, "patient", 1, 100 + n);
        implant(&mut registry, "other", 1, 200 + n);
    }
    remove(&mut registry, 3, 1000).unwrap();
    remove(&mut registry, 4, 1000).unwrap();
    remove(&mut registry, 9, 1000).unwrap();

    for patient in ["patient", "other", "nobody"] {
        let all = implants_of(&registry, patient, false);
        let active = implants_of(&registry, patient, true);
        let mut expected = Vec::new();
        for record in &all {
            if record.is_active {
                expected.push(record.clone());
            }
        }
        assert_eq!(active, expected);
    }
    let ids: Vec<u64> = implants_of(&registry, "patient", false)
        .iter()
        .map(|record| record.implant_record_id)
        .collect();
    assert_eq!(ids, vec![1, 3, 5, 7, 9, 11]);
    let active_ids: Vec<u64> = implants_of(&registry, "patient", true)
        .iter()
        .map(|record| record.implant_record_id)
        .collect();
    assert_eq!(active_ids, vec![1, 5, 7, 11]);
}

#[test]
fn notification_follows_removals() {
    let mut registry = MedicalDeviceRegistry::new();
    let device_id = register(&mut registry, "UDI-1");
    let first = implant(&mut registry, "patient-1", device_id, 10);
    implant(&mut registry, "patient-2", device_id, 20);
    let recall_id = recall(&mut registry, vec![device_id], "Stress fracture risk");

    assert_eq!(
        registry.notify_affected_patients(recall_id, 1750100000),
        Ok(vec![address("patient-1"), address("patient-2")])
    );

    remove(&mut registry, first, 1750200000).unwrap();
    assert_eq!(
        registry.notify_affected_patients(recall_id, 1750300000),
        Ok(vec![address("patient-2")])
    );

    let reissued = recall(&mut registry, vec![device_id], "Stress fracture risk");
    assert_eq!(reissued, 2);
    assert_eq!(
        registry.notify_affected_patients(reissued, 1750400000),
        Ok(vec![address("patient-2")])
    );
}

#[test]
fn notification_names_a_patient_once_for_each_active_implant() {
    let mut registry = MedicalDeviceRegistry::new();
    register(&mut registry, "UDI-1");
    register(&mut registry, "UDI-2");
    implant(&mut registry, "patient-1", 1, 10);
    implant(&mut registry, "patient-2", 2, 20);
    implant(&mut registry, "patient-1", 2, 30);
    implant(&mut registry, "patient-1", 1, 40);
    let recall_id = recall(&mut registry, vec![2, 1], "Battery");

    assert_eq!(
        registry.notify_affected_patients(recall_id, 0),
        Ok(vec![
            address("patient-2"),
            address("patient-1"),
            address("patient-1"),
            address("patient-1"),
        ])
    );
}

#[test]
fn notification_walks_the_device_list_as_written() {
    let mut registry = MedicalDeviceRegistry::new();
    register(&mut registry, "UDI-1");
    implant(&mut registry, "patient", 1, 10);
    let recall_id = recall(&mut registry, vec![1, 42, 1], "Battery");
    assert_eq!(
        registry.notify_affected_patients(recall_id, 0),
        Ok(vec![address("patient"), address("patient")])
    );
    let none = recall(&mut registry, Vec::new(), "Nothing");
    assert_eq!(registry.notify_affected_patients(none, 0), Ok(Vec::new()));
}

#[test]
fn notification_does_not_depend_on_its_date() {
    let mut registry = MedicalDeviceRegistry::new();
    register(&mut registry, "UDI-1");
    implant(&mut registry, "patient", 1, 10);
    let recall_id = recall(&mut registry, vec![1], "Battery");
    let before = registry.clone();
    let early = registry.notify_affected_patients(recall_id, 0);
    let late = registry.notify_affected_patients(recall_id, u64::MAX);
    assert_eq!(early, late);
    assert_eq!(registry, before);
}

#[test]
fn notification_of_unknown_recall_fails() {
    let mut registry = MedicalDeviceRegistry::new();
    register(&mut registry, "UDI-1");
    recall(&mut registry, vec![1], "Battery");
    assert_eq!(registry.notify_affected_patients(0, 0), Err(Error::RecordNotFound));
    assert_eq!(registry.notify_affected_patients(2, 0), Err(Error::RecordNotFound));
}

#[test]
fn recalls_are_listed_in_order_of_issue() {
    let mut registry = MedicalDeviceRegistry::new();
    register(&mut registry, "UDI-1");
    register(&mut registry, "UDI-2");
    assert_eq!(registry.check_device_recalls(1), Ok(Vec::new()));

    recall(&mut registry, vec![1], "first");
    recall(&mut registry, vec![2], "second");
    recall(&mut registry, vec![2, 1], "third");
    recall(&mut registry, vec![1], "fourth");

    let of_first = registry.check_device_recalls(1).unwrap();
    assert_eq!(recall_ids(&of_first), vec![1, 3, 4]);
    assert_eq!(of_first[0].recall_reason, "first");
    assert_eq!(of_first[1].recall_reason, "third");
    assert_eq!(of_first[1].device_ids, vec![2, 1]);
    assert_eq!(of_first[2].recall_reason, "fourth");
    let of_second = registry.check_device_recalls(2).unwrap();
    assert_eq!(recall_ids(&of_second), vec![2, 3]);
}

#[test]
fn recall_may_name_devices_that_do_not_exist() {
    let mut registry = MedicalDeviceRegistry::new();
    let recall_id = recall(&mut registry, vec![17, 17, 5], "Advisory");
    assert_eq!(recall_id, 1);
    assert_eq!(registry.recalls[0].device_ids, vec![17, 17, 5]);
    assert_eq!(registry.recalls[0].resolution_deadline, None);
    assert_eq!(recall_ids(&registry.check_device_recalls(17).unwrap()), vec![1, 1]);
    assert_eq!(recall_ids(&registry.check_device_recalls(5).unwrap()), vec![1]);
    assert!(registry.check_device_recalls(6).unwrap().is_empty());
    assert_eq!(registry.notify_affected_patients(recall_id, 0), Ok(Vec::new()));
}

#[test]
fn recall_record_holds_what_was_given() {
    let mut registry = MedicalDeviceRegistry::new();
    register(&mut registry, "UDI-1");
    registry
        .issue_device_recall(
            proven("manufacturer"),
            vec![1],
            "Battery failure risk".to_string(),
            "CRITICAL".to_string(),
            1750000000,
            "Immediate explantation required".to_string(),
        )
        .unwrap();
    let recalls = registry.check_device_recalls(1).unwrap();
    assert_eq!(
        recalls,
        vec![RecallInfo {
            recall_id: 1,
            device_ids: vec![1],
            recall_reason: "Battery failure risk".to_string(),
            severity: "CRITICAL".to_string(),
            recall_date: 1750000000,
            action_required: "Immediate explantation required".to_string(),
            resolution_deadline: None,
        }]
    );
}

#[test]
fn maintenance_is_stored_and_entered_in_the_history() {
    let mut registry = MedicalDeviceRegistry::new();
    register(&mut registry, "UDI-1");
    implant(&mut registry, "patient-1", 1, 10);
    implant(&mut registry, "patient-2", 1, 20);
    registry
        .record_device_maintenance(2, 100, "CALIBRATION".to_string(), proven("technician"), hash(4))
        .unwrap();
    registry
        .record_device_maintenance(1, 200, "INSPECTION".to_string(), proven("engineer"), hash(5))
        .unwrap();
    registry
        .record_device_maintenance(2, 300, "INSPECTION".to_string(), proven("technician"), hash(6))
        .unwrap();

    assert_eq!(registry.implants[0].maintenance_history, vec![2]);
    assert_eq!(registry.implants[1].maintenance_history, vec![1, 3]);
    assert_eq!(registry.maintenance.len(), 3);
    let second = &registry.maintenance[1];
    assert_eq!(second.maintenance_id, 2);
    assert_eq!(second.implant_record_id, 1);
    assert_eq!(second.maintenance_date, 200);
    assert_eq!(second.maintenance_type, "INSPECTION");
    assert_eq!(second.performed_by, address("engineer"));
    assert_eq!(second.notes_hash, hash(5));
}

#[test]
fn maintenance_of_unknown_implant_changes_nothing() {
    let mut registry = MedicalDeviceRegistry::new();
    register(&mut registry, "UDI-1");
    implant(&mut registry, "patient", 1, 10);
    let before = registry.clone();
    let result = registry.record_device_maintenance(
        2,
        100,
        "CALIBRATION".to_string(),
        proven("technician"),
        hash(4),
    );
    assert_eq!(result, Err(Error::RecordNotFound));
    assert_eq!(registry, before);
}

#[test]
fn maintenance_is_recorded_on_a_removed_implant_too() {
    let mut registry = MedicalDeviceRegistry::new();
    register(&mut registry, "UDI-1");
    implant(&mut registry, "patient", 1, 10);
    remove(&mut registry, 1, 50).unwrap();
    let result = registry.record_device_maintenance(
        1,
        100,
        "INSPECTION".to_string(),
        proven("technician"),
        hash(4),
    );
    assert_eq!(result, Ok(()));
    assert_eq!(registry.implants[0].maintenance_history, vec![1]);
    assert!(!registry.implants[0].is_active);
}

#[test]
fn performance_reports_are_appended_without_deduplication() {
    let mut registry = MedicalDeviceRegistry::new();
    register(&mut registry, "UDI-1");
    implant(&mut registry, "patient", 1, 10);
    let complications = vec!["Mild inflammation".to_string(), "Intermittent pain".to_string()];
    for _ in 0..2 {
        registry
            .track_device_performance(
                1,
                proven("patient"),
                hash(8),
                1710000000,
                Some(complications.clone()),
            )
            .unwrap();
    }
    registry
        .track_device_performance(1, proven("patient"), hash(9), 1720000000, None)
        .unwrap();

    assert_eq!(registry.performance_reports.len(), 3);
    assert_eq!(registry.performance_reports[0], registry.performance_reports[1]);
    let first = &registry.performance_reports[0];
    assert_eq!(first.implant_record_id, 1);
    assert_eq!(first.patient_id, address("patient"));
    assert_eq!(first.performance_data_hash, hash(8));
    assert_eq!(first.reported_date, 1710000000);
    assert_eq!(first.complications, Some(complications));
    assert_eq!(registry.performance_reports[2].complications, None);
}

#[test]
fn performance_report_on_unknown_implant_changes_nothing() {
    let mut registry = MedicalDeviceRegistry::new();
    let before = registry.clone();
    let result = registry.track_device_performance(1, proven("patient"), hash(8), 5, None);
    assert_eq!(result, Err(Error::RecordNotFound));
    assert_eq!(registry, before);
}

#[test]
fn prescription_is_stored_and_indexed_nowhere() {
    let mut registry = MedicalDeviceRegistry::new();
    let id = registry
        .prescribe_dme(
            address("patient"),
            proven("provider"),
            "WHEELCHAIR".to_string(),
            77,
            1700000000,
            Some(90),
            hash(2),
        )
        .unwrap();
    assert_eq!(id, 1);
    let prescription = &registry.prescriptions[0];
    assert_eq!(prescription.prescription_id, 1);
    assert_eq!(prescription.patient_id, address("patient"));
    assert_eq!(prescription.provider_id, address("provider"));
    assert_eq!(prescription.device_type, "WHEELCHAIR");
    assert_eq!(prescription.device_id, 77);
    assert_eq!(prescription.prescription_date, 1700000000);
    assert_eq!(prescription.duration_days, Some(90));
    assert_eq!(prescription.instructions_hash, hash(2));
    assert!(registry.patient_implants.entries.is_empty());
    assert!(registry.device_implants.entries.is_empty());
    assert!(registry.device_recalls.entries.is_empty());
    assert!(implants_of(&registry, "patient", false).is_empty());
}

#[test]
fn device_from_registration_to_removal() {
    let mut registry = MedicalDeviceRegistry::new();
    let device = register(&mut registry, "UDI-D1");
    let t0 = 1700000000;
    let t1 = 1750000000;
    let implant_id = registry
        .implant_device(
            address("patient-1"),
            device,
            proven("provider-1"),
            t0,
            "Left Hip".to_string(),
            hash(1),
        )
        .unwrap();
    registry
        .record_device_maintenance(
            implant_id,
            1710000000,
            "CALIBRATION".to_string(),
            proven("technician"),
            hash(2),
        )
        .unwrap();
    registry
        .record_device_maintenance(
            implant_id,
            1720000000,
            "INSPECTION".to_string(),
            proven("technician"),
            hash(3),
        )
        .unwrap();

    let listed = implants_of(&registry, "patient-1", true);
    assert_eq!(listed.len(), 1);
    assert_eq!(listed[0].maintenance_history.len(), 2);
    assert_eq!(listed[0].maintenance_history, vec![1, 2]);
    assert_eq!(registry.maintenance[0].maintenance_type, "CALIBRATION");
    assert_eq!(registry.maintenance[1].maintenance_type, "INSPECTION");

    registry
        .remove_implant(implant_id, proven("provider-1"), t1, "R".to_string(), None)
        .unwrap();

    assert!(implants_of(&registry, "patient-1", true).is_empty());
    let all = implants_of(&registry, "patient-1", false);
    assert_eq!(all.len(), 1);
    assert!(!all[0].is_active);
    assert_eq!(all[0].removal_date, Some(t1));
    assert_eq!(all[0].removal_reason, Some("R".to_string()));
    assert_eq!(all[0].implant_date, t0);
    assert_eq!(all[0].implanting_provider, address("provider-1"));
    assert_eq!(all[0].maintenance_history, vec![1, 2]);
}

#[test]
fn reads_leave_the_registry_as_it_was() {
    let mut registry = MedicalDeviceRegistry::new();
    register(&mut registry, "UDI-1");
    implant(&mut registry, "patient", 1, 10);
    recall(&mut registry, vec![1], "Battery");
    let before = registry.clone();
    implants_of(&registry, "patient", false);
    implants_of(&registry, "patient", true);
    registry.check_device_recalls(1).unwrap();
    registry.notify_affected_patients(1, 0).unwrap();
    assert_eq!(registry, before);
}

#[test]
fn new_registry_is_empty() {
    let registry = MedicalDeviceRegistry::new();
    assert!(registry.devices.is_empty());
    assert!(registry.implants.is_empty());
    assert!(registry.prescriptions.is_empty());
    assert!(registry.maintenance.is_empty());
    assert!(registry.recalls.is_empty());
    assert!(registry.performance_reports.is_empty());
    assert!(implants_of(&registry, "patient", false).is_empty());
    assert_eq!(registry.check_device_recalls(1), Ok(Vec::new()));
}

#[test]
fn implant_indices_say_what_the_implants_say() {
    let mut registry = MedicalDeviceRegistry::new();
    register(&mut registry, "UDI-1");
    register(&mut registry, "UDI-2");
    register(&mut registry, "UDI-3");
    let placements = [
        ("patient-1", 1u64),
        ("patient-2", 2),
        ("patient-1", 2),
        ("patient-3", 1),
        ("patient-2", 2),
        ("patient-1", 1),
    ];
    for (patient, device_id) in placements {
        implant(&mut registry, patient, device_id, 10);
    }
    remove(&mut registry, 3, 20).unwrap();

    for patient in ["patient-1", "patient-2", "patient-3", "patient-4"] {
        let mut expected = Vec::new();
        for record in &registry.implants {
            if record.patient_id == address(patient) {
                expected.push(record.implant_record_id);
            }
        }
        assert_eq!(registry.patient_implants.ids(&address(patient)), expected);
    }
    for device_id in 0..=4u64 {
        let mut expected = Vec::new();
        for record in &registry.implants {
            if record.device_id == device_id {
                expected.push(record.implant_record_id);
            }
        }
        assert_eq!(registry.device_implants.ids(&device_id), expected);
    }
    assert_eq!(registry.patient_implants.ids(&address("patient-1")), vec![1, 3, 6]);
    assert_eq!(registry.device_implants.ids(&2), vec![2, 3, 5]);
}

#[test]
fn reports_are_listed_by_implant() {
    let mut registry = MedicalDeviceRegistry::new();
    register(&mut registry, "UDI-1");
    implant(&mut registry, "patient-1", 1, 10);
    implant(&mut registry, "patient-2", 1, 20);
    for (implant_id, patient, date) in
        [(2u64, "patient-2", 100u64), (1, "patient-1", 200), (2, "patient-2", 300)]
    {
        registry
            .track_device_performance(implant_id, proven(patient), hash(8), date, None)
            .unwrap();
    }
    let dates = |registry: &MedicalDeviceRegistry, implant_id: u64| -> Vec<u64> {
        registry.reports_on(implant_id).iter().map(|report| report.reported_date).collect()
    };
    assert_eq!(dates(&registry, 1), vec![200]);
    assert_eq!(dates(&registry, 2), vec![100, 300]);
    assert!(registry.reports_on(3).is_empty());
    assert!(registry.reports_on(0).is_empty());
    assert_eq!(registry.reports_on(1)[0], registry.performance_reports[1]);
}

#[test]
fn clone_of_registry_equals_registry() {
    let mut registry = MedicalDeviceRegistry::new();
    assert_eq!(registry.clone(), registry);
    register(&mut registry, "UDI-1");
    implant(&mut registry, "patient-1", 1, 10);
    implant(&mut registry, "patient-2", 1, 20);
    recall(&mut registry, vec![1, 2], "Battery");
    registry
        .track_device_performance(1, proven("patient-1"), hash(8), 30, None)
        .unwrap();
    registry
        .record_device_maintenance(1, 40, "INSPECTION".to_string(), proven("technician"), hash(0))
        .unwrap();
    let copy = registry.clone();
    assert_eq!(copy, registry);
    remove(&mut registry, 1, 50).unwrap();
    assert_ne!(copy, registry);
    assert!(copy.implants[0].is_active);
}

#[test]
fn identifiers_of_each_category_count_up_on_their_own() {
    let mut registry = MedicalDeviceRegistry::new();
    for n in 1..=3u64 {
        assert_eq!(register(&mut registry, "UDI"), n);
    }
    for n in 1..=4u64 {
        assert_eq!(implant(&mut registry, "patient", 1, 10), n);
    }
    for n in 1..=2u64 {
        assert_eq!(recall(&mut registry, vec![1], "Battery"), n);
    }
    for n in 1..=5u64 {
        let id = registry
            .prescribe_dme(
                address("patient"),
                proven("provider"),
                "CRUTCHES".to_string(),
                1,
                1700100000,
                None,
                hash(2),
            )
            .unwrap();
        assert_eq!(id, n);
    }
    for n in 1..=3u64 {
        registry
            .record_device_maintenance(4, 40, "INSPECTION".to_string(), proven("technician"), hash(0))
            .unwrap();
        assert_eq!(registry.maintenance[(n - 1) as usize].maintenance_id, n);
    }
    assert_eq!(registry.implants[3].maintenance_history, vec![1, 2, 3]);
}

#[test]
fn identifiers_at_the_ends_of_the_range_name_nothing() {
    let mut registry = MedicalDeviceRegistry::new();
    register(&mut registry, "UDI-1");
    implant(&mut registry, "patient", 1, 10);
    recall(&mut registry, vec![1, 0, u64::MAX], "Battery");
    let before = registry.clone();

    for id in [0u64, u64::MAX] {
        assert_eq!(remove(&mut registry, id, 5), Err(Error::RecordNotFound));
        assert_eq!(
            registry.track_device_performance(id, proven("patient"), hash(8), 5, None),
            Err(Error::RecordNotFound)
        );
        assert_eq!(
            registry.record_device_maintenance(
                id,
                5,
                "INSPECTION".to_string(),
                proven("technician"),
                hash(0)
            ),
            Err(Error::RecordNotFound)
        );
        assert_eq!(registry.notify_affected_patients(id, 5), Err(Error::RecordNotFound));
        assert_eq!(recall_ids(&registry.check_device_recalls(id).unwrap()), vec![1]);
        assert!(registry.reports_on(id).is_empty());
    }
    assert_eq!(registry, before);
    assert_eq!(registry.notify_affected_patients(1, 5), Ok(vec![address("patient")]));
}

#[test]
fn long_histories_keep_their_order() {
    let mut registry = MedicalDeviceRegistry::new();
    register(&mut registry, "UDI-1");
    let count = 1500u64;
    for n in 1..=count {
        let patient = if n % 3 == 0 { "patient-1" } else { "patient-2" };
        assert_eq!(implant(&mut registry, patient, 1, n), n);
    }
    for n in 1..=count {
        if n % 2 == 0 {
            remove(&mut registry, n, 5000).unwrap();
        }
    }
    let recall_id = recall(&mut registry, vec![1], "Battery");

    let all = implants_of(&registry, "patient-1", false);
    assert_eq!(all.len(), 500);
    for (position, record) in all.iter().enumerate() {
        assert_eq!(record.implant_record_id, 3 * (position as u64 + 1));
    }
    let active = implants_of(&registry, "patient-1", true);
    assert_eq!(active.len(), 250);
    for (position, record) in active.iter().enumerate() {
        assert_eq!(record.implant_record_id, 6 * position as u64 + 3);
    }
    let affected = registry.notify_affected_patients(recall_id, 0).unwrap();
    assert_eq!(affected.len(), 750);
    assert_eq!(affected[0], address("patient-2"));
    assert_eq!(affected[1], address("patient-1"));
    assert_eq!(registry.device_implants.ids(&1).len(), 1500);
}
