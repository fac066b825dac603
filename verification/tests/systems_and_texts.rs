use loco_lh_alignment::backend::result_file_name;
use loco_lh_alignment::config::{log_period_setting, MeasurementConfig};
use loco_lh_alignment::estimator::{
    estimator_source_reads, forwarding_param, get_estimator_sources, next_read, next_write,
    reset_estimator, restore_estimator_sources, sources_read, set_estimator_sources, set_lighthouse_fwd_to_estimator,
    set_loco_fwd_to_estimator, with_timeout, Operation, ParamWrite, CF_OP_TIMEOUT_SECS,
};
use loco_lh_alignment::instruction::capture_instruction;
use loco_lh_alignment::system::{Role, SystemKind};
use loco_lh_alignment::toc_cache::{CacheRoot, FileTocCache};
use loco_lh_alignment::ui::Text;

#[test]
fn labels_name_their_systems_in_any_case() {
    for kind in [SystemKind::Loco, SystemKind::Lighthouse] {
        assert_eq!(SystemKind::from_label(kind.label()), kind);
        assert_eq!(SystemKind::from_label(&kind.label().to_uppercase()), kind);
        assert_eq!(SystemKind::from_label(kind.lower_label()), kind);
    }
    assert_eq!(SystemKind::from_label("LiGhThOuSe"), SystemKind::Lighthouse);
}

#[test]
fn other_labels_are_loco() {
    for label in ["", "lighthouse ", "lighthous", "lighthousé", "LPS", "ｌighthouse"] {
        assert_eq!(SystemKind::from_label(label), SystemKind::Loco);
    }
}

#[test]
fn isolation_forwards_one_system() {
    assert_eq!(SystemKind::Lighthouse.estimator_sources(), (1, 0));
    assert_eq!(SystemKind::Loco.estimator_sources(), (0, 1));
}

#[test]
fn first_step_places_the_crazyflie() {
    assert_eq!(
        capture_instruction("Base", SystemKind::Loco, SystemKind::Lighthouse, 1, 4, true),
        "Place the Crazyflie at location 1/4. Ready to capture the Base system (Loco position). Click 'Capture Base'."
    );
    assert_eq!(
        capture_instruction("Base", SystemKind::Lighthouse, SystemKind::Loco, 10, 1234567890, true),
        "Place the Crazyflie at location 10/1234567890. Ready to capture the Base system (Lighthouse position). Click 'Capture Base'."
    );
}

#[test]
fn second_step_says_nothing_of_the_place() {
    assert_eq!(
        capture_instruction("Moving", SystemKind::Lighthouse, SystemKind::Loco, 1, 4, false),
        "Ready to capture the Moving system (Lighthouse position). Click 'Capture Moving'."
    );
    assert_eq!(
        capture_instruction("Moving", SystemKind::Loco, SystemKind::Loco, 1, 4, false),
        "Ready to capture the Moving system (Loco position). Click 'Capture Moving'."
    );
}

#[test]
fn two_lighthouses_are_swapped_in_place() {
    assert_eq!(
        capture_instruction("Moving", SystemKind::Lighthouse, SystemKind::Lighthouse, 2, 4, false),
        "Without moving the Crazyflie, block the OTHER lighthouse system's base stations so only the Moving system's base stations are visible, then click 'Capture Moving'."
    );
    assert_eq!(
        capture_instruction("Base", SystemKind::Lighthouse, SystemKind::Lighthouse, 2, 4, true),
        "Place the Crazyflie at location 2/4. block the OTHER lighthouse system's base stations so only the Base system's base stations are visible, then click 'Capture Base'."
    );
}

#[test]
fn instruction_writes_zero_and_the_largest_number() {
    assert_eq!(
        capture_instruction("x", SystemKind::Loco, SystemKind::Loco, 0, usize::MAX, true),
        format!(
            "Place the Crazyflie at location 0/{}. Ready to capture the x system (Loco position). Click 'Capture x'.",
            usize::MAX
        )
    );
}

#[test]
fn cached_files_are_named_by_their_key() {
    let cache = FileTocCache::new(true);
    assert_eq!(cache.root, CacheRoot::UserCache);
    assert_eq!(
        cache.path_for(&[0x00, 0x1f, 0xab, 0xff]),
        vec!["loco-lh-alignment-tool", "toc_cache", "001fabff.json"]
    );
    assert_eq!(
        cache.path_for(&[]),
        vec!["loco-lh-alignment-tool", "toc_cache", ".json"]
    );
    assert_eq!(FileTocCache::new(false).root, CacheRoot::CurrentDir);
}

#[test]
fn every_byte_has_its_hexadecimal_name() {
    let cache = FileTocCache::new(true);
    for b in 0..=255u8 {
        let path = cache.path_for(&[b]);
        assert_eq!(path[2], format!("{:02x}.json", b));
    }
}

#[test]
fn distinct_keys_have_distinct_paths() {
    let cache = FileTocCache::new(true);
    assert_ne!(cache.path_for(&[1, 0]), cache.path_for(&[0, 1]));
    assert_ne!(cache.path_for(&[0]), cache.path_for(&[0, 0]));
}

#[test]
fn log_period_is_read_like_an_unsigned_number() {
    for text in [
        "", "+", "-", "-5", "5 ", " 5", "1_000", "1e3", "0x10", "12a", "+-5", "++5", "５", "5.0",
        "18446744073709551616", "99999999999999999999999999", "18446744073709551615",
        "000000000000000000000000000000200", "+250", "0", "9", "10", "11", "2550",
    ] {
        assert_eq!(
            log_period_setting(text),
            text.parse().unwrap_or(100u64).max(10),
            "{text}"
        );
    }
    assert_eq!(log_period_setting("soon"), 100);
    assert_eq!(log_period_setting("3"), 10);
    assert_eq!(log_period_setting("+250"), 250);
}

#[test]
fn configuration_falls_back_to_its_defaults() {
    let c = MeasurementConfig::from_fields("Lighthouse", "loco", "", "many");
    assert_eq!(c.base_kind, SystemKind::Lighthouse);
    assert_eq!(c.moving_kind, SystemKind::Loco);
    assert_eq!(c.num_points, 4);
    assert_eq!(c.num_samples, 100);
}

#[test]
fn configuration_wants_at_least_one() {
    let c = MeasurementConfig::from_fields("", "LIGHTHOUSE", "0", "00");
    assert_eq!(c.base_kind, SystemKind::Loco);
    assert_eq!(c.moving_kind, SystemKind::Lighthouse);
    assert_eq!(c.num_points, 1);
    assert_eq!(c.num_samples, 1);
    let c = MeasurementConfig::from_fields("a", "b", "12", "34");
    assert_eq!((c.num_points, c.num_samples), (12, 34));
}

#[test]
fn report_is_named_after_both_systems() {
    assert_eq!(
        result_file_name(SystemKind::Loco, SystemKind::Lighthouse),
        "alignment_lighthouse_to_loco.yaml"
    );
    assert_eq!(
        result_file_name(SystemKind::Lighthouse, SystemKind::Loco),
        "alignment_loco_to_lighthouse.yaml"
    );
}

#[test]
fn sources_are_set_lighthouse_first() {
    assert_eq!(
        set_estimator_sources(1, 0),
        vec![
            ParamWrite { operation: Operation::SetForwarding(SystemKind::Lighthouse), value: 1 },
            ParamWrite { operation: Operation::SetForwarding(SystemKind::Loco), value: 0 },
        ]
    );
    assert_eq!(
        estimator_source_reads(),
        vec![
            Operation::ReadForwarding(SystemKind::Lighthouse),
            Operation::ReadForwarding(SystemKind::Loco),
        ]
    );
}

#[test]
fn restoring_forwards_both_systems() {
    assert_eq!(restore_estimator_sources(), set_estimator_sources(1, 1));
    assert!(restore_estimator_sources().iter().all(|w| w.value == 1));
}

#[test]
fn nothing_is_tried_after_a_failure() {
    let writes = restore_estimator_sources();
    assert_eq!(next_write(&writes, 0, true), Some(writes[0]));
    assert_eq!(next_write(&writes, 1, true), Some(writes[1]));
    assert_eq!(next_write(&writes, 1, false), None);
    assert_eq!(next_write(&writes, 2, true), None);
    assert_eq!(next_write(&writes, usize::MAX, true), None);
    let reads = estimator_source_reads();
    assert_eq!(next_read(&reads, 0, true), Some(reads[0]));
    assert_eq!(next_read(&reads, 1, true), Some(reads[1]));
    assert_eq!(next_read(&reads, 1, false), None);
    assert_eq!(next_read(&reads, 2, true), None);
}

#[test]
fn sources_are_known_if_both_reads_succeed() {
    assert_eq!(sources_read(&vec![1, 0]), Some((1, 0)));
    assert_eq!(sources_read(&vec![1]), None);
    assert_eq!(sources_read(&vec![]), None);
}

#[test]
fn reset_raises_and_lowers_the_flag() {
    let writes = reset_estimator();
    assert_eq!(writes.len(), 2);
    assert_eq!((writes[0].operation.param(), writes[0].value), (Some("kalman.resetEstimation"), 1));
    assert_eq!((writes[1].operation.param(), writes[1].value), (Some("kalman.resetEstimation"), 0));
    assert_eq!(writes[0].operation.describe(), "setting kalman.resetEstimation=1");
    assert_eq!(writes[1].operation.describe(), "setting kalman.resetEstimation=0");
}

#[test]
fn toggles_write_one_or_zero() {
    assert_eq!(set_lighthouse_fwd_to_estimator(true).value, 1);
    assert_eq!(set_lighthouse_fwd_to_estimator(false).value, 0);
    assert_eq!(
        set_lighthouse_fwd_to_estimator(true).operation.param(),
        Some("lighthouse.fwdToEstimator")
    );
    assert_eq!(set_loco_fwd_to_estimator(true).value, 1);
    assert_eq!(set_loco_fwd_to_estimator(false).value, 0);
    assert_eq!(set_loco_fwd_to_estimator(false).operation.param(), Some("loco.fwdToEstimator"));
    assert_eq!(forwarding_param(SystemKind::Loco), "loco.fwdToEstimator");
}

#[test]
fn any_value_but_zero_forwards() {
    assert_eq!(get_estimator_sources(0, 7), (false, true));
    assert_eq!(get_estimator_sources(255, 0), (true, false));
}

#[test]
fn operations_without_a_parameter() {
    assert_eq!(Operation::CreateLogBlock.param(), None);
    assert_eq!(Operation::StartLogBlock.param(), None);
    assert_eq!(
        Operation::ReadForwarding(SystemKind::Loco).describe(),
        "reading loco.fwdToEstimator"
    );
    assert_eq!(
        Operation::SetForwarding(SystemKind::Lighthouse).describe(),
        "setting lighthouse.fwdToEstimator"
    );
}

#[test]
fn silence_is_reported_with_the_operation() {
    assert_eq!(CF_OP_TIMEOUT_SECS, 5);
    assert_eq!(with_timeout(Operation::CreateLogBlock, Some(Ok(3))), Ok(3));
    assert_eq!(
        with_timeout::<u8>(Operation::CreateLogBlock, Some(Err("gone".to_string()))),
        Err("gone".to_string())
    );
    assert_eq!(
        with_timeout::<u8>(Operation::StartLogBlock, None),
        Err("Timed out waiting for the Crazyflie to respond to: starting live log block".to_string())
    );
    assert_eq!(
        with_timeout::<u8>(Operation::CreateLogBlock, None),
        Err("Timed out waiting for the Crazyflie to respond to: creating live log block".to_string())
    );
}

#[test]
fn texts_without_a_detail() {
    let cases = [
        (Text::Empty, ""),
        (Text::NoValue, "--"),
        (Text::Connecting, "Connecting…"),
        (Text::Connected, "Connected"),
        (Text::Disconnected, "Disconnected"),
        (Text::ConnectToBegin, "Connect a Crazyflie via USB to begin."),
        (Text::Ready, "Ready. Configure and press Start Alignment."),
        (Text::Stopped, "Stopped."),
        (Text::AlignmentComplete, "Alignment complete. Save the result or run again."),
        (Text::ShiftedSaved, "Shifted positions YAML saved."),
        (Text::CollectingSamples, "Collecting samples…"),
        (Text::NoCrazyflie, "No Crazyflie found over USB."),
        (Text::Capturing(Role::Base, SystemKind::Lighthouse), "Capturing Base (Lighthouse)"),
        (Text::CaptureButton(Role::Moving), "Capture Moving"),
        (Text::OpenPositions(SystemKind::Loco), "Open Loco positions YAML"),
        (
            Text::SaveShiftedPositions(SystemKind::Lighthouse),
            "Save shifted Lighthouse positions YAML",
        ),
    ];
    for (text, expected) in cases {
        assert_eq!(text.render("ignored"), expected);
    }
}

#[test]
fn texts_with_a_detail() {
    let cases = [
        (
            Text::Settling,
            "Resetting the estimator and waiting 5.0s for the position estimate to stabilize…",
        ),
        (Text::ConnectionFailed, "Connection failed: 5.0"),
        (Text::CaptureFailed(Role::Base), "Base capture failed: 5.0"),
        (Text::CaptureFailed(Role::Moving), "Moving capture failed: 5.0"),
        (
            Text::ForwardingFailed(SystemKind::Lighthouse),
            "Failed to set lighthouse.fwdToEstimator: 5.0",
        ),
        (Text::ForwardingFailed(SystemKind::Loco), "Failed to set loco.fwdToEstimator: 5.0"),
        (Text::LiveLoggingFailed, "Failed to start live logging: 5.0"),
        (Text::ReadFailed, "Failed to read file: 5.0"),
        (Text::ShiftFailed, "Failed to apply shift: 5.0"),
        (Text::SaveFailed, "Failed to save file: 5.0"),
        (Text::ResultSaveFailed, "Failed to save: 5.0"),
    ];
    for (text, expected) in cases {
        assert_eq!(text.render("5.0"), expected);
    }
}

#[test]
fn instruction_text_is_the_instruction() {
    let text = Text::Instruction {
        role: Role::Moving,
        kind: SystemKind::Loco,
        other_kind: SystemKind::Lighthouse,
        point_n: 3,
        total: 5,
        is_first_step: false,
    };
    assert_eq!(
        text.render(""),
        capture_instruction("Moving", SystemKind::Loco, SystemKind::Lighthouse, 3, 5, false)
    );
}
