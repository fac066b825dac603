use loco_lh_alignment::backend::{
    find_usb_uri, AppCommand, Backend, BackendAction, BackendEvent, USB_SETTLE_MS,
};
use loco_lh_alignment::capture::{
    capture_position, drain_goes_on, CapturePhase, CaptureStep, Drained,
};
use loco_lh_alignment::config::MeasurementConfig;
use loco_lh_alignment::estimator::{Operation, ParamWrite};
use loco_lh_alignment::live_log::{live_log_period, Axis, LiveLogging, LogAction, LogPhase};
use loco_lh_alignment::measurement::{MeasurementRun, RunAction, RunEvent, RunPhase};
use loco_lh_alignment::shift_file::{shifted_file_name, FileShift, ShiftAction, ShiftPhase};
use loco_lh_alignment::stats::{AlignmentResult, PointResult, PositionStats, XyzValue};
use loco_lh_alignment::system::{Role, SystemKind};
use loco_lh_alignment::ui::{Text, UiUpdate};

fn config(num_points: usize) -> MeasurementConfig {
    MeasurementConfig {
        base_kind: SystemKind::Loco,
        moving_kind: SystemKind::Lighthouse,
        num_points,
        num_samples: 50,
    }
}

fn stats(v: i32) -> PositionStats<i32> {
    PositionStats { mean_x: v, mean_y: v, mean_z: v, std_x: 0, std_y: 0, std_z: 0 }
}

fn restores(actions: &[RunAction<i32>]) -> usize {
    actions.iter().filter(|a| matches!(a, RunAction::RestoreSources)).count()
}

#[test]
fn a_run_measures_every_point() {
    let (mut run, actions) = MeasurementRun::start(config(2));
    assert_eq!(actions.last(), Some(&RunAction::AwaitCapture));
    assert_eq!(actions[3], RunAction::Ui(UiUpdate::CurrentPoint(1)));
    assert_eq!(
        run.handle(RunEvent::Proceed, false),
        vec![RunAction::Capture(SystemKind::Loco, Role::Base)]
    );
    let actions = run.handle(RunEvent::Captured(stats(1)), false);
    assert_eq!(
        actions[4],
        RunAction::Ui(UiUpdate::Status(Text::Instruction {
            role: Role::Moving,
            kind: SystemKind::Lighthouse,
            other_kind: SystemKind::Loco,
            point_n: 1,
            total: 2,
            is_first_step: false,
        }))
    );
    assert_eq!(
        run.handle(RunEvent::Proceed, false),
        vec![RunAction::Capture(SystemKind::Lighthouse, Role::Moving)]
    );
    let actions = run.handle(RunEvent::Captured(stats(2)), false);
    match actions[0] {
        RunAction::AppendRow(row) => {
            assert_eq!(row.point, 1);
            assert_eq!(row.lh_std, Some(Role::Moving));
            assert_eq!(row.loco_std, Some(Role::Base));
        }
        _ => panic!("a row was expected"),
    }
    assert_eq!(
        actions[7],
        RunAction::Ui(UiUpdate::Status(Text::Instruction {
            role: Role::Base,
            kind: SystemKind::Loco,
            other_kind: SystemKind::Lighthouse,
            point_n: 2,
            total: 2,
            is_first_step: true,
        }))
    );
    assert_eq!(restores(&actions), 0);
    run.handle(RunEvent::Proceed, false);
    run.handle(RunEvent::Captured(stats(3)), false);
    run.handle(RunEvent::Proceed, false);
    assert!(!run.is_done());
    let actions = run.handle(RunEvent::Captured(stats(4)), false);
    assert_eq!(restores(&actions), 1);
    assert!(run.is_done());
    assert_eq!(
        run.results,
        vec![
            PointResult { point_index: 0, base: stats(1), moving: stats(2) },
            PointResult { point_index: 1, base: stats(3), moving: stats(4) },
        ]
    );
    assert_eq!(run.handle(RunEvent::Proceed, false), vec![]);
}

#[test]
fn a_run_without_points_only_restores() {
    let (run, actions) = MeasurementRun::<i32>::start(config(0));
    assert!(run.is_done());
    assert_eq!(actions, vec![RunAction::RestoreSources]);
}

#[test]
fn every_way_to_end_restores_once() {
    // How many undisturbed events come first, then the event that ends the run.
    let script = [
        RunEvent::Proceed,
        RunEvent::Captured(stats(1)),
        RunEvent::Proceed,
        RunEvent::Captured(stats(2)),
    ];
    let endings = [
        (0, RunEvent::Closed, false),
        (0, RunEvent::Proceed, true),
        (1, RunEvent::CaptureFailed, false),
        (1, RunEvent::CaptureFailed, true),
        (1, RunEvent::Captured(stats(9)), true),
        (2, RunEvent::Closed, false),
        (2, RunEvent::Proceed, true),
        (3, RunEvent::CaptureFailed, false),
        (3, RunEvent::Captured(stats(9)), true),
        (4, RunEvent::Closed, true),
    ];
    for (n, event, stop) in endings {
        let (mut run, mut actions) = MeasurementRun::start(config(3));
        for e in &script[..n] {
            actions.extend(run.handle(*e, false));
        }
        assert_eq!(restores(&actions), 0);
        let before = run.results.clone();
        actions.extend(run.handle(event, stop));
        assert_eq!(run.phase, RunPhase::Done);
        assert_eq!(restores(&actions), 1);
        assert_eq!(run.results, before);
    }
}

#[test]
fn a_stop_ends_the_run() {
    let script = [
        RunEvent::Proceed,
        RunEvent::Captured(stats(1)),
        RunEvent::Proceed,
        RunEvent::Captured(stats(2)),
    ];
    for n in 0..script.len() {
        let (mut run, _) = MeasurementRun::start(config(3));
        for event in &script[..n] {
            run.handle(*event, false);
        }
        assert!(!run.is_done());
        run.handle(script[n], true);
        assert!(run.is_done());
        assert!(run.results.is_empty());
    }
}

#[test]
fn a_failed_capture_is_reported() {
    let (mut run, _) = MeasurementRun::<i32>::start(config(1));
    run.handle(RunEvent::Proceed, false);
    assert_eq!(
        run.handle(RunEvent::CaptureFailed, false),
        vec![
            RunAction::Ui(UiUpdate::Error(Text::CaptureFailed(Role::Base))),
            RunAction::Ui(UiUpdate::IsRunning(false)),
            RunAction::RestoreSources,
        ]
    );
}

#[test]
fn events_out_of_place_change_nothing() {
    let (mut run, _) = MeasurementRun::start(config(1));
    assert_eq!(run.handle(RunEvent::Captured(stats(1)), false), vec![]);
    assert_eq!(run.handle(RunEvent::CaptureFailed, true), vec![]);
    assert_eq!(run.phase, RunPhase::AwaitBase);
}

#[test]
fn a_capture_isolates_resets_and_settles() {
    let forward = |kind, value| {
        CaptureStep::Write(ParamWrite { operation: Operation::SetForwarding(kind), value })
    };
    let reset = |on, value| {
        CaptureStep::Write(ParamWrite { operation: Operation::SetReset(on), value })
    };
    let (mut run, mut steps) = capture_position(SystemKind::Lighthouse, Role::Base, &config(1));
    assert_eq!(steps.len(), 8);
    for _ in 0..4 {
        steps.extend(run.handle(true));
    }
    assert_eq!(
        steps,
        vec![
            CaptureStep::Ui(UiUpdate::IsWaitingForCapture(false)),
            CaptureStep::Ui(UiUpdate::IsMeasuring(true)),
            CaptureStep::Ui(UiUpdate::CurrentMode(Text::Capturing(
                Role::Base,
                SystemKind::Lighthouse
            ))),
            CaptureStep::Ui(UiUpdate::CurrentModeIsBase(true)),
            CaptureStep::Ui(UiUpdate::ProgressSamples(0)),
            CaptureStep::Ui(UiUpdate::TotalSamples(50)),
            CaptureStep::Ui(UiUpdate::Status(Text::Settling)),
            forward(SystemKind::Lighthouse, 1),
            forward(SystemKind::Loco, 0),
            reset(true, 1),
            reset(false, 0),
            CaptureStep::Settle,
            CaptureStep::DrainStale,
            CaptureStep::Ui(UiUpdate::Status(Text::CollectingSamples)),
            CaptureStep::Collect(50),
        ]
    );
    assert_eq!(run.phase, CapturePhase::Collecting);
    assert_eq!(run.handle(true), vec![]);
    assert_eq!(run.phase, CapturePhase::Finished);
    let (mut run, mut steps) = capture_position(SystemKind::Loco, Role::Moving, &config(1));
    steps.extend(run.handle(true));
    assert_eq!(steps[3], CaptureStep::Ui(UiUpdate::CurrentModeIsBase(false)));
    assert_eq!(steps[7], forward(SystemKind::Lighthouse, 0));
    assert_eq!(steps[8], forward(SystemKind::Loco, 1));
}

#[test]
fn a_failed_write_ends_the_capture() {
    for failing in 0..4 {
        let (mut run, mut steps) = capture_position(SystemKind::Loco, Role::Base, &config(1));
        for _ in 0..failing {
            steps.extend(run.handle(true));
        }
        assert!(!run.is_ended());
        assert_eq!(run.handle(false), vec![]);
        assert!(run.is_ended());
        assert_eq!(run.phase, CapturePhase::Failed);
        assert_eq!(run.handle(true), vec![]);
        assert_eq!(
            steps.iter().filter(|s| matches!(s, CaptureStep::Write(_))).count(),
            failing + 1
        );
        assert!(steps.iter().all(|s| matches!(s, CaptureStep::Ui(_) | CaptureStep::Write(_))));
    }
}

#[test]
fn a_failed_collecting_ends_the_capture() {
    let (mut run, _) = capture_position(SystemKind::Loco, Role::Base, &config(1));
    for _ in 0..4 {
        run.handle(true);
    }
    assert_eq!(run.handle(false), vec![]);
    assert_eq!(run.phase, CapturePhase::Failed);
}

#[test]
fn draining_goes_through_lag() {
    assert!(drain_goes_on(Drained::Sample));
    assert!(drain_goes_on(Drained::Lagged));
    assert!(!drain_goes_on(Drained::Empty));
    assert!(!drain_goes_on(Drained::Closed));
}

#[test]
fn log_periods_that_a_crazyflie_can_keep() {
    for (millis, ok) in [(0, false), (9, false), (10, true), (100, true), (2550, true), (2559, true), (2560, false), (u64::MAX, false)] {
        assert_eq!(live_log_period(millis).is_ok(), ok, "{millis}");
    }
}

#[test]
fn live_logging_runs_until_the_stream_ends() {
    let (mut logging, actions) = LiveLogging::start(100);
    assert_eq!(actions, vec![LogAction::CreateBlock]);
    assert_eq!(
        logging.handle(true),
        vec![
            LogAction::AddVariable(Axis::X),
            LogAction::AddVariable(Axis::Y),
            LogAction::AddVariable(Axis::Z),
            LogAction::StartBlock(100),
        ]
    );
    assert_eq!(logging.handle(true), vec![LogAction::NextPacket]);
    assert_eq!(logging.handle(true), vec![LogAction::Publish, LogAction::NextPacket]);
    assert_eq!(logging.handle(false), vec![]);
    assert_eq!(logging.phase, LogPhase::Ended);
    assert_eq!(logging.handle(true), vec![]);
    assert_eq!(Axis::X.log_variable(), "stateEstimate.x");
    assert_eq!(Axis::Y.log_variable(), "stateEstimate.y");
    assert_eq!(Axis::Z.log_variable(), "stateEstimate.z");
}

#[test]
fn live_logging_that_does_not_start_is_reported() {
    let failure = vec![LogAction::Ui(UiUpdate::Error(Text::LiveLoggingFailed))];
    let (mut logging, _) = LiveLogging::start(100);
    assert_eq!(logging.handle(false), failure);
    let (mut logging, _) = LiveLogging::start(100);
    logging.handle(true);
    assert_eq!(logging.handle(false), failure);
}

#[test]
fn a_file_is_picked_read_shifted_and_saved() {
    let (mut flow, actions) = FileShift::start(SystemKind::Loco);
    assert_eq!(actions, vec![ShiftAction::PickFile(Text::OpenPositions(SystemKind::Loco))]);
    assert_eq!(flow.handle(true), vec![ShiftAction::ReadFile]);
    assert_eq!(flow.handle(true), vec![ShiftAction::Shift(SystemKind::Loco)]);
    assert_eq!(
        flow.handle(true),
        vec![ShiftAction::ChooseTarget(Text::SaveShiftedPositions(SystemKind::Loco))]
    );
    assert_eq!(flow.handle(true), vec![ShiftAction::WriteFile]);
    assert_eq!(
        flow.handle(true),
        vec![ShiftAction::Ui(UiUpdate::Status(Text::ShiftedSaved))]
    );
    assert_eq!(flow.phase, ShiftPhase::Ended);
}

#[test]
fn nothing_is_written_after_a_failure() {
    let outcomes: [Vec<ShiftAction>; 5] = [
        vec![],
        vec![ShiftAction::Ui(UiUpdate::Error(Text::ReadFailed))],
        vec![ShiftAction::Ui(UiUpdate::Error(Text::ShiftFailed))],
        vec![],
        vec![ShiftAction::Ui(UiUpdate::Error(Text::SaveFailed))],
    ];
    for (n, expected) in outcomes.iter().enumerate() {
        let (mut flow, _) = FileShift::start(SystemKind::Lighthouse);
        for _ in 0..n {
            flow.handle(true);
        }
        assert_eq!(&flow.handle(false), expected);
        assert_eq!(flow.handle(true), vec![]);
    }
}

#[test]
fn shifted_files_are_named_after_their_origin() {
    assert_eq!(shifted_file_name(Some("anchors")), "anchors_shifted.yaml");
    assert_eq!(shifted_file_name(None), "positions_shifted.yaml");
}

#[test]
fn the_first_usb_address_is_taken() {
    let uris = |list: &[&str]| list.iter().map(|s| s.to_string()).collect::<Vec<_>>();
    assert_eq!(find_usb_uri(&uris(&["radio://0/80/2M", "usb://0", "usb://1"])), Some(1));
    assert_eq!(find_usb_uri(&uris(&["radio://usb://", "usb:/", "USB://0", ""])), None);
    assert_eq!(find_usb_uri(&uris(&["usb://"])), Some(0));
    assert_eq!(find_usb_uri(&vec![]), None);
}

fn command(c: AppCommand) -> BackendEvent {
    BackendEvent::Command(c)
}

fn connected() -> Backend<i32> {
    let mut b = Backend::new();
    b.handle(command(AppCommand::Connect(100)));
    b.handle(BackendEvent::Scanned(Some(0)));
    b.handle(BackendEvent::LinkOpened);
    b.handle(BackendEvent::SourcesRead(None));
    b
}

#[test]
fn connecting_scans_opens_reads_and_logs() {
    let mut b: Backend<i32> = Backend::new();
    assert_eq!(
        b.handle(command(AppCommand::Connect(250))),
        vec![
            BackendAction::Ui(UiUpdate::ConnectionStatus(Text::Connecting)),
            BackendAction::Ui(UiUpdate::Error(Text::Empty)),
            BackendAction::Scan,
        ]
    );
    assert_eq!(USB_SETTLE_MS, 200);
    assert_eq!(
        b.handle(BackendEvent::Scanned(Some(3))),
        vec![BackendAction::Sleep(200), BackendAction::OpenLink(3)]
    );
    assert!(!b.connected);
    assert_eq!(
        b.handle(BackendEvent::LinkOpened),
        vec![
            BackendAction::Ui(UiUpdate::IsConnected(true)),
            BackendAction::Ui(UiUpdate::ConnectionStatus(Text::Connected)),
            BackendAction::Ui(UiUpdate::Status(Text::Ready)),
            BackendAction::ReadSources,
        ]
    );
    assert_eq!(
        b.handle(BackendEvent::SourcesRead(Some((0, 2)))),
        vec![
            BackendAction::Ui(UiUpdate::Forwarding(SystemKind::Lighthouse, false)),
            BackendAction::Ui(UiUpdate::Forwarding(SystemKind::Loco, true)),
            BackendAction::ClearLiveWindow,
            BackendAction::SpawnLiveLogging(250),
        ]
    );
    assert!(b.connected && b.live_logging);
}

#[test]
fn connecting_fails_without_a_device() {
    let mut b: Backend<i32> = Backend::new();
    b.handle(command(AppCommand::Connect(250)));
    assert_eq!(
        b.handle(BackendEvent::Scanned(None)),
        vec![
            BackendAction::Ui(UiUpdate::ConnectionStatus(Text::Disconnected)),
            BackendAction::Ui(UiUpdate::Error(Text::NoCrazyflie)),
        ]
    );
    b.handle(command(AppCommand::Connect(250)));
    b.handle(BackendEvent::Scanned(Some(0)));
    assert_eq!(
        b.handle(BackendEvent::LinkFailed),
        vec![
            BackendAction::Ui(UiUpdate::ConnectionStatus(Text::Disconnected)),
            BackendAction::Ui(UiUpdate::Error(Text::ConnectionFailed)),
        ]
    );
    assert!(!b.connected && !b.live_logging);
}

#[test]
fn sources_that_cannot_be_read_leave_the_checkboxes() {
    let mut b: Backend<i32> = Backend::new();
    b.handle(command(AppCommand::Connect(100)));
    b.handle(BackendEvent::Scanned(Some(0)));
    b.handle(BackendEvent::LinkOpened);
    assert_eq!(
        b.handle(BackendEvent::SourcesRead(None)),
        vec![BackendAction::ClearLiveWindow, BackendAction::SpawnLiveLogging(100)]
    );
}

#[test]
fn connecting_again_ends_the_log_before() {
    let mut b = connected();
    b.handle(command(AppCommand::Connect(50)));
    b.handle(BackendEvent::Scanned(Some(0)));
    b.handle(BackendEvent::LinkOpened);
    assert_eq!(
        b.handle(BackendEvent::SourcesRead(None)),
        vec![
            BackendAction::AbortLiveLogging,
            BackendAction::ClearLiveWindow,
            BackendAction::SpawnLiveLogging(50),
        ]
    );
    let actions = b.handle(command(AppCommand::Disconnect));
    assert!(actions.contains(&BackendAction::AbortLiveLogging));
    let actions = b.handle(command(AppCommand::Disconnect));
    assert!(!actions.contains(&BackendAction::AbortLiveLogging));
}

#[test]
fn disconnecting_ends_the_log() {
    let mut b = connected();
    let actions = b.handle(command(AppCommand::Disconnect));
    assert_eq!(
        actions[..3],
        [
            BackendAction::DropLink,
            BackendAction::AbortLiveLogging,
            BackendAction::ClearLiveWindow
        ]
    );
    assert_eq!(
        actions[3..],
        [
            BackendAction::Ui(UiUpdate::IsConnected(false)),
            BackendAction::Ui(UiUpdate::IsRunning(false)),
            BackendAction::Ui(UiUpdate::IsWaitingForCapture(false)),
            BackendAction::Ui(UiUpdate::IsMeasuring(false)),
            BackendAction::Ui(UiUpdate::CurrentMode(Text::Empty)),
            BackendAction::Ui(UiUpdate::LiveReadouts(Text::NoValue)),
            BackendAction::Ui(UiUpdate::ConnectionStatus(Text::Disconnected)),
            BackendAction::Ui(UiUpdate::Status(Text::ConnectToBegin)),
        ]
    );
    assert!(!b.connected && !b.live_logging);
    let again = b.handle(command(AppCommand::Disconnect));
    assert!(!again.contains(&BackendAction::AbortLiveLogging));
}

#[test]
fn starting_needs_a_connection() {
    let mut b: Backend<i32> = Backend::new();
    assert_eq!(b.handle(command(AppCommand::Start(config(2)))), vec![]);
    assert_eq!(b.handle(command(AppCommand::SetLocoFwdToEstimator(true))), vec![]);
    assert_eq!(b.handle(command(AppCommand::SetLighthouseFwdToEstimator(true))), vec![]);
    let mut b = connected();
    b.stop = true;
    let actions = b.handle(command(AppCommand::Start(config(2))));
    assert_eq!(
        actions,
        vec![
            BackendAction::Ui(UiUpdate::IsRunning(true)),
            BackendAction::Ui(UiUpdate::HasFinalResult(false)),
            BackendAction::Ui(UiUpdate::Error(Text::Empty)),
            BackendAction::Ui(UiUpdate::TotalPointsDisplay(2)),
            BackendAction::Ui(UiUpdate::ResultBaseSystem(SystemKind::Loco)),
            BackendAction::Ui(UiUpdate::ResultMovingSystem(SystemKind::Lighthouse)),
            BackendAction::Ui(UiUpdate::ClearPointResults),
            BackendAction::SpawnMeasurement(config(2)),
        ]
    );
    assert!(b.capture_open && !b.stop);
}

#[test]
fn captures_are_asked_for_while_a_run_is_open() {
    let mut b = connected();
    assert_eq!(b.handle(command(AppCommand::Capture)), vec![]);
    b.handle(command(AppCommand::Start(config(2))));
    assert_eq!(b.handle(command(AppCommand::Capture)), vec![BackendAction::RequestCapture]);
    assert_eq!(b.handle(command(AppCommand::Stop)), vec![BackendAction::CloseCapture]);
    assert!(b.stop);
    assert_eq!(b.handle(command(AppCommand::Capture)), vec![]);
}

#[test]
fn forwarding_is_written_and_taken_back_on_failure() {
    let mut b = connected();
    assert_eq!(
        b.handle(command(AppCommand::SetLocoFwdToEstimator(true))),
        vec![BackendAction::Write(ParamWrite {
            operation: Operation::SetForwarding(SystemKind::Loco),
            value: 1
        })]
    );
    assert_eq!(
        b.handle(command(AppCommand::SetLighthouseFwdToEstimator(false))),
        vec![BackendAction::Write(ParamWrite {
            operation: Operation::SetForwarding(SystemKind::Lighthouse),
            value: 0
        })]
    );
    assert_eq!(
        b.handle(BackendEvent::ForwardingFailed(SystemKind::Lighthouse, false)),
        vec![
            BackendAction::Ui(UiUpdate::Error(Text::ForwardingFailed(SystemKind::Lighthouse))),
            BackendAction::Ui(UiUpdate::Forwarding(SystemKind::Lighthouse, true)),
        ]
    );
}

#[test]
fn a_completed_run_is_offered_for_saving() {
    let mut b = connected();
    assert_eq!(b.handle(command(AppCommand::Save)), vec![]);
    assert_eq!(b.handle(command(AppCommand::ApplyShift)), vec![]);
    b.handle(command(AppCommand::Start(config(2))));
    let shift = XyzValue { x: 1, y: 2, z: 3 };
    let report = AlignmentResult {
        base_system: "Loco".to_string(),
        moving_system: "Lighthouse".to_string(),
        shift_vector: shift,
        std_deviation: XyzValue { x: 7, y: 8, z: 9 },
        point_count: 0,
        points: vec![],
    };
    let updates = b.measurement_completed(
        SystemKind::Loco,
        SystemKind::Lighthouse,
        &report,
        "text".to_string(),
    );
    assert_eq!(
        updates,
        vec![
            UiUpdate::IsRunning(false),
            UiUpdate::IsWaitingForCapture(false),
            UiUpdate::IsMeasuring(false),
            UiUpdate::CurrentMode(Text::Empty),
            UiUpdate::HasFinalResult(true),
            UiUpdate::ShowShift,
            UiUpdate::ResultBaseSystem(SystemKind::Loco),
            UiUpdate::ResultMovingSystem(SystemKind::Lighthouse),
            UiUpdate::Status(Text::AlignmentComplete),
        ]
    );
    assert!(!b.capture_open);
    b.handle(command(AppCommand::Disconnect));
    assert_eq!(
        b.pending_yaml,
        Some(("alignment_lighthouse_to_loco.yaml".to_string(), "text".to_string()))
    );
    assert_eq!(b.pending_shift, Some((SystemKind::Lighthouse, shift)));
    assert_eq!(b.handle(command(AppCommand::Save)), vec![BackendAction::SaveReport]);
    assert_eq!(
        b.handle(command(AppCommand::ApplyShift)),
        vec![BackendAction::ShiftFile(SystemKind::Lighthouse)]
    );
}

#[test]
fn a_run_that_measured_nothing_keeps_the_last_result() {
    let mut b = connected();
    b.handle(command(AppCommand::Start(config(2))));
    assert_eq!(
        b.measurement_stopped(),
        vec![
            UiUpdate::IsRunning(false),
            UiUpdate::IsWaitingForCapture(false),
            UiUpdate::IsMeasuring(false),
            UiUpdate::CurrentMode(Text::Empty),
            UiUpdate::Status(Text::Stopped),
        ]
    );
    assert!(!b.capture_open);
    assert!(b.pending_yaml.is_none());
}
