//! What is shown to the user: texts, and the changes made to the window.
use crate::estimator::{forwarding_param, spec_forwarding_param};
use crate::instruction::{capture_instruction, spec_capture_instruction};
use crate::system::{Role, SystemKind};
use vstd::prelude::*;

verus! {

/// A text shown to the user. Some hold a detail that is known only when they are
/// shown: the message of an error, or a time in seconds.
#[derive(Clone, Copy, Debug, PartialEq, Eq, Structural)]
pub enum Text {
    /// Nothing.
    Empty,
    /// In place of a number that is not known.
    NoValue,
    Connecting,
    Connected,
    Disconnected,
    ConnectToBegin,
    Ready,
    Stopped,
    AlignmentComplete,
    ShiftedSaved,
    CollectingSamples,
    /// The estimator is reset; the detail is the settle time in seconds.
    Settling,
    NoCrazyflie,
    ConnectionFailed,
    CaptureFailed(Role),
    ForwardingFailed(SystemKind),
    LiveLoggingFailed,
    ReadFailed,
    ShiftFailed,
    SaveFailed,
    ResultSaveFailed,
    /// What a capture is of.
    Capturing(Role, SystemKind),
    /// The label of the capture button.
    CaptureButton(Role),
    OpenPositions(SystemKind),
    SaveShiftedPositions(SystemKind),
    /// What to do before a capture.
    Instruction {
        role: Role,
        kind: SystemKind,
        other_kind: SystemKind,
        point_n: usize,
        total: usize,
        is_first_step: bool,
    },
}

impl Text {
    /// The text in full, given its detail.
    pub open spec fn spec_render(self, detail: Seq<char>) -> Seq<char> {
        match self {
            Text::Empty => ""@,
            Text::NoValue => "--"@,
            Text::Connecting => "Connecting…"@,
            Text::Connected => "Connected"@,
            Text::Disconnected => "Disconnected"@,
            Text::ConnectToBegin => "Connect a Crazyflie via USB to begin."@,
            Text::Ready => "Ready. Configure and press Start Alignment."@,
            Text::Stopped => "Stopped."@,
            Text::AlignmentComplete => "Alignment complete. Save the result or run again."@,
            Text::ShiftedSaved => "Shifted positions YAML saved."@,
            Text::CollectingSamples => "Collecting samples…"@,
            Text::Settling => "Resetting the estimator and waiting "@ + detail
                + "s for the position estimate to stabilize…"@,
            Text::NoCrazyflie => "No Crazyflie found over USB."@,
            Text::ConnectionFailed => "Connection failed: "@ + detail,
            Text::CaptureFailed(role) => role.spec_label() + " capture failed: "@ + detail,
            Text::ForwardingFailed(kind) => "Failed to set "@ + spec_forwarding_param(kind) + ": "@
                + detail,
            Text::LiveLoggingFailed => "Failed to start live logging: "@ + detail,
            Text::ReadFailed => "Failed to read file: "@ + detail,
            Text::ShiftFailed => "Failed to apply shift: "@ + detail,
            Text::SaveFailed => "Failed to save file: "@ + detail,
            Text::ResultSaveFailed => "Failed to save: "@ + detail,
            Text::Capturing(role, kind) => "Capturing "@ + role.spec_label() + " ("@
                + kind.spec_label() + ")"@,
            Text::CaptureButton(role) => "Capture "@ + role.spec_label(),
            Text::OpenPositions(kind) => "Open "@ + kind.spec_label() + " positions YAML"@,
            Text::SaveShiftedPositions(kind) => "Save shifted "@ + kind.spec_label()
                + " positions YAML"@,
            Text::Instruction { role, kind, other_kind, point_n, total, is_first_step } =>
                spec_capture_instruction(
                role.spec_label(),
                kind,
                other_kind,
                point_n as nat,
                total as nat,
                is_first_step,
            ),
        }
    }

    /// The text in full, given its detail.
    pub fn render(self, detail: &str) -> (r: String)
        ensures
            r@ == self.spec_render(detail@),
    {
        match self {
            Text::Empty => "".to_owned(),
            Text::NoValue => "--".to_owned(),
            Text::Connecting => "Connecting…".to_owned(),
            Text::Connected => "Connected".to_owned(),
            Text::Disconnected => "Disconnected".to_owned(),
            Text::ConnectToBegin => "Connect a Crazyflie via USB to begin.".to_owned(),
            Text::Ready => "Ready. Configure and press Start Alignment.".to_owned(),
            Text::Stopped => "Stopped.".to_owned(),
            Text::AlignmentComplete =>
                "Alignment complete. Save the result or run again.".to_owned(),
            Text::ShiftedSaved => "Shifted positions YAML saved.".to_owned(),
            Text::CollectingSamples => "Collecting samples…".to_owned(),
            Text::Settling => join(
                "Resetting the estimator and waiting ",
                detail,
                "s for the position estimate to stabilize…",
            ),
            Text::NoCrazyflie => "No Crazyflie found over USB.".to_owned(),
            Text::ConnectionFailed => pair("Connection failed: ", detail),
            Text::CaptureFailed(role) => join(role.label(), " capture failed: ", detail),
            Text::ForwardingFailed(kind) => {
                let mut s = join("Failed to set ", forwarding_param(kind), ": ");
                s.append(detail);
                s
            },
            Text::LiveLoggingFailed => pair("Failed to start live logging: ", detail),
            Text::ReadFailed => pair("Failed to read file: ", detail),
            Text::ShiftFailed => pair("Failed to apply shift: ", detail),
            Text::SaveFailed => pair("Failed to save file: ", detail),
            Text::ResultSaveFailed => pair("Failed to save: ", detail),
            Text::Capturing(role, kind) => {
                let mut s = join("Capturing ", role.label(), " (");
                s.append(kind.label());
                s.append(")");
                s
            },
            Text::CaptureButton(role) => pair("Capture ", role.label()),
            Text::OpenPositions(kind) => join("Open ", kind.label(), " positions YAML"),
            Text::SaveShiftedPositions(kind) => join(
                "Save shifted ",
                kind.label(),
                " positions YAML",
            ),
            Text::Instruction { role, kind, other_kind, point_n, total, is_first_step } =>
                capture_instruction(
                role.label(),
                kind,
                other_kind,
                point_n,
                total,
                is_first_step,
            ),
        }
    }
}

fn pair(a: &str, b: &str) -> (r: String)
    ensures
        r@ == a@ + b@,
{
    let mut s = a.to_owned();
    s.append(b);
    s
}

fn join(a: &str, b: &str, c: &str) -> (r: String)
    ensures
        r@ == a@ + b@ + c@,
{
    let mut s = pair(a, b);
    s.append(c);
    s
}

/// A change to the window.
#[derive(Clone, Copy, Debug, PartialEq, Eq, Structural)]
pub enum UiUpdate {
    ConnectionStatus(Text),
    Status(Text),
    Error(Text),
    IsConnected(bool),
    IsRunning(bool),
    IsWaitingForCapture(bool),
    IsMeasuring(bool),
    CurrentMode(Text),
    CurrentModeIsBase(bool),
    CurrentPoint(i32),
    TotalPointsDisplay(i32),
    CaptureButtonLabel(Text),
    ProgressSamples(i32),
    TotalSamples(i32),
    HasFinalResult(bool),
    ResultBaseSystem(SystemKind),
    ResultMovingSystem(SystemKind),
    /// The table of measured points is emptied.
    ClearPointResults,
    /// The x, y and z readouts and their deviations show this text.
    LiveReadouts(Text),
    /// The checkbox that forwards a system to the estimator.
    Forwarding(SystemKind, bool),
    /// The shift readouts show the computed shift.
    ShowShift,
}

/// Whether a text ends with its detail.
pub open spec fn ends_with_detail(text: Text) -> bool {
    match text {
        Text::ConnectionFailed => true,
        Text::CaptureFailed(_) => true,
        Text::ForwardingFailed(_) => true,
        Text::LiveLoggingFailed => true,
        Text::ReadFailed => true,
        Text::ShiftFailed => true,
        Text::SaveFailed => true,
        Text::ResultSaveFailed => true,
        _ => false,
    }
}

/// The text of an error ends with its detail, whatever that is; the settle time
/// stands between two parts that do not depend on it; any other text is the same
/// for every detail.
pub proof fn detail_is_shown_in_its_place(
    text: Text,
    nothing: &str,
    detail: &str,
    plain: String,
    r: String,
)
    requires
        nothing@.len() == 0,
        call_ensures(Text::render, (text, nothing), plain),
        call_ensures(Text::render, (text, detail), r),
    ensures
        ends_with_detail(text) ==> r@ == plain@ + detail@,
        text is Settling ==> {
            let before = "Resetting the estimator and waiting "@;
            let after = plain@.skip(before.len() as int);
            plain@ == before + after && r@ == before + detail@ + after
        },
        !ends_with_detail(text) && !(text is Settling) ==> r@ == plain@,
{
    if ends_with_detail(text) {
        assert(r@ =~= plain@ + detail@);
    }
    if text is Settling {
        let before = "Resetting the estimator and waiting "@;
        let after = "s for the position estimate to stabilize…"@;
        assert(plain@ =~= before + after);
        assert(plain@.skip(before.len() as int) =~= after);
    }
}

/// An instruction is shown as it was made for the same capture.
pub proof fn instruction_is_shown_as_made(
    role: Role,
    kind: SystemKind,
    other_kind: SystemKind,
    point_n: usize,
    total: usize,
    is_first_step: bool,
    detail: &str,
    r: String,
    name: &'static str,
    made: String,
)
    requires
        call_ensures(
            Text::render,
            (
                Text::Instruction { role, kind, other_kind, point_n, total, is_first_step },
                detail,
            ),
            r,
        ),
        call_ensures(Role::label, (&role,), name),
        call_ensures(
            capture_instruction,
            (name, kind, other_kind, point_n, total, is_first_step),
            made,
        ),
    ensures
        r@ == made@,
{
}

/// Texts about a role or a system name it by its label, whichever it is.
pub proof fn texts_name_what_they_are_about(
    role: Role,
    kind: SystemKind,
    detail: &str,
    role_name: &'static str,
    kind_name: &'static str,
    param: &'static str,
    capturing: String,
    button: String,
    open: String,
    save: String,
    capture_failed: String,
    forwarding_failed: String,
)
    requires
        call_ensures(Role::label, (&role,), role_name),
        call_ensures(SystemKind::label, (&kind,), kind_name),
        call_ensures(forwarding_param, (kind,), param),
        call_ensures(Text::render, (Text::Capturing(role, kind), detail), capturing),
        call_ensures(Text::render, (Text::CaptureButton(role), detail), button),
        call_ensures(Text::render, (Text::OpenPositions(kind), detail), open),
        call_ensures(Text::render, (Text::SaveShiftedPositions(kind), detail), save),
        call_ensures(Text::render, (Text::CaptureFailed(role), detail), capture_failed),
        call_ensures(Text::render, (Text::ForwardingFailed(kind), detail), forwarding_failed),
    ensures
        capturing@ == "Capturing "@ + role_name@ + " ("@ + kind_name@ + ")"@,
        button@ == "Capture "@ + role_name@,
        open@ == "Open "@ + kind_name@ + " positions YAML"@,
        save@ == "Save shifted "@ + kind_name@ + " positions YAML"@,
        capture_failed@ == role_name@ + " capture failed: "@ + detail@,
        forwarding_failed@ == "Failed to set "@ + param@ + ": "@ + detail@,
{
}

} // verus!
