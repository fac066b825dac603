//! The backend: what each command of the user, and each outcome of the work it
//! starts, does to the application.
use crate::config::MeasurementConfig;
use crate::estimator::{
    get_estimator_sources, set_lighthouse_fwd_to_estimator, set_loco_fwd_to_estimator,
    spec_set_fwd_to_estimator, Operation, ParamWrite,
};
use crate::stats::{AlignmentResult, XyzValue};
use crate::system::SystemKind;
use crate::text::ascii_lower;
use crate::ui::{Text, UiUpdate};
use vstd::prelude::*;

verus! {

/// How long the USB device is left alone between the scan and the link, in
/// milliseconds.
pub const USB_SETTLE_MS: u64 = 200;

/// A command of the user.
#[derive(Clone, Copy, Debug, PartialEq, Eq, Structural)]
pub enum AppCommand {
    /// Connect, and log the position with this period in milliseconds.
    Connect(u64),
    Disconnect,
    Start(MeasurementConfig),
    Stop,
    Capture,
    Save,
    ApplyShift,
    SetLighthouseFwdToEstimator(bool),
    SetLocoFwdToEstimator(bool),
}

/// What happened.
#[derive(Clone, Copy, Debug, PartialEq, Eq)]
pub enum BackendEvent {
    Command(AppCommand),
    /// The scan found a Crazyflie on USB at this place of its list, or none.
    Scanned(Option<usize>),
    LinkOpened,
    LinkFailed,
    /// The forwarding parameters (lighthouse, loco) were read, or not.
    SourcesRead(Option<(u8, u8)>),
    /// Switching the forwarding of a system on or off failed.
    ForwardingFailed(SystemKind, bool),
}

/// What is to be done.
#[derive(Clone, Copy, Debug, PartialEq, Eq, Structural)]
pub enum BackendAction {
    Ui(UiUpdate),
    Scan,
    Sleep(u64),
    /// Open the link to the address at this place of the scan's list.
    OpenLink(usize),
    ReadSources,
    DropLink,
    ClearLiveWindow,
    SpawnLiveLogging(u64),
    AbortLiveLogging,
    /// Open a way to ask for captures, and run the measurement.
    SpawnMeasurement(MeasurementConfig),
    /// Close the way to ask for captures.
    CloseCapture,
    RequestCapture,
    Write(ParamWrite),
    /// Ask where to save the last report, and save it.
    SaveReport,
    /// Shift a file of the moving system by the last shift.
    ShiftFile(SystemKind),
}

/// How far a connection attempt is; each holds the log period.
#[derive(Clone, Copy, Debug, PartialEq, Eq, Structural)]
pub enum ConnectPhase {
    /// There is none.
    Idle,
    Scanning(u64),
    Opening(u64),
    ReadingSources(u64),
}

/// The backend. `T` is the type of a coordinate.
pub struct Backend<T> {
    pub phase: ConnectPhase,
    pub connected: bool,
    /// A live log has been started, and not aborted since.
    pub live_logging: bool,
    /// A measurement run can be asked for captures.
    pub capture_open: bool,
    /// The measurement run has been stopped.
    pub stop: bool,
    /// The last report: the name proposed for it, and its text.
    pub pending_yaml: Option<(String, String)>,
    /// The last shift, and the system it is for.
    pub pending_shift: Option<(SystemKind, XyzValue<T>)>,
}

/// The state of the backend.
pub struct BackendState<T> {
    pub phase: ConnectPhase,
    pub connected: bool,
    pub live_logging: bool,
    pub capture_open: bool,
    pub stop: bool,
    pub pending_yaml: Option<(Seq<char>, Seq<char>)>,
    pub pending_shift: Option<(SystemKind, XyzValue<T>)>,
}

impl<T> View for Backend<T> {
    type V = BackendState<T>;

    open spec fn view(&self) -> BackendState<T> {
        BackendState {
            phase: self.phase,
            connected: self.connected,
            live_logging: self.live_logging,
            capture_open: self.capture_open,
            stop: self.stop,
            pending_yaml: match self.pending_yaml {
                Some((name, yaml)) => Some((name@, yaml@)),
                None => None,
            },
            pending_shift: self.pending_shift,
        }
    }
}

/// The window after a disconnect.
pub open spec fn disconnected_updates() -> Seq<BackendAction> {
    seq![
        BackendAction::Ui(UiUpdate::IsConnected(false)),
        BackendAction::Ui(UiUpdate::IsRunning(false)),
        BackendAction::Ui(UiUpdate::IsWaitingForCapture(false)),
        BackendAction::Ui(UiUpdate::IsMeasuring(false)),
        BackendAction::Ui(UiUpdate::CurrentMode(Text::Empty)),
        BackendAction::Ui(UiUpdate::LiveReadouts(Text::NoValue)),
        BackendAction::Ui(UiUpdate::ConnectionStatus(Text::Disconnected)),
        BackendAction::Ui(UiUpdate::Status(Text::ConnectToBegin)),
    ]
}

/// What starting a measurement does.
pub open spec fn start_actions(config: MeasurementConfig) -> Seq<BackendAction> {
    seq![
        BackendAction::Ui(UiUpdate::IsRunning(true)),
        BackendAction::Ui(UiUpdate::HasFinalResult(false)),
        BackendAction::Ui(UiUpdate::Error(Text::Empty)),
        BackendAction::Ui(UiUpdate::TotalPointsDisplay(config.num_points as i32)),
        BackendAction::Ui(UiUpdate::ResultBaseSystem(config.base_kind)),
        BackendAction::Ui(UiUpdate::ResultMovingSystem(config.moving_kind)),
        BackendAction::Ui(UiUpdate::ClearPointResults),
        BackendAction::SpawnMeasurement(config),
    ]
}

/// The window after a run that measured nothing.
pub open spec fn stopped_updates() -> Seq<UiUpdate> {
    seq![
        UiUpdate::IsRunning(false),
        UiUpdate::IsWaitingForCapture(false),
        UiUpdate::IsMeasuring(false),
        UiUpdate::CurrentMode(Text::Empty),
        UiUpdate::Status(Text::Stopped),
    ]
}

/// The window after a run with a result.
pub open spec fn completed_updates(base_kind: SystemKind, moving_kind: SystemKind) -> Seq<
    UiUpdate,
> {
    seq![
        UiUpdate::IsRunning(false),
        UiUpdate::IsWaitingForCapture(false),
        UiUpdate::IsMeasuring(false),
        UiUpdate::CurrentMode(Text::Empty),
        UiUpdate::HasFinalResult(true),
        UiUpdate::ShowShift,
        UiUpdate::ResultBaseSystem(base_kind),
        UiUpdate::ResultMovingSystem(moving_kind),
        UiUpdate::Status(Text::AlignmentComplete),
    ]
}

pub open spec fn spec_result_file_name(base_kind: SystemKind, moving_kind: SystemKind) -> Seq<
    char,
> {
    "alignment_"@ + ascii_lower(moving_kind.spec_label()) + "_to_"@ + ascii_lower(
        base_kind.spec_label(),
    ) + ".yaml"@
}

/// The name proposed for an alignment report.
pub fn result_file_name(base_kind: SystemKind, moving_kind: SystemKind) -> (r: String)
    ensures
        r@ == spec_result_file_name(base_kind, moving_kind),
{
    let mut name = "alignment_".to_owned();
    name.append(moving_kind.lower_label());
    name.append("_to_");
    name.append(base_kind.lower_label());
    name.append(".yaml");
    name
}

/// Whether a link address is one of USB.
pub open spec fn is_usb_uri(uri: Seq<char>) -> bool {
    "usb://"@.is_prefix_of(uri)
}

fn starts_with(s: &str, prefix: &str) -> (r: bool)
    ensures
        r == prefix@.is_prefix_of(s@),
{
    let n: usize = prefix.unicode_len();
    if s.unicode_len() < n {
        return false;
    }
    let mut i: usize = 0;
    while i < n
        invariant
            i <= n,
            n == prefix@.len(),
            n <= s@.len(),
            forall|j: int| 0 <= j < i ==> prefix@[j] == s@[j],
        decreases n - i,
    {
        if prefix.get_char(i) != s.get_char(i) {
            assert(prefix@[i as int] != s@.subrange(0, n as int)[i as int]);
            return false;
        }
        i += 1;
    }
    assert(prefix@ =~= s@.subrange(0, n as int));
    true
}

/// None of some addresses is one of USB.
pub open spec fn has_no_usb_uri(uris: Seq<String>) -> bool {
    forall|j: int| 0 <= j < uris.len() ==> !#[trigger] is_usb_uri(uris[j]@)
}

/// The place of the first USB address among those that a scan found.
pub fn find_usb_uri(uris: &Vec<String>) -> (r: Option<usize>)
    ensures
        match r {
            Some(i) => i < uris@.len() && is_usb_uri(uris@[i as int]@) && forall|j: int|
                0 <= j < i ==> !#[trigger] is_usb_uri(uris@[j]@),
            None => forall|j: int| 0 <= j < uris@.len() ==> !#[trigger] is_usb_uri(uris@[j]@),
        },
        r is None <==> has_no_usb_uri(uris@),
{
    let mut i: usize = 0;
    while i < uris.len()
        invariant
            i <= uris@.len(),
            forall|j: int| 0 <= j < i ==> !#[trigger] is_usb_uri(uris@[j]@),
        decreases uris.len() - i,
    {
        if starts_with(uris[i].as_str(), "usb://") {
            assert(is_usb_uri(uris@[i as int]@));
            return Some(i);
        }
        i += 1;
    }
    None
}

impl<T> BackendState<T> {
    /// The live log goes with the connection; only while a fresh connection
    /// reads the sources is its log yet to start.
    pub open spec fn wf(self) -> bool {
        if self.phase is ReadingSources {
            self.connected
        } else {
            self.connected == self.live_logging
        }
    }

    pub open spec fn init() -> BackendState<T> {
        BackendState {
            phase: ConnectPhase::Idle,
            connected: false,
            live_logging: false,
            capture_open: false,
            stop: false,
            pending_yaml: None,
            pending_shift: None,
        }
    }

    /// The backend after a command, and what is to be done.
    pub open spec fn command(self, command: AppCommand) -> (BackendState<T>, Seq<BackendAction>) {
        match command {
            AppCommand::Connect(period) => (
                BackendState { phase: ConnectPhase::Scanning(period), ..self },
                seq![
                    BackendAction::Ui(UiUpdate::ConnectionStatus(Text::Connecting)),
                    BackendAction::Ui(UiUpdate::Error(Text::Empty)),
                    BackendAction::Scan,
                ],
            ),
            AppCommand::Disconnect => (
                BackendState { connected: false, live_logging: false, ..self },
                seq![BackendAction::DropLink] + (if self.live_logging {
                    seq![BackendAction::AbortLiveLogging]
                } else {
                    seq![]
                }) + seq![BackendAction::ClearLiveWindow] + disconnected_updates(),
            ),
            AppCommand::Start(config) => if self.connected {
                (BackendState { stop: false, capture_open: true, ..self }, start_actions(config))
            } else {
                (self, seq![])
            },
            AppCommand::Stop => (
                BackendState { stop: true, capture_open: false, ..self },
                seq![BackendAction::CloseCapture],
            ),
            AppCommand::Capture => (
                self,
                if self.capture_open {
                    seq![BackendAction::RequestCapture]
                } else {
                    seq![]
                },
            ),
            AppCommand::Save => (
                self,
                if self.pending_yaml is Some {
                    seq![BackendAction::SaveReport]
                } else {
                    seq![]
                },
            ),
            AppCommand::ApplyShift => (
                self,
                match self.pending_shift {
                    Some((kind, _)) => seq![BackendAction::ShiftFile(kind)],
                    None => seq![],
                },
            ),
            AppCommand::SetLighthouseFwdToEstimator(enabled) => (
                self,
                if self.connected {
                    seq![
                        BackendAction::Write(
                            spec_set_fwd_to_estimator(SystemKind::Lighthouse, enabled),
                        ),
                    ]
                } else {
                    seq![]
                },
            ),
            AppCommand::SetLocoFwdToEstimator(enabled) => (
                self,
                if self.connected {
                    seq![
                        BackendAction::Write(spec_set_fwd_to_estimator(SystemKind::Loco, enabled)),
                    ]
                } else {
                    seq![]
                },
            ),
        }
    }

    /// The backend after an event, and what is to be done. Commands are taken
    /// one by one: the next is kept back until a connection attempt is over. An
    /// event that is not waited for changes nothing.
    pub open spec fn step(self, event: BackendEvent) -> (BackendState<T>, Seq<BackendAction>) {
        match (event, self.phase) {
            (BackendEvent::Command(command), ConnectPhase::Idle) => self.command(command),
            (BackendEvent::Scanned(Some(place)), ConnectPhase::Scanning(period)) => (
                BackendState { phase: ConnectPhase::Opening(period), ..self },
                seq![BackendAction::Sleep(USB_SETTLE_MS), BackendAction::OpenLink(place)],
            ),
            (BackendEvent::Scanned(None), ConnectPhase::Scanning(_)) => (
                BackendState { phase: ConnectPhase::Idle, ..self },
                seq![
                    BackendAction::Ui(UiUpdate::ConnectionStatus(Text::Disconnected)),
                    BackendAction::Ui(UiUpdate::Error(Text::NoCrazyflie)),
                ],
            ),
            (BackendEvent::LinkOpened, ConnectPhase::Opening(period)) => (
                BackendState {
                    phase: ConnectPhase::ReadingSources(period),
                    connected: true,
                    ..self
                },
                seq![
                    BackendAction::Ui(UiUpdate::IsConnected(true)),
                    BackendAction::Ui(UiUpdate::ConnectionStatus(Text::Connected)),
                    BackendAction::Ui(UiUpdate::Status(Text::Ready)),
                    BackendAction::ReadSources,
                ],
            ),
            (BackendEvent::LinkFailed, ConnectPhase::Opening(_)) => (
                BackendState { phase: ConnectPhase::Idle, ..self },
                seq![
                    BackendAction::Ui(UiUpdate::ConnectionStatus(Text::Disconnected)),
                    BackendAction::Ui(UiUpdate::Error(Text::ConnectionFailed)),
                ],
            ),
            (BackendEvent::SourcesRead(sources), ConnectPhase::ReadingSources(period)) => (
                BackendState { phase: ConnectPhase::Idle, live_logging: true, ..self },
                (match sources {
                    Some((lighthouse, loco)) => seq![
                        BackendAction::Ui(
                            UiUpdate::Forwarding(SystemKind::Lighthouse, lighthouse != 0),
                        ),
                        BackendAction::Ui(UiUpdate::Forwarding(SystemKind::Loco, loco != 0)),
                    ],
                    None => seq![],
                }) + (if self.live_logging {
                    seq![BackendAction::AbortLiveLogging]
                } else {
                    seq![]
                }) + seq![
                    BackendAction::ClearLiveWindow,
                    BackendAction::SpawnLiveLogging(period),
                ],
            ),
            (BackendEvent::ForwardingFailed(kind, enabled), _) => (
                self,
                seq![
                    BackendAction::Ui(UiUpdate::Error(Text::ForwardingFailed(kind))),
                    BackendAction::Ui(UiUpdate::Forwarding(kind, !enabled)),
                ],
            ),
            _ => (self, seq![]),
        }
    }

    /// The backend after a run that measured nothing.
    pub open spec fn stopped(self) -> BackendState<T> {
        BackendState { capture_open: false, ..self }
    }

    /// The backend after a run with a result.
    pub open spec fn completed(
        self,
        base_kind: SystemKind,
        moving_kind: SystemKind,
        yaml: Seq<char>,
        shift: XyzValue<T>,
    ) -> BackendState<T> {
        BackendState {
            capture_open: false,
            pending_yaml: Some((spec_result_file_name(base_kind, moving_kind), yaml)),
            pending_shift: Some((moving_kind, shift)),
            ..self
        }
    }
}

fn push_disconnected(actions: &mut Vec<BackendAction>)
    ensures
        final(actions)@ == old(actions)@ + disconnected_updates(),
{
    actions.push(BackendAction::Ui(UiUpdate::IsConnected(false)));
    actions.push(BackendAction::Ui(UiUpdate::IsRunning(false)));
    actions.push(BackendAction::Ui(UiUpdate::IsWaitingForCapture(false)));
    actions.push(BackendAction::Ui(UiUpdate::IsMeasuring(false)));
    actions.push(BackendAction::Ui(UiUpdate::CurrentMode(Text::Empty)));
    actions.push(BackendAction::Ui(UiUpdate::LiveReadouts(Text::NoValue)));
    actions.push(BackendAction::Ui(UiUpdate::ConnectionStatus(Text::Disconnected)));
    actions.push(BackendAction::Ui(UiUpdate::Status(Text::ConnectToBegin)));
}

fn push_start(actions: &mut Vec<BackendAction>, config: MeasurementConfig)
    ensures
        final(actions)@ == old(actions)@ + start_actions(config),
{
    actions.push(BackendAction::Ui(UiUpdate::IsRunning(true)));
    actions.push(BackendAction::Ui(UiUpdate::HasFinalResult(false)));
    actions.push(BackendAction::Ui(UiUpdate::Error(Text::Empty)));
    actions.push(BackendAction::Ui(UiUpdate::TotalPointsDisplay(config.num_points as i32)));
    actions.push(BackendAction::Ui(UiUpdate::ResultBaseSystem(config.base_kind)));
    actions.push(BackendAction::Ui(UiUpdate::ResultMovingSystem(config.moving_kind)));
    actions.push(BackendAction::Ui(UiUpdate::ClearPointResults));
    actions.push(BackendAction::SpawnMeasurement(config));
}

impl<T: Copy> Backend<T> {
    /// A backend without a connection and without a result.
    pub fn new() -> (r: Self)
        ensures
            r@ == BackendState::<T>::init(),
            r@.wf(),
    {
        Backend {
            phase: ConnectPhase::Idle,
            connected: false,
            live_logging: false,
            capture_open: false,
            stop: false,
            pending_yaml: None,
            pending_shift: None,
        }
    }

    fn command(&mut self, command: AppCommand) -> (r: Vec<BackendAction>)
        ensures
            (final(self)@, r@) == old(self)@.command(command),
    {
        let mut actions: Vec<BackendAction> = Vec::new();
        match command {
            AppCommand::Connect(period) => {
                self.phase = ConnectPhase::Scanning(period);
                actions.push(BackendAction::Ui(UiUpdate::ConnectionStatus(Text::Connecting)));
                actions.push(BackendAction::Ui(UiUpdate::Error(Text::Empty)));
                actions.push(BackendAction::Scan);
            },
            AppCommand::Disconnect => {
                actions.push(BackendAction::DropLink);
                if self.live_logging {
                    actions.push(BackendAction::AbortLiveLogging);
                }
                self.connected = false;
                self.live_logging = false;
                actions.push(BackendAction::ClearLiveWindow);
                push_disconnected(&mut actions);
            },
            AppCommand::Start(config) => {
                if self.connected {
                    self.stop = false;
                    self.capture_open = true;
                    push_start(&mut actions, config);
                }
            },
            AppCommand::Stop => {
                self.stop = true;
                self.capture_open = false;
                actions.push(BackendAction::CloseCapture);
            },
            AppCommand::Capture => {
                if self.capture_open {
                    actions.push(BackendAction::RequestCapture);
                }
            },
            AppCommand::Save => {
                if self.pending_yaml.is_some() {
                    actions.push(BackendAction::SaveReport);
                }
            },
            AppCommand::ApplyShift => {
                if let Some((kind, _)) = self.pending_shift {
                    actions.push(BackendAction::ShiftFile(kind));
                }
            },
            AppCommand::SetLighthouseFwdToEstimator(enabled) => {
                if self.connected {
                    actions.push(BackendAction::Write(set_lighthouse_fwd_to_estimator(enabled)));
                }
            },
            AppCommand::SetLocoFwdToEstimator(enabled) => {
                if self.connected {
                    actions.push(BackendAction::Write(set_loco_fwd_to_estimator(enabled)));
                }
            },
        }
        actions
    }

    /// Takes an event, and says what is to be done.
    pub fn handle(&mut self, event: BackendEvent) -> (r: Vec<BackendAction>)
        ensures
            (final(self)@, r@) == old(self)@.step(event),
    {
        let mut actions: Vec<BackendAction> = Vec::new();
        match (event, self.phase) {
            (BackendEvent::Command(command), ConnectPhase::Idle) => {
                return self.command(command);
            },
            (BackendEvent::Scanned(Some(place)), ConnectPhase::Scanning(period)) => {
                self.phase = ConnectPhase::Opening(period);
                actions.push(BackendAction::Sleep(USB_SETTLE_MS));
                actions.push(BackendAction::OpenLink(place));
            },
            (BackendEvent::Scanned(None), ConnectPhase::Scanning(_)) => {
                self.phase = ConnectPhase::Idle;
                actions.push(BackendAction::Ui(UiUpdate::ConnectionStatus(Text::Disconnected)));
                actions.push(BackendAction::Ui(UiUpdate::Error(Text::NoCrazyflie)));
            },
            (BackendEvent::LinkOpened, ConnectPhase::Opening(period)) => {
                self.phase = ConnectPhase::ReadingSources(period);
                self.connected = true;
                actions.push(BackendAction::Ui(UiUpdate::IsConnected(true)));
                actions.push(BackendAction::Ui(UiUpdate::ConnectionStatus(Text::Connected)));
                actions.push(BackendAction::Ui(UiUpdate::Status(Text::Ready)));
                actions.push(BackendAction::ReadSources);
            },
            (BackendEvent::LinkFailed, ConnectPhase::Opening(_)) => {
                self.phase = ConnectPhase::Idle;
                actions.push(BackendAction::Ui(UiUpdate::ConnectionStatus(Text::Disconnected)));
                actions.push(BackendAction::Ui(UiUpdate::Error(Text::ConnectionFailed)));
            },
            (BackendEvent::SourcesRead(sources), ConnectPhase::ReadingSources(period)) => {
                self.phase = ConnectPhase::Idle;
                if let Some((lighthouse, loco)) = sources {
                    let (lighthouse_on, loco_on) = get_estimator_sources(lighthouse, loco);
                    actions.push(
                        BackendAction::Ui(
                            UiUpdate::Forwarding(SystemKind::Lighthouse, lighthouse_on),
                        ),
                    );
                    actions.push(
                        BackendAction::Ui(UiUpdate::Forwarding(SystemKind::Loco, loco_on)),
                    );
                }
                if self.live_logging {
                    actions.push(BackendAction::AbortLiveLogging);
                }
                self.live_logging = true;
                actions.push(BackendAction::ClearLiveWindow);
                actions.push(BackendAction::SpawnLiveLogging(period));
            },
            (BackendEvent::ForwardingFailed(kind, enabled), _) => {
                actions.push(BackendAction::Ui(UiUpdate::Error(Text::ForwardingFailed(kind))));
                actions.push(BackendAction::Ui(UiUpdate::Forwarding(kind, !enabled)));
            },
            _ => {},
        }
        actions
    }

    /// Takes note of the end of a run that measured nothing.
    pub fn measurement_stopped(&mut self) -> (r: Vec<UiUpdate>)
        ensures
            final(self)@ == old(self)@.stopped(),
            r@ == stopped_updates(),
    {
        self.capture_open = false;
        let mut updates: Vec<UiUpdate> = Vec::new();
        updates.push(UiUpdate::IsRunning(false));
        updates.push(UiUpdate::IsWaitingForCapture(false));
        updates.push(UiUpdate::IsMeasuring(false));
        updates.push(UiUpdate::CurrentMode(Text::Empty));
        updates.push(UiUpdate::Status(Text::Stopped));
        updates
    }

    /// Takes note of the end of a run with a result: the text of its report and
    /// the shift of the report are kept.
    pub fn measurement_completed(
        &mut self,
        base_kind: SystemKind,
        moving_kind: SystemKind,
        report: &AlignmentResult<T>,
        yaml: String,
    ) -> (r: Vec<UiUpdate>)
        ensures
            final(self)@ == old(self)@.completed(
                base_kind,
                moving_kind,
                yaml@,
                report.shift_vector,
            ),
            final(self)@.pending_shift == Some((moving_kind, report.shift_vector)),
            r@ == completed_updates(base_kind, moving_kind),
    {
        self.capture_open = false;
        self.pending_yaml = Some((result_file_name(base_kind, moving_kind), yaml));
        self.pending_shift = Some((moving_kind, report.shift_vector));
        let mut updates: Vec<UiUpdate> = Vec::new();
        updates.push(UiUpdate::IsRunning(false));
        updates.push(UiUpdate::IsWaitingForCapture(false));
        updates.push(UiUpdate::IsMeasuring(false));
        updates.push(UiUpdate::CurrentMode(Text::Empty));
        updates.push(UiUpdate::HasFinalResult(true));
        updates.push(UiUpdate::ShowShift);
        updates.push(UiUpdate::ResultBaseSystem(base_kind));
        updates.push(UiUpdate::ResultMovingSystem(moving_kind));
        updates.push(UiUpdate::Status(Text::AlignmentComplete));
        updates
    }
}

/// The backend over a series of events.
pub open spec fn backend_over<T>(
    state: BackendState<T>,
    events: Seq<BackendEvent>,
) -> BackendState<T>
    decreases events.len(),
{
    if events.len() == 0 {
        state
    } else {
        backend_over(state.step(events[0]).0, events.drop_first())
    }
}

/// All that is to be done over a series of events.
pub open spec fn actions_over<T>(state: BackendState<T>, events: Seq<BackendEvent>) -> Seq<
    BackendAction,
>
    decreases events.len(),
{
    if events.len() == 0 {
        seq![]
    } else {
        let (next, actions) = state.step(events[0]);
        actions + actions_over(next, events.drop_first())
    }
}

/// How many live logs an action adds to those that run.
pub open spec fn log_change(action: BackendAction) -> int {
    match action {
        BackendAction::SpawnLiveLogging(_) => 1,
        BackendAction::AbortLiveLogging => -1,
        _ => 0,
    }
}

/// How many live logs run after some actions: those spawned less those aborted.
pub open spec fn running_logs(actions: Seq<BackendAction>) -> int
    decreases actions.len(),
{
    if actions.len() == 0 {
        0
    } else {
        running_logs(actions.drop_last()) + log_change(actions.last())
    }
}

proof fn lemma_running_logs_sum(a: Seq<BackendAction>, b: Seq<BackendAction>)
    ensures
        running_logs(a + b) == running_logs(a) + running_logs(b),
    decreases b.len(),
{
    if b.len() == 0 {
        assert(a + b =~= a);
    } else {
        lemma_running_logs_sum(a, b.drop_last());
        assert((a + b).drop_last() =~= a + b.drop_last());
    }
}

proof fn lemma_one_more(actions: Seq<BackendAction>, n: int)
    requires
        0 <= n < actions.len(),
    ensures
        running_logs(actions.take(n + 1)) == running_logs(actions.take(n)) + log_change(actions[n]),
{
    assert(actions.take(n + 1).drop_last() =~= actions.take(n));
}

/// Actions of which from place `from` on none touches a live log.
proof fn lemma_quiet(actions: Seq<BackendAction>, from: int, to: int)
    requires
        0 <= from <= to <= actions.len(),
        forall|i: int| from <= i < to ==> log_change(#[trigger] actions[i]) == 0,
    ensures
        running_logs(actions.take(to)) == running_logs(actions.take(from)),
    decreases to - from,
{
    if from < to {
        lemma_quiet(actions, from, to - 1);
        lemma_one_more(actions, to - 1);
    }
}

/// How many live logs the state stands for.
pub open spec fn logs_of<T>(state: BackendState<T>) -> int {
    if state.live_logging {
        1
    } else {
        0
    }
}

proof fn lemma_step_logs<T>(state: BackendState<T>, event: BackendEvent, n: int)
    requires
        0 <= n <= state.step(event).1.len(),
    ensures
        0 <= logs_of(state) + running_logs(state.step(event).1.take(n)) <= 1,
        logs_of(state) + running_logs(state.step(event).1) == logs_of(state.step(event).0),
{
    let actions = state.step(event).1;
    let len: int = actions.len() as int;
    assert(actions.take(len) =~= actions);
    assert(actions.take(0) =~= seq![]);
    match (event, state.phase) {
        (BackendEvent::Command(AppCommand::Disconnect), ConnectPhase::Idle) => {
            lemma_one_more(actions, 0);
            lemma_one_more(actions, 1);
            lemma_quiet(actions, 2, len);
            if n > 2 {
                lemma_quiet(actions, 2, n);
            }
        },
        (BackendEvent::SourcesRead(sources), ConnectPhase::ReadingSources(_)) => {
            let p: int = if sources is Some {
                2
            } else {
                0
            };
            lemma_quiet(actions, 0, p);
            if n <= p {
                lemma_quiet(actions, 0, n);
            }
            lemma_one_more(actions, p);
            lemma_one_more(actions, p + 1);
            if state.live_logging {
                lemma_one_more(actions, p + 2);
            }
        },
        _ => {
            lemma_quiet(actions, 0, len);
            lemma_quiet(actions, 0, n);
        },
    }
}

proof fn lemma_actions_logs<T>(state: BackendState<T>, events: Seq<BackendEvent>, n: int)
    requires
        0 <= n <= actions_over(state, events).len(),
    ensures
        0 <= logs_of(state) + running_logs(actions_over(state, events).take(n)) <= 1,
        logs_of(state) + running_logs(actions_over(state, events)) == logs_of(
            backend_over(state, events),
        ),
    decreases events.len(),
{
    let all = actions_over(state, events);
    if events.len() == 0 {
        assert(all.take(n) =~= seq![]);
    } else {
        let (next, actions) = state.step(events[0]);
        let rest = actions_over(next, events.drop_first());
        lemma_running_logs_sum(actions, rest);
        if n <= actions.len() {
            lemma_step_logs(state, events[0], n);
            lemma_actions_logs(next, events.drop_first(), 0);
            assert(all.take(n) =~= actions.take(n));
        } else {
            lemma_step_logs(state, events[0], 0);
            lemma_actions_logs(next, events.drop_first(), n - actions.len());
            assert(all.take(n) =~= actions + rest.take(n - actions.len()));
            lemma_running_logs_sum(actions, rest.take(n - actions.len()));
        }
    }
}

/// Whatever happens, and however far it has been carried out, at most one live
/// log runs: the one before is aborted before the next is started.
pub proof fn at_most_one_live_log<T>(events: Seq<BackendEvent>, n: int)
    requires
        0 <= n <= actions_over(BackendState::<T>::init(), events).len(),
    ensures
        0 <= running_logs(actions_over(BackendState::<T>::init(), events).take(n)) <= 1,
{
    lemma_actions_logs(BackendState::<T>::init(), events, n);
}

/// Whatever happened before, and however many connections were made, no live log
/// runs after a disconnect.
pub proof fn no_live_log_after_disconnect<T>(events: Seq<BackendEvent>)
    requires
        backend_over(BackendState::<T>::init(), events).phase is Idle,
    ensures
        running_logs(
            actions_over(BackendState::<T>::init(), events) + backend_over(
                BackendState::<T>::init(),
                events,
            ).step(BackendEvent::Command(AppCommand::Disconnect)).1,
        ) == 0,
{
    let init = BackendState::<T>::init();
    let before = backend_over(init, events);
    let disconnect = BackendEvent::Command(AppCommand::Disconnect);
    lemma_actions_logs(init, events, 0);
    lemma_step_logs(before, disconnect, 0);
    lemma_running_logs_sum(actions_over(init, events), before.step(disconnect).1);
}

/// Whatever happens, between connection attempts a live log runs exactly if there
/// is a connection.
pub proof fn logging_goes_with_the_connection<T>(events: Seq<BackendEvent>)
    ensures
        backend_over(BackendState::<T>::init(), events).wf(),
        backend_over(BackendState::<T>::init(), events).phase is Idle ==> running_logs(
            actions_over(BackendState::<T>::init(), events),
        ) == (if backend_over(BackendState::<T>::init(), events).connected {
            1int
        } else {
            0int
        }),
{
    lemma_over_wf(BackendState::<T>::init(), events);
    lemma_actions_logs(BackendState::<T>::init(), events, 0);
}

proof fn lemma_over_wf<T>(state: BackendState<T>, events: Seq<BackendEvent>)
    requires
        state.wf(),
    ensures
        backend_over(state, events).wf(),
    decreases events.len(),
{
    if events.len() > 0 {
        lemma_over_wf(state.step(events[0]).0, events.drop_first());
    }
}

/// Neither commands nor their outcomes touch the last report and the last
/// shift: those stay until a run completes.
pub proof fn result_stays_until_a_run_completes<T>(
    state: BackendState<T>,
    events: Seq<BackendEvent>,
)
    ensures
        backend_over(state, events).pending_yaml == state.pending_yaml,
        backend_over(state, events).pending_shift == state.pending_shift,
    decreases events.len(),
{
    if events.len() > 0 {
        result_stays_until_a_run_completes(state.step(events[0]).0, events.drop_first());
    }
}

/// Without a connection a measurement cannot be started and no parameter is
/// written.
pub proof fn commands_need_a_connection<T>(
    state: BackendState<T>,
    config: MeasurementConfig,
    enabled: bool,
)
    requires
        !state.connected,
    ensures
        state.step(BackendEvent::Command(AppCommand::Start(config))) == (
            state,
            Seq::<BackendAction>::empty(),
        ),
        state.step(BackendEvent::Command(AppCommand::SetLighthouseFwdToEstimator(enabled))) == (
            state,
            Seq::<BackendAction>::empty(),
        ),
        state.step(BackendEvent::Command(AppCommand::SetLocoFwdToEstimator(enabled))) == (
            state,
            Seq::<BackendAction>::empty(),
        ),
{
}

/// After a stop no capture is asked for until a measurement is started.
pub proof fn no_capture_after_stop<T>(state: BackendState<T>, events: Seq<BackendEvent>)
    requires
        state.phase is Idle,
        forall|i: int|
            0 <= i < events.len() ==> !((#[trigger] events[i]) matches BackendEvent::Command(
                AppCommand::Start(_),
            )),
    ensures
        !backend_over(
            state.step(BackendEvent::Command(AppCommand::Stop)).0,
            events,
        ).capture_open,
        !backend_over(
            state.step(BackendEvent::Command(AppCommand::Stop)).0,
            events,
        ).step(BackendEvent::Command(AppCommand::Capture)).1.contains(
            BackendAction::RequestCapture,
        ),
{
    lemma_capture_stays_closed(
        state.step(BackendEvent::Command(AppCommand::Stop)).0,
        events,
    );
}

proof fn lemma_capture_stays_closed<T>(state: BackendState<T>, events: Seq<BackendEvent>)
    requires
        !state.capture_open,
        forall|i: int|
            0 <= i < events.len() ==> !((#[trigger] events[i]) matches BackendEvent::Command(
                AppCommand::Start(_),
            )),
    ensures
        !backend_over(state, events).capture_open,
    decreases events.len(),
{
    if events.len() > 0 {
        let rest = events.drop_first();
        assert forall|i: int| 0 <= i < rest.len() implies !((#[trigger] rest[i])
            matches BackendEvent::Command(AppCommand::Start(_))) by {
            assert(rest[i] == events[i + 1]);
        }
        lemma_capture_stays_closed(state.step(events[0]).0, rest);
    }
}

/// A report that was completed is what is offered for saving, and its shift is
/// what a file of the moving system is shifted by, whatever commands come
/// between.
pub proof fn completed_result_is_offered<T>(
    state: BackendState<T>,
    base_kind: SystemKind,
    moving_kind: SystemKind,
    yaml: Seq<char>,
    shift: XyzValue<T>,
    events: Seq<BackendEvent>,
)
    requires
        backend_over(state.completed(base_kind, moving_kind, yaml, shift), events).phase is Idle,
    ensures
        ({
            let later = backend_over(state.completed(base_kind, moving_kind, yaml, shift), events);
            &&& later.pending_yaml == Some((spec_result_file_name(base_kind, moving_kind), yaml))
            &&& later.pending_shift == Some((moving_kind, shift))
            &&& later.step(BackendEvent::Command(AppCommand::Save)).1 == seq![
                BackendAction::SaveReport,
            ]
            &&& later.step(BackendEvent::Command(AppCommand::ApplyShift)).1 == seq![
                BackendAction::ShiftFile(moving_kind),
            ]
        }),
{
    result_stays_until_a_run_completes(
        state.completed(base_kind, moving_kind, yaml, shift),
        events,
    );
}

/// A connection that succeeds opens the link to the Crazyflie that the scan
/// found, after a rest, shows whether each system is forwarded, and logs with the
/// period that was asked for; whatever the state before.
pub proof fn connecting_opens_what_was_found_and_logs_as_asked<T>(
    state: BackendState<T>,
    period: u64,
    place: usize,
    sources: Option<(u8, u8)>,
)
    requires
        state.phase is Idle,
    ensures
        ({
            let (s1, a1) = state.step(BackendEvent::Command(AppCommand::Connect(period)));
            let (s2, a2) = s1.step(BackendEvent::Scanned(Some(place)));
            let (s3, a3) = s2.step(BackendEvent::LinkOpened);
            let (s4, a4) = s3.step(BackendEvent::SourcesRead(sources));
            &&& a1.last() is Scan
            &&& a1.contains(BackendAction::Ui(UiUpdate::ConnectionStatus(Text::Connecting)))
            &&& a1.contains(BackendAction::Ui(UiUpdate::Error(Text::Empty)))
            &&& a2 == seq![BackendAction::Sleep(200), BackendAction::OpenLink(place)]
            &&& a3.last() is ReadSources
            &&& a3.contains(BackendAction::Ui(UiUpdate::IsConnected(true)))
            &&& a3.contains(BackendAction::Ui(UiUpdate::ConnectionStatus(Text::Connected)))
            &&& a3.contains(BackendAction::Ui(UiUpdate::Status(Text::Ready)))
            &&& a4.last() == BackendAction::SpawnLiveLogging(period)
            &&& a4.contains(BackendAction::ClearLiveWindow)
            &&& forall|kind: SystemKind, on: bool| #[trigger]
                a4.contains(BackendAction::Ui(UiUpdate::Forwarding(kind, on))) <==> sources is Some
                    && on == (match kind {
                    SystemKind::Lighthouse => sources.unwrap().0 != 0,
                    SystemKind::Loco => sources.unwrap().1 != 0,
                })
            &&& s4 == (BackendState { connected: true, live_logging: true, ..state })
        }),
{
    let (s1, a1) = state.step(BackendEvent::Command(AppCommand::Connect(period)));
    let (s2, a2) = s1.step(BackendEvent::Scanned(Some(place)));
    let (s3, a3) = s2.step(BackendEvent::LinkOpened);
    let (s4, a4) = s3.step(BackendEvent::SourcesRead(sources));
    assert(a1[0] == BackendAction::Ui(UiUpdate::ConnectionStatus(Text::Connecting)));
    assert(a1[1] == BackendAction::Ui(UiUpdate::Error(Text::Empty)));
    assert(a3[0] == BackendAction::Ui(UiUpdate::IsConnected(true)));
    assert(a3[1] == BackendAction::Ui(UiUpdate::ConnectionStatus(Text::Connected)));
    assert(a3[2] == BackendAction::Ui(UiUpdate::Status(Text::Ready)));
    assert(a4[a4.len() - 2] == BackendAction::ClearLiveWindow);
    if sources is Some {
        assert(a4[0] == BackendAction::Ui(
            UiUpdate::Forwarding(SystemKind::Lighthouse, sources.unwrap().0 != 0),
        ));
        assert(a4[1] == BackendAction::Ui(
            UiUpdate::Forwarding(SystemKind::Loco, sources.unwrap().1 != 0),
        ));
    }
}

/// A connection attempt that fails says why and leaves everything else as it was.
pub proof fn failed_connecting_changes_nothing<T>(state: BackendState<T>, period: u64, place: usize)
    requires
        state.phase is Idle,
    ensures
        ({
            let s1 = state.step(BackendEvent::Command(AppCommand::Connect(period))).0;
            let (none, a) = s1.step(BackendEvent::Scanned(None));
            let (failed, b) = s1.step(BackendEvent::Scanned(Some(place))).0.step(
                BackendEvent::LinkFailed,
            );
            &&& none == state && failed == state
            &&& a.contains(BackendAction::Ui(UiUpdate::Error(Text::NoCrazyflie)))
            &&& a.contains(BackendAction::Ui(UiUpdate::ConnectionStatus(Text::Disconnected)))
            &&& b.contains(BackendAction::Ui(UiUpdate::Error(Text::ConnectionFailed)))
            &&& b.contains(BackendAction::Ui(UiUpdate::ConnectionStatus(Text::Disconnected)))
        }),
{
    let s1 = state.step(BackendEvent::Command(AppCommand::Connect(period))).0;
    let a = s1.step(BackendEvent::Scanned(None)).1;
    let b = s1.step(BackendEvent::Scanned(Some(place))).0.step(BackendEvent::LinkFailed).1;
    assert(a[0] == BackendAction::Ui(UiUpdate::ConnectionStatus(Text::Disconnected)));
    assert(a[1] == BackendAction::Ui(UiUpdate::Error(Text::NoCrazyflie)));
    assert(b[0] == BackendAction::Ui(UiUpdate::ConnectionStatus(Text::Disconnected)));
    assert(b[1] == BackendAction::Ui(UiUpdate::Error(Text::ConnectionFailed)));
}

/// What one event leads to comes from that event and from what was asked for
/// before: a live log has the period of its connection attempt, a link is to what
/// the scan found, a measurement has the configuration of its command, a written
/// parameter forwards what its command says, and a file is shifted for the system
/// of the last result.
pub proof fn actions_come_from_what_was_asked<T: Copy>(
    backend: &mut Backend<T>,
    event: BackendEvent,
    r: Vec<BackendAction>,
    i: int,
)
    requires
        call_ensures(Backend::<T>::handle, (backend, event), r),
        0 <= i < r@.len(),
    ensures
        match r@[i] {
            BackendAction::SpawnLiveLogging(period) => old(backend).phase
                == ConnectPhase::ReadingSources(period) && event is SourcesRead,
            BackendAction::OpenLink(place) => event == BackendEvent::Scanned(Some(place)),
            BackendAction::Scan => event matches BackendEvent::Command(AppCommand::Connect(_)),
            BackendAction::SpawnMeasurement(config) => old(backend).connected && event
                == BackendEvent::Command(AppCommand::Start(config)),
            BackendAction::RequestCapture => old(backend).capture_open && event
                == BackendEvent::Command(AppCommand::Capture),
            BackendAction::CloseCapture => event == BackendEvent::Command(AppCommand::Stop),
            BackendAction::DropLink => event == BackendEvent::Command(AppCommand::Disconnect),
            BackendAction::SaveReport => old(backend).pending_yaml is Some && event
                == BackendEvent::Command(AppCommand::Save),
            BackendAction::ShiftFile(kind) => old(backend).pending_shift matches Some((k, _)) && k
                == kind && event == BackendEvent::Command(AppCommand::ApplyShift),
            BackendAction::Write(write) => old(backend).connected && (write.value == 0
                || write.value == 1) && (event == BackendEvent::Command(
                AppCommand::SetLighthouseFwdToEstimator(write.value == 1),
            ) && write.operation == Operation::SetForwarding(SystemKind::Lighthouse) || event
                == BackendEvent::Command(AppCommand::SetLocoFwdToEstimator(write.value == 1))
                && write.operation == Operation::SetForwarding(SystemKind::Loco)),
            _ => true,
        },
{
}

/// How far a connection attempt is keeps the period that it was begun with, from
/// the command on until the attempt is over.
pub proof fn attempt_keeps_its_period<T: Copy>(
    backend: &mut Backend<T>,
    event: BackendEvent,
    r: Vec<BackendAction>,
)
    requires
        call_ensures(Backend::<T>::handle, (backend, event), r),
    ensures
        match final(backend).phase {
            ConnectPhase::Idle => true,
            ConnectPhase::Scanning(p) => old(backend).phase == ConnectPhase::Scanning(p) || event
                == BackendEvent::Command(AppCommand::Connect(p)),
            ConnectPhase::Opening(p) => old(backend).phase == ConnectPhase::Opening(p)
                || old(backend).phase == ConnectPhase::Scanning(p),
            ConnectPhase::ReadingSources(p) => old(backend).phase == ConnectPhase::ReadingSources(p)
                || old(backend).phase == ConnectPhase::Opening(p),
        },
{
}

/// Every live log that is started over any series of events has a period that the
/// user asked for in one of them.
pub proof fn logs_have_periods_that_were_asked_for<T>(events: Seq<BackendEvent>, i: int)
    requires
        0 <= i < actions_over(BackendState::<T>::init(), events).len(),
    ensures
        actions_over(BackendState::<T>::init(), events)[i] matches BackendAction::SpawnLiveLogging(
            period,
        ) ==> events.contains(BackendEvent::Command(AppCommand::Connect(period))),
{
    lemma_periods_asked(BackendState::<T>::init(), seq![], events, i);
    assert(seq![] + events =~= events);
}

/// The period of a connection attempt, if one is under way.
spec fn attempt_period(phase: ConnectPhase) -> Option<u64> {
    match phase {
        ConnectPhase::Idle => None,
        ConnectPhase::Scanning(p) => Some(p),
        ConnectPhase::Opening(p) => Some(p),
        ConnectPhase::ReadingSources(p) => Some(p),
    }
}

proof fn lemma_periods_asked<T>(
    state: BackendState<T>,
    before: Seq<BackendEvent>,
    events: Seq<BackendEvent>,
    i: int,
)
    requires
        0 <= i < actions_over(state, events).len(),
        attempt_period(state.phase) matches Some(p) ==> before.contains(
            BackendEvent::Command(AppCommand::Connect(p)),
        ),
    ensures
        actions_over(state, events)[i] matches BackendAction::SpawnLiveLogging(period) ==> (before
            + events).contains(BackendEvent::Command(AppCommand::Connect(period))),
    decreases events.len(),
{
    if events.len() > 0 {
        let (next, actions) = state.step(events[0]);
        let all = before + events;
        let seen = before.push(events[0]);
        assert(seen + events.drop_first() =~= all);
        if attempt_period(state.phase) is Some {
            let asked = BackendEvent::Command(
                AppCommand::Connect(attempt_period(state.phase).unwrap()),
            );
            let k: int = choose|k: int| 0 <= k < before.len() && before[k] == asked;
            assert(all[k] == asked);
            assert(seen[k] == asked);
        }
        assert(seen[before.len() as int] == events[0]);
        if i >= actions.len() {
            lemma_periods_asked(next, seen, events.drop_first(), i - actions.len());
        }
    }
}

/// Starting over a connection opens the way to captures, forgets an earlier stop
/// and the shown results, shows the systems and the number of points, and runs
/// the measurement that was asked for.
pub proof fn starting_runs_what_was_asked<T: Copy>(
    backend: &mut Backend<T>,
    config: MeasurementConfig,
    r: Vec<BackendAction>,
)
    requires
        old(backend).phase is Idle,
        old(backend).connected,
        call_ensures(
            Backend::<T>::handle,
            (backend, BackendEvent::Command(AppCommand::Start(config))),
            r,
        ),
    ensures
        final(backend).capture_open,
        !final(backend).stop,
        r@.last() == BackendAction::SpawnMeasurement(config),
        r@.contains(BackendAction::Ui(UiUpdate::IsRunning(true))),
        r@.contains(BackendAction::Ui(UiUpdate::HasFinalResult(false))),
        r@.contains(BackendAction::Ui(UiUpdate::Error(Text::Empty))),
        r@.contains(BackendAction::Ui(UiUpdate::TotalPointsDisplay(config.num_points as i32))),
        r@.contains(BackendAction::Ui(UiUpdate::ResultBaseSystem(config.base_kind))),
        r@.contains(BackendAction::Ui(UiUpdate::ResultMovingSystem(config.moving_kind))),
        r@.contains(BackendAction::Ui(UiUpdate::ClearPointResults)),
{
    assert(r@[0] == BackendAction::Ui(UiUpdate::IsRunning(true)));
    assert(r@[1] == BackendAction::Ui(UiUpdate::HasFinalResult(false)));
    assert(r@[2] == BackendAction::Ui(UiUpdate::Error(Text::Empty)));
    assert(r@[3] == BackendAction::Ui(UiUpdate::TotalPointsDisplay(config.num_points as i32)));
    assert(r@[4] == BackendAction::Ui(UiUpdate::ResultBaseSystem(config.base_kind)));
    assert(r@[5] == BackendAction::Ui(UiUpdate::ResultMovingSystem(config.moving_kind)));
    assert(r@[6] == BackendAction::Ui(UiUpdate::ClearPointResults));
}

/// After a start captures can be asked for, and after a stop the run is told to
/// stop and can be asked no more.
pub proof fn captures_are_open_from_start_to_stop<T>(
    state: BackendState<T>,
    config: MeasurementConfig,
)
    requires
        state.phase is Idle,
        state.connected,
    ensures
        ({
            let started = state.step(BackendEvent::Command(AppCommand::Start(config))).0;
            let (stopped, actions) = started.step(BackendEvent::Command(AppCommand::Stop));
            &&& started.step(BackendEvent::Command(AppCommand::Capture)) == (
                started,
                seq![BackendAction::RequestCapture],
            )
            &&& !started.stop
            &&& stopped.stop
            &&& actions == seq![BackendAction::CloseCapture]
            &&& stopped.step(BackendEvent::Command(AppCommand::Capture)) == (
                stopped,
                Seq::<BackendAction>::empty(),
            )
        }),
{
}

/// A checkbox writes the parameter of its own system, on as one and off as zero;
/// if that fails, the failure is reported for that system and the checkbox goes
/// back.
pub proof fn checkbox_forwards_its_system<T>(
    state: BackendState<T>,
    kind: SystemKind,
    enabled: bool,
)
    requires
        state.phase is Idle,
        state.connected,
    ensures
        ({
            let command = match kind {
                SystemKind::Lighthouse => AppCommand::SetLighthouseFwdToEstimator(enabled),
                SystemKind::Loco => AppCommand::SetLocoFwdToEstimator(enabled),
            };
            let (failed, actions) = state.step(BackendEvent::ForwardingFailed(kind, enabled));
            &&& state.step(BackendEvent::Command(command)) == (
                state,
                seq![
                    BackendAction::Write(
                        ParamWrite {
                            operation: Operation::SetForwarding(kind),
                            value: if enabled {
                                1
                            } else {
                                0
                            },
                        },
                    ),
                ],
            )
            &&& failed == state
            &&& actions.contains(BackendAction::Ui(UiUpdate::Error(Text::ForwardingFailed(kind))))
            &&& forall|k: SystemKind, on: bool| #[trigger]
                actions.contains(BackendAction::Ui(UiUpdate::Forwarding(k, on))) <==> k == kind
                    && on == !enabled
        }),
{
    let actions = state.step(BackendEvent::ForwardingFailed(kind, enabled)).1;
    assert(actions[0] == BackendAction::Ui(UiUpdate::Error(Text::ForwardingFailed(kind))));
    assert(actions[1] == BackendAction::Ui(UiUpdate::Forwarding(kind, !enabled)));
}

/// A disconnect drops the link, ends the log, empties the live window and shows
/// all that; the last result stays.
pub proof fn disconnecting_drops_everything_live<T>(state: BackendState<T>)
    requires
        state.phase is Idle,
    ensures
        ({
            let (after, actions) = state.step(BackendEvent::Command(AppCommand::Disconnect));
            &&& after == (BackendState { connected: false, live_logging: false, ..state })
            &&& actions.contains(BackendAction::DropLink)
            &&& actions.contains(BackendAction::AbortLiveLogging) <==> state.live_logging
            &&& actions.contains(BackendAction::ClearLiveWindow)
            &&& actions.contains(BackendAction::Ui(UiUpdate::IsConnected(false)))
            &&& actions.contains(BackendAction::Ui(UiUpdate::IsRunning(false)))
            &&& actions.contains(BackendAction::Ui(UiUpdate::IsWaitingForCapture(false)))
            &&& actions.contains(BackendAction::Ui(UiUpdate::IsMeasuring(false)))
            &&& actions.contains(BackendAction::Ui(UiUpdate::CurrentMode(Text::Empty)))
            &&& actions.contains(BackendAction::Ui(UiUpdate::LiveReadouts(Text::NoValue)))
            &&& actions.contains(
                BackendAction::Ui(UiUpdate::ConnectionStatus(Text::Disconnected)),
            )
            &&& actions.contains(BackendAction::Ui(UiUpdate::Status(Text::ConnectToBegin)))
        }),
{
    let actions = state.step(BackendEvent::Command(AppCommand::Disconnect)).1;
    let n: int = actions.len() as int;
    assert(actions[0] == BackendAction::DropLink);
    assert(actions[n - 9] == BackendAction::ClearLiveWindow);
    assert(actions[n - 8] == BackendAction::Ui(UiUpdate::IsConnected(false)));
    assert(actions[n - 7] == BackendAction::Ui(UiUpdate::IsRunning(false)));
    assert(actions[n - 6] == BackendAction::Ui(UiUpdate::IsWaitingForCapture(false)));
    assert(actions[n - 5] == BackendAction::Ui(UiUpdate::IsMeasuring(false)));
    assert(actions[n - 4] == BackendAction::Ui(UiUpdate::CurrentMode(Text::Empty)));
    assert(actions[n - 3] == BackendAction::Ui(UiUpdate::LiveReadouts(Text::NoValue)));
    assert(actions[n - 2] == BackendAction::Ui(UiUpdate::ConnectionStatus(Text::Disconnected)));
    assert(actions[n - 1] == BackendAction::Ui(UiUpdate::Status(Text::ConnectToBegin)));
    if state.live_logging {
        assert(actions[1] == BackendAction::AbortLiveLogging);
    }
}

/// A run that measured nothing leaves the last result and shows that it stopped.
pub proof fn stopped_run_leaves_the_result<T: Copy>(backend: &mut Backend<T>, r: Vec<UiUpdate>)
    requires
        call_ensures(Backend::<T>::measurement_stopped, (backend,), r),
    ensures
        final(backend)@ == (BackendState { capture_open: false, ..old(backend)@ }),
        r@.contains(UiUpdate::IsRunning(false)),
        r@.contains(UiUpdate::IsWaitingForCapture(false)),
        r@.contains(UiUpdate::IsMeasuring(false)),
        r@.contains(UiUpdate::CurrentMode(Text::Empty)),
        r@.contains(UiUpdate::Status(Text::Stopped)),
{
    assert(r@[0] == UiUpdate::IsRunning(false));
    assert(r@[1] == UiUpdate::IsWaitingForCapture(false));
    assert(r@[2] == UiUpdate::IsMeasuring(false));
    assert(r@[3] == UiUpdate::CurrentMode(Text::Empty));
    assert(r@[4] == UiUpdate::Status(Text::Stopped));
}

/// A run that completed leaves its report, under a name that tells from which to
/// which system it leads, and its shift, for the moving system; both systems and
/// the result are shown.
pub proof fn completed_run_leaves_its_result<T: Copy>(
    backend: &mut Backend<T>,
    base_kind: SystemKind,
    moving_kind: SystemKind,
    report: &AlignmentResult<T>,
    yaml: String,
    r: Vec<UiUpdate>,
)
    requires
        call_ensures(
            Backend::<T>::measurement_completed,
            (backend, base_kind, moving_kind, report, yaml),
            r,
        ),
    ensures
        final(backend)@ == (BackendState {
            capture_open: false,
            pending_yaml: Some(
                (
                    "alignment_"@ + small_name(moving_kind) + "_to_"@ + small_name(base_kind)
                        + ".yaml"@,
                    yaml@,
                ),
            ),
            pending_shift: Some((moving_kind, report.shift_vector)),
            ..old(backend)@
        }),
        r@.contains(UiUpdate::IsRunning(false)),
        r@.contains(UiUpdate::IsWaitingForCapture(false)),
        r@.contains(UiUpdate::IsMeasuring(false)),
        r@.contains(UiUpdate::CurrentMode(Text::Empty)),
        r@.contains(UiUpdate::HasFinalResult(true)),
        r@.contains(UiUpdate::ShowShift),
        r@.contains(UiUpdate::ResultBaseSystem(base_kind)),
        r@.contains(UiUpdate::ResultMovingSystem(moving_kind)),
        r@.contains(UiUpdate::Status(Text::AlignmentComplete)),
{
    lemma_small_name(base_kind);
    lemma_small_name(moving_kind);
    assert(r@[0] == UiUpdate::IsRunning(false));
    assert(r@[1] == UiUpdate::IsWaitingForCapture(false));
    assert(r@[2] == UiUpdate::IsMeasuring(false));
    assert(r@[3] == UiUpdate::CurrentMode(Text::Empty));
    assert(r@[4] == UiUpdate::HasFinalResult(true));
    assert(r@[5] == UiUpdate::ShowShift);
    assert(r@[6] == UiUpdate::ResultBaseSystem(base_kind));
    assert(r@[7] == UiUpdate::ResultMovingSystem(moving_kind));
    assert(r@[8] == UiUpdate::Status(Text::AlignmentComplete));
}

/// The name of a system in small letters.
pub open spec fn small_name(kind: SystemKind) -> Seq<char> {
    match kind {
        SystemKind::Loco => "loco"@,
        SystemKind::Lighthouse => "lighthouse"@,
    }
}

proof fn lemma_small_name(kind: SystemKind)
    ensures
        ascii_lower(kind.spec_label()) == small_name(kind),
{
    reveal_strlit("Loco");
    reveal_strlit("loco");
    reveal_strlit("Lighthouse");
    reveal_strlit("lighthouse");
    assert(ascii_lower(kind.spec_label()) =~= small_name(kind));
}

/// The name proposed for a report tells from which to which system it leads.
pub proof fn report_is_named_from_moving_to_base(
    base_kind: SystemKind,
    moving_kind: SystemKind,
    r: String,
)
    requires
        call_ensures(result_file_name, (base_kind, moving_kind), r),
    ensures
        r@ == "alignment_"@ + small_name(moving_kind) + "_to_"@ + small_name(base_kind) + ".yaml"@,
{
    lemma_small_name(base_kind);
    lemma_small_name(moving_kind);
}

/// What is found among the addresses of a scan is the first that begins with
/// "usb://"; nothing is found only if none does.
pub proof fn first_usb_address_is_found(uris: &Vec<String>, r: Option<usize>, j: int)
    requires
        call_ensures(find_usb_uri, (uris,), r),
        0 <= j < uris@.len(),
    ensures
        r is None ==> !"usb://"@.is_prefix_of(uris@[j]@),
        r matches Some(i) ==> i < uris@.len() && "usb://"@.is_prefix_of(uris@[i as int]@) && (j < i
            ==> !"usb://"@.is_prefix_of(uris@[j]@)),
{
    let uri = uris@[j]@;
    if r is None {
        assert(!is_usb_uri(uris@[j]@));
    }
    assert(is_usb_uri(uri) == "usb://"@.is_prefix_of(uri));
}

/// While a connection attempt is under way only what it waits for, and a failed
/// switch, has an effect; without one, outcomes of an attempt have none.
pub proof fn events_out_of_turn_change_nothing<T: Copy>(
    backend: &mut Backend<T>,
    event: BackendEvent,
    r: Vec<BackendAction>,
)
    requires
        call_ensures(Backend::<T>::handle, (backend, event), r),
        !(event is ForwardingFailed),
        match old(backend).phase {
            ConnectPhase::Idle => !(event is Command),
            ConnectPhase::Scanning(_) => !(event is Scanned),
            ConnectPhase::Opening(_) => !(event is LinkOpened || event is LinkFailed),
            ConnectPhase::ReadingSources(_) => !(event is SourcesRead),
        },
    ensures
        final(backend)@ == old(backend)@,
        r@.len() == 0,
{
}

/// A new backend has no connection, no run and no result.
pub proof fn new_backend_has_nothing<T: Copy>(r: Backend<T>)
    requires
        call_ensures(Backend::<T>::new, (), r),
    ensures
        r.phase is Idle,
        !r.connected && !r.live_logging && !r.capture_open && !r.stop,
        r.pending_yaml is None,
        r.pending_shift is None,
{
}

} // verus!
