//! What the program decides on the side of the window system: the listener and
//! its commands, the registration of the hotkey, the window to paste into, and
//! the startup entry.

use crate::hotkey;
use crate::hotkey::parse_hotkey;
use crate::hotkey_laws;
use crate::session;
use crate::text;
use vstd::prelude::*;

verus! {

// ---------------------------------------------------------------------------
// The listener and its commands
// ---------------------------------------------------------------------------

/// A command to the listener.
#[derive(Debug)]
pub enum NativeCommand {
    SetHotkey(String),
    Stop,
}

/// A command to the listener, its text as characters.
pub enum CommandView {
    SetHotkey(Seq<char>),
    Stop,
}

impl View for NativeCommand {
    type V = CommandView;

    open spec fn view(&self) -> CommandView {
        match self {
            NativeCommand::SetHotkey(hotkey) => CommandView::SetHotkey(hotkey@),
            NativeCommand::Stop => CommandView::Stop,
        }
    }
}

/// Why the listener cannot be had or reached.
#[derive(Debug)]
pub enum NativeError {
    /// The listener said nothing in time.
    NotStarted,
    /// The listener said that it failed.
    Failed(String),
    /// The listener has ended.
    NotRunning,
}

/// Why the listener cannot be had or reached, its text as characters.
pub enum NativeFault {
    NotStarted,
    Failed(Seq<char>),
    NotRunning,
}

impl View for NativeError {
    type V = NativeFault;

    open spec fn view(&self) -> NativeFault {
        match self {
            NativeError::NotStarted => NativeFault::NotStarted,
            NativeError::Failed(message) => NativeFault::Failed(message@),
            NativeError::NotRunning => NativeFault::NotRunning,
        }
    }
}

impl NativeFault {
    /// The message that is shown for the fault.
    pub open spec fn text(self) -> Seq<char> {
        match self {
            NativeFault::NotStarted => "native listener did not start"@,
            NativeFault::Failed(message) => message,
            NativeFault::NotRunning => "native listener is not running"@,
        }
    }
}

impl NativeError {
    /// The message that is shown for the error.
    pub fn message(&self) -> (r: String)
        ensures
            r@ == self@.text(),
    {
        match self {
            NativeError::NotStarted => "native listener did not start".to_owned(),
            NativeError::Failed(message) => message.clone(),
            NativeError::NotRunning => "native listener is not running".to_owned(),
        }
    }
}

/// The way to the listener: the thread that it runs on, whether it still
/// listens, and the commands that it has not taken yet.
#[derive(Debug)]
pub struct NativeController {
    thread_id: u32,
    running: bool,
    commands: Vec<NativeCommand>,
}

/// The way to the listener, its commands as a sequence.
#[verifier::ext_equal]
pub struct ControllerView {
    pub thread_id: u32,
    pub running: bool,
    pub commands: Seq<CommandView>,
}

impl View for NativeController {
    type V = ControllerView;

    closed spec fn view(&self) -> ControllerView {
        ControllerView {
            thread_id: self.thread_id,
            running: self.running,
            commands: Seq::new(self.commands@.len(), |i: int| self.commands@[i]@),
        }
    }
}

/// What the listener is to do next with its commands.
#[derive(Debug)]
pub enum ListenerStep {
    /// Register the hotkey.
    Register(String),
    /// End.
    Stop,
    /// Wait for the next message.
    Wait,
}

/// What the listener answered in time, if anything, on whether it runs and on
/// which thread: the way to it, or why there is none.
pub fn start_native_listener(ready: Option<Result<u32, String>>) -> (r: Result<
    NativeController,
    NativeError,
>)
    ensures
        match (ready, r) {
            (Some(Ok(thread_id)), Ok(controller)) => controller@ == (ControllerView {
                thread_id,
                running: true,
                commands: Seq::empty(),
            }),
            (Some(Err(message)), Err(error)) => error@ == NativeFault::Failed(message@),
            (None, Err(error)) => error@ == NativeFault::NotStarted,
            _ => false,
        },
{
    match ready {
        Some(Ok(thread_id)) => {
            let controller = NativeController { thread_id, running: true, commands: Vec::new() };
            assert(controller@.commands =~= Seq::<CommandView>::empty());
            Ok(controller)
        },
        Some(Err(message)) => Err(NativeError::Failed(message)),
        None => Err(NativeError::NotStarted),
    }
}

impl NativeController {
    /// The thread that the listener runs on, which is woken for each command.
    pub fn thread_id(&self) -> (r: u32)
        ensures
            r == self@.thread_id,
    {
        self.thread_id
    }

    /// Appends a command, if the listener still listens.
    fn send(&mut self, command: NativeCommand) -> (r: Result<(), NativeError>)
        ensures
            match r {
                Ok(_) => old(self)@.running && final(self)@ == (ControllerView {
                    commands: old(self)@.commands.push(command@),
                    ..old(self)@
                }),
                Err(error) => !old(self)@.running && error@ == NativeFault::NotRunning
                    && final(self)@ == old(self)@,
            },
    {
        if !self.running {
            return Err(NativeError::NotRunning);
        }
        self.commands.push(command);
        assert(self@.commands =~= old(self)@.commands.push(command@));
        Ok(())
    }

    /// Tells the listener to register another hotkey.
    pub fn set_hotkey(&mut self, hotkey: String) -> (r: Result<(), NativeError>)
        ensures
            match r {
                Ok(_) => old(self)@.running && final(self)@ == (ControllerView {
                    commands: old(self)@.commands.push(CommandView::SetHotkey(hotkey@)),
                    ..old(self)@
                }),
                Err(error) => !old(self)@.running && error@ == NativeFault::NotRunning
                    && final(self)@ == old(self)@,
            },
    {
        self.send(NativeCommand::SetHotkey(hotkey))
    }

    /// Tells the listener to end.
    pub fn stop(&mut self) -> (r: Result<(), NativeError>)
        ensures
            match r {
                Ok(_) => old(self)@.running && final(self)@ == (ControllerView {
                    commands: old(self)@.commands.push(CommandView::Stop),
                    ..old(self)@
                }),
                Err(error) => !old(self)@.running && error@ == NativeFault::NotRunning
                    && final(self)@ == old(self)@,
            },
    {
        self.send(NativeCommand::Stop)
    }

    /// Takes the next command: the listener registers a hotkey and comes again,
    /// ends, or waits where there is no command.
    pub fn handle_commands(&mut self) -> (r: ListenerStep)
        ensures
            match r {
                ListenerStep::Register(hotkey) => {
                    &&& old(self)@.commands.len() > 0
                    &&& old(self)@.commands[0] == CommandView::SetHotkey(hotkey@)
                    &&& final(self)@ == (ControllerView {
                        commands: old(self)@.commands.drop_first(),
                        ..old(self)@
                    })
                },
                ListenerStep::Stop => {
                    &&& old(self)@.commands.len() > 0
                    &&& old(self)@.commands[0] == CommandView::Stop
                    &&& final(self)@ == (ControllerView {
                        running: false,
                        commands: old(self)@.commands.drop_first(),
                        ..old(self)@
                    })
                },
                ListenerStep::Wait => old(self)@.commands.len() == 0 && final(self)@ == old(self)@,
            },
    {
        if self.commands.len() == 0 {
            return ListenerStep::Wait;
        }
        let ghost first = self.commands@[0]@;
        let command = self.commands.remove(0);
        assert(self@.commands =~= old(self)@.commands.drop_first());
        assert(old(self)@.commands[0] == first);
        match command {
            NativeCommand::SetHotkey(hotkey) => ListenerStep::Register(hotkey),
            NativeCommand::Stop => {
                self.running = false;
                ListenerStep::Stop
            },
        }
    }

    /// Notes that the listener has ended by itself.
    pub fn mark_ended(&mut self)
        ensures
            final(self)@ == (ControllerView { running: false, ..old(self)@ }),
    {
        self.running = false;
    }
}

/// The id under which the hotkey is registered.
pub const HOTKEY_ID: i32 = 1;

pub const WM_CLIPBOARDUPDATE: u32 = 0x031D;

pub const WM_HOTKEY: u32 = 0x0312;

/// The message that tells the listener of new commands.
pub const WM_FAST_CLIPBOARD_COMMAND: u32 = 0x8029;

/// What a message means to the listener.
#[derive(Debug, Clone, Copy, PartialEq, Eq, Structural)]
pub enum ListenerEvent {
    /// No message could be had.
    Failed,
    /// There are no more messages.
    Quit,
    /// The clipboard has changed.
    Clipboard,
    /// The hotkey was pressed.
    Hotkey,
    /// There are commands.
    Commands,
    /// The window system is to handle it.
    Other,
}

/// What a message means to the listener, given what the call that got it
/// returned.
pub open spec fn event_of(result: i32, message: u32, wparam: usize) -> ListenerEvent {
    if result == -1 {
        ListenerEvent::Failed
    } else if result == 0 {
        ListenerEvent::Quit
    } else if message == WM_CLIPBOARDUPDATE {
        ListenerEvent::Clipboard
    } else if message == WM_HOTKEY && wparam == HOTKEY_ID {
        ListenerEvent::Hotkey
    } else if message == WM_FAST_CLIPBOARD_COMMAND {
        ListenerEvent::Commands
    } else {
        ListenerEvent::Other
    }
}

/// What a message means to the listener.
pub fn listener_event(result: i32, message: u32, wparam: usize) -> (r: ListenerEvent)
    ensures
        r == event_of(result, message, wparam),
{
    if result == -1 {
        ListenerEvent::Failed
    } else if result == 0 {
        ListenerEvent::Quit
    } else if message == WM_CLIPBOARDUPDATE {
        ListenerEvent::Clipboard
    } else if message == WM_HOTKEY && wparam == 1 {
        ListenerEvent::Hotkey
    } else if message == WM_FAST_CLIPBOARD_COMMAND {
        ListenerEvent::Commands
    } else {
        ListenerEvent::Other
    }
}

/// The listener ends by an error where no message could be had and by itself
/// where there are no more. Of the others it knows the change of the clipboard,
/// the press of the one hotkey that it registers, and the message of its own.
pub proof fn messages_are_told_apart(result: i32, message: u32, wparam: usize)
    ensures
        match event_of(result, message, wparam) {
            ListenerEvent::Failed => result == -1,
            ListenerEvent::Quit => result == 0,
            ListenerEvent::Clipboard => !(-1 <= result <= 0) && message == 0x031D,
            ListenerEvent::Hotkey => !(-1 <= result <= 0) && message == 0x0312 && wparam == 1,
            ListenerEvent::Commands => !(-1 <= result <= 0) && message == 0x8029,
            ListenerEvent::Other => {
                &&& !(-1 <= result <= 0)
                &&& message != 0x031D
                &&& message != 0x8029
                &&& message == 0x0312 ==> wparam != 1
            },
        },
{
}

/// What is shown when the listener has ended by an error.
pub fn listener_stopped_status(error: &str) -> (r: String)
    ensures
        r@ == "Native listener stopped: "@ + error@,
{
    let mut out = "Native listener stopped: ".to_owned();
    out.append(error);
    out
}

/// What is shown where there is no listener for the system.
pub fn unsupported_status() -> (r: String)
    ensures
        r@ == "Native clipboard listener is only implemented on Windows"@,
{
    "Native clipboard listener is only implemented on Windows".to_owned()
}

// ---------------------------------------------------------------------------
// The registration of the hotkey
// ---------------------------------------------------------------------------

/// The flag for a hotkey that does not repeat while it is held.
pub const MOD_NOREPEAT: u32 = 0x4000;

/// Whether a hotkey is registered.
#[derive(Debug)]
pub struct HotkeyRegistration {
    pub registered: bool,
}

/// A hotkey to register.
#[derive(Debug)]
pub struct HotkeyRequest {
    pub modifiers: u32,
    pub vk: u32,
    pub label: String,
}

/// What is to be done to register a hotkey: first to take back the registered
/// one, if there is one; then to register the new one, or to show why it is
/// none.
#[derive(Debug)]
pub struct RegistrationPlan {
    pub unregister: bool,
    pub request: Result<HotkeyRequest, String>,
}

/// What is shown for a hotkey that was registered, or why it was not.
pub open spec fn registration_status(label: Seq<char>, error: Option<Seq<char>>) -> Seq<char> {
    match error {
        Some(error) => "Hotkey failed: "@ + label + " ("@ + error + ")"@,
        None => "Hotkey active: "@ + label,
    }
}

/// A hotkey is said to be active just where nothing went wrong; where something did,
/// it stands in brackets behind the hotkey.
pub proof fn registration_is_told(label: Seq<char>, error: Seq<char>)
    ensures
        text::after_prefix(registration_status(label, None), "Hotkey active: "@) == Some(label),
        text::after_prefix(registration_status(label, Some(error)), "Hotkey failed: "@) == Some(
            label + seq![' ', '('] + error + seq![')'],
        ),
{
    text::prefix_and_rest_make_the_text(
        registration_status(label, None),
        "Hotkey active: "@,
        label,
    );
    reveal_strlit(" (");
    reveal_strlit(")");
    let rest = label + seq![' ', '('] + error + seq![')'];
    assert(registration_status(label, Some(error)) =~= "Hotkey failed: "@ + rest);
    text::prefix_and_rest_make_the_text(
        registration_status(label, Some(error)),
        "Hotkey failed: "@,
        rest,
    );
}

impl HotkeyRegistration {
    /// Nothing is registered.
    pub fn new() -> (r: Self)
        ensures
            !r.registered,
    {
        HotkeyRegistration { registered: false }
    }

    /// What is to be done to register the hotkey that is written as `spec`.
    pub fn register_hotkey_spec(&mut self, spec: &str) -> (r: RegistrationPlan)
        ensures
            r.unregister == old(self).registered,
            !final(self).registered,
            match (hotkey::hotkey_of(spec@), r.request) {
                (Ok(hotkey), Ok(request)) => {
                    &&& request.modifiers == hotkey.modifiers | MOD_NOREPEAT
                    &&& request.modifiers == hotkey.modifiers + 0x4000
                    &&& request.vk == hotkey.vk
                    &&& request.label@ == hotkey.label
                },
                (Err(fault), Err(status)) => status@ == "Hotkey not active: "@ + fault.text(),
                _ => false,
            },
    {
        let unregister = self.registered;
        self.registered = false;
        let request = match parse_hotkey(spec) {
            Ok(hotkey) => {
                let modifiers: u32 = hotkey.modifiers | MOD_NOREPEAT;
                proof {
                    hotkey_laws::flags_say_which_modifiers_are_named(spec@);
                    let flags = hotkey.modifiers;
                    assert(flags | 0x4000 == flags + 0x4000) by (bit_vector)
                        requires
                            flags < 16,
                    ;
                }
                Ok(HotkeyRequest { modifiers, vk: hotkey.vk, label: hotkey.label })
            },
            Err(error) => {
                let mut status = "Hotkey not active: ".to_owned();
                status.append(error.message().as_str());
                Err(status)
            },
        };
        RegistrationPlan { unregister, request }
    }

    /// Notes whether the hotkey could be registered, and returns what is shown.
    pub fn finish(&mut self, label: &str, error: Option<&str>) -> (r: String)
        ensures
            final(self).registered == (old(self).registered || error is None),
            r@ == registration_status(
                label@,
                match error {
                    Some(error) => Some(error@),
                    None => None,
                },
            ),
    {
        match error {
            Some(error) => {
                let mut out = "Hotkey failed: ".to_owned();
                out.append(label);
                out.append(" (");
                out.append(error);
                out.append(")");
                out
            },
            None => {
                self.registered = true;
                let mut out = "Hotkey active: ".to_owned();
                out.append(label);
                out
            },
        }
    }
}

// ---------------------------------------------------------------------------
// Windows
// ---------------------------------------------------------------------------

/// Whether to go on and paste into a window: it is one, and it is not
/// minimized.
pub fn focus_and_paste(target_hwnd: isize, is_window: bool, is_minimized: bool) -> (r: Option<
    PasteSequence,
>)
    ensures
        match r {
            Some(sequence) => target_hwnd != 0 && is_window && !is_minimized && sequence
                == (PasteSequence { attempts: 0, phase: PastePhase::Activate }),
            None => target_hwnd == 0 || !is_window || is_minimized,
        },
{
    if target_hwnd == 0 || !is_window || is_minimized {
        None
    } else {
        Some(PasteSequence { attempts: 0, phase: PastePhase::Activate })
    }
}

/// How often a window is activated at most before it is pasted into.
pub const MAX_ACTIVATIONS: u32 = 8;

/// The time in milliseconds between two activations.
pub const ACTIVATION_PAUSE: u64 = 30;

/// The time in milliseconds before the keys are sent.
pub const PASTE_PAUSE: u64 = 80;

/// Where the way to a paste stands.
#[derive(Debug, Clone, Copy, PartialEq, Eq, Structural)]
pub enum PastePhase {
    Activate,
    Look,
    Settle,
    Send,
    Done,
}

/// What is to be done next to paste.
#[derive(Debug, Clone, Copy, PartialEq, Eq, Structural)]
pub enum PasteStep {
    /// Bring the window to the front.
    Activate,
    /// Wait so many milliseconds.
    Wait(u64),
    /// Send the keys.
    SendKeys,
    /// Nothing is left.
    Done,
}

/// The way to a paste: the window is brought to the front, up to a number of
/// times, then the keys are sent.
#[derive(Debug, Clone, Copy, PartialEq, Eq, Structural)]
pub struct PasteSequence {
    pub attempts: u32,
    pub phase: PastePhase,
}

impl PasteSequence {
    /// There were no more attempts than allowed.
    pub open spec fn wf(self) -> bool {
        self.attempts <= MAX_ACTIVATIONS && (self.phase == PastePhase::Activate ==> self.attempts
            < MAX_ACTIVATIONS)
    }

    /// What is to be done next, and where the way stands then. Whether the
    /// window is in front counts after it was brought there.
    pub open spec fn next(self, in_front: bool) -> (PasteStep, PasteSequence) {
        match self.phase {
            PastePhase::Activate => (
                PasteStep::Activate,
                PasteSequence { attempts: (self.attempts + 1) as u32, phase: PastePhase::Look },
            ),
            PastePhase::Look => if in_front {
                (PasteStep::Wait(PASTE_PAUSE), PasteSequence { phase: PastePhase::Send, ..self })
            } else {
                (
                    PasteStep::Wait(ACTIVATION_PAUSE),
                    PasteSequence {
                        phase: if self.attempts < MAX_ACTIVATIONS {
                            PastePhase::Activate
                        } else {
                            PastePhase::Settle
                        },
                        ..self
                    },
                )
            },
            PastePhase::Settle => (
                PasteStep::Wait(PASTE_PAUSE),
                PasteSequence { phase: PastePhase::Send, ..self },
            ),
            PastePhase::Send => (
                PasteStep::SendKeys,
                PasteSequence { phase: PastePhase::Done, ..self },
            ),
            PastePhase::Done => (PasteStep::Done, self),
        }
    }

    /// What is to be done next.
    pub fn advance(&mut self, in_front: bool) -> (r: PasteStep)
        requires
            old(self).wf(),
        ensures
            final(self).wf(),
            (r, *final(self)) == old(self).next(in_front),
    {
        match self.phase {
            PastePhase::Activate => {
                self.attempts = self.attempts + 1;
                self.phase = PastePhase::Look;
                PasteStep::Activate
            },
            PastePhase::Look => {
                if in_front {
                    self.phase = PastePhase::Send;
                    PasteStep::Wait(PASTE_PAUSE)
                } else {
                    self.phase = if self.attempts < MAX_ACTIVATIONS {
                        PastePhase::Activate
                    } else {
                        PastePhase::Settle
                    };
                    PasteStep::Wait(ACTIVATION_PAUSE)
                }
            },
            PastePhase::Settle => {
                self.phase = PastePhase::Send;
                PasteStep::Wait(PASTE_PAUSE)
            },
            PastePhase::Send => {
                self.phase = PastePhase::Done;
                PasteStep::SendKeys
            },
            PastePhase::Done => PasteStep::Done,
        }
    }
}

/// The steps from a place on, given after each step whether the window is in
/// front.
pub open spec fn paste_steps(from: PasteSequence, in_front: Seq<bool>) -> Seq<PasteStep>
    decreases in_front.len(),
{
    if in_front.len() == 0 {
        Seq::empty()
    } else {
        let (step, next) = from.next(in_front[0]);
        seq![step] + paste_steps(next, in_front.drop_first())
    }
}

/// How many of the steps are the given one.
pub open spec fn count_of(steps: Seq<PasteStep>, step: PasteStep) -> nat
    decreases steps.len(),
{
    if steps.len() == 0 {
        0
    } else {
        count_of(steps.drop_first(), step) + if steps[0] == step {
            1nat
        } else {
            0nat
        }
    }
}

/// How many steps may come before nothing is left.
pub open spec fn steps_left(from: PasteSequence) -> nat {
    match from.phase {
        PastePhase::Activate => (2 * (MAX_ACTIVATIONS - from.attempts) + 2) as nat,
        PastePhase::Look => (2 * (MAX_ACTIVATIONS - from.attempts) + 3) as nat,
        PastePhase::Settle => 2,
        PastePhase::Send => 1,
        PastePhase::Done => 0,
    }
}

/// A paste sends its keys once, after eighteen steps at the latest, and
/// activates the window at most eight times, whether the window comes to the
/// front or not.
pub proof fn paste_sends_keys_once(from: PasteSequence, in_front: Seq<bool>)
    requires
        from.wf(),
        in_front.len() >= steps_left(from),
    ensures
        count_of(paste_steps(from, in_front), PasteStep::SendKeys) == (if from.phase
            == PastePhase::Done {
            0nat
        } else {
            1nat
        }),
        count_of(paste_steps(from, in_front), PasteStep::Activate) <= MAX_ACTIVATIONS
            - from.attempts,
        steps_left(PasteSequence { attempts: 0, phase: PastePhase::Activate }) == 18,
    decreases in_front.len(),
{
    if in_front.len() > 0 {
        let (step, next) = from.next(in_front[0]);
        let rest = in_front.drop_first();
        paste_sends_keys_once(next, rest);
        assert(paste_steps(from, in_front).drop_first() =~= paste_steps(next, rest));
    }
}

/// The steps of a paste for which the window comes to the front at the given
/// attempt, counted from zero, or does not come in as many as are left: each
/// attempt before is followed by thirty milliseconds; then eighty milliseconds
/// pass, the keys are sent, and nothing is left.
pub open spec fn is_paste(steps: Seq<PasteStep>, tries: int, left: int) -> bool {
    let end = if tries < left {
        2 * tries + 1
    } else {
        2 * tries
    };
    &&& steps.len() > end + 1
    &&& forall|i: int|
        0 <= i < end ==> #[trigger] steps[i] == (if i % 2 == 0 {
            PasteStep::Activate
        } else {
            PasteStep::Wait(30)
        })
    &&& steps[end] == PasteStep::Wait(80)
    &&& steps[end + 1] == PasteStep::SendKeys
    &&& forall|i: int| end + 1 < i < steps.len() ==> #[trigger] steps[i] == PasteStep::Done
}

/// As long as the window does not come to the front it is activated again, up to
/// eight times; the keys are sent when it came there, and after the last attempt
/// where it did not.
pub proof fn paste_waits_for_the_window(in_front: Seq<bool>, tries: int)
    requires
        0 <= tries <= 8,
        in_front.len() >= 2 * tries + 3,
        forall|i: int| 0 <= i < 2 * tries && i % 2 == 1 ==> !#[trigger] in_front[i],
        tries < 8 ==> in_front[2 * tries + 1],
    ensures
        is_paste(
            paste_steps(PasteSequence { attempts: 0, phase: PastePhase::Activate }, in_front),
            tries,
            8,
        ),
{
    lemma_paste_from(0, in_front, tries);
}

proof fn lemma_done_is_done(from: PasteSequence, in_front: Seq<bool>)
    requires
        from.phase == PastePhase::Done,
    ensures
        paste_steps(from, in_front).len() == in_front.len(),
        forall|k: int|
            0 <= k < in_front.len() ==> #[trigger] paste_steps(from, in_front)[k]
                == PasteStep::Done,
    decreases in_front.len(),
{
    if in_front.len() > 0 {
        lemma_done_is_done(from, in_front.drop_first());
    }
}

/// Where a paste stands after attempts that did not bring the window to the
/// front.
spec fn after_attempts(attempts: u32) -> PasteSequence {
    PasteSequence {
        attempts,
        phase: if attempts < 8 {
            PastePhase::Activate
        } else {
            PastePhase::Settle
        },
    }
}

proof fn lemma_paste_from(attempts: u32, in_front: Seq<bool>, tries: int)
    requires
        0 <= tries <= 8 - attempts,
        in_front.len() >= 2 * tries + 3,
        forall|i: int| 0 <= i < 2 * tries && i % 2 == 1 ==> !#[trigger] in_front[i],
        tries < 8 - attempts ==> in_front[2 * tries + 1],
    ensures
        is_paste(paste_steps(after_attempts(attempts), in_front), tries, 8 - attempts),
    decreases tries,
{
    let from = after_attempts(attempts);
    let rest = in_front.drop_first();
    let (first, next) = from.next(in_front[0]);
    let steps = paste_steps(from, in_front);
    assert(steps == seq![first] + paste_steps(next, rest));
    let later = rest.drop_first();
    let (second, after) = next.next(rest[0]);
    let tail = paste_steps(after, later);
    assert(paste_steps(next, rest) == seq![second] + tail);
    assert(rest[0] == in_front[1]);
    assert forall|i: int| 2 <= i < steps.len() implies #[trigger] steps[i] == tail[i - 2] by {}
    if tries > 0 {
        assert(!in_front[1]);
        assert forall|i: int| 0 <= i < 2 * (tries - 1) && i % 2 == 1 implies !#[trigger] later[
            i
        ] by {
            assert(later[i] == in_front[i + 2]);
        }
        if tries < 8 - attempts {
            assert(later[2 * (tries - 1) + 1] == in_front[2 * tries + 1]);
        }
        lemma_paste_from((attempts + 1) as u32, later, tries - 1);
        assert(after == after_attempts((attempts + 1) as u32));
    } else if attempts < 8 {
        let last = later.drop_first();
        let (third, done) = after.next(later[0]);
        assert(tail == seq![third] + paste_steps(done, last));
        lemma_done_is_done(done, last);
    } else {
        lemma_done_is_done(after, later);
    }
}

/// Whether to activate a window.
pub fn activate_window(hwnd: isize, is_window: bool) -> (r: bool)
    ensures
        r == (hwnd != 0 && is_window),
{
    hwnd != 0 && is_window
}

/// Whether a window is in front: it is one, and the window in front, if there
/// is one, is it or has the same root.
pub fn is_foreground_window(
    hwnd: isize,
    is_window: bool,
    foreground: isize,
    foreground_root: isize,
    target_root: isize,
) -> (r: bool)
    ensures
        r == (hwnd != 0 && is_window && foreground != 0 && (foreground == hwnd || foreground_root
            == target_root)),
{
    hwnd != 0 && is_window && foreground != 0 && (foreground == hwnd || foreground_root
        == target_root)
}

/// Whether a window is minimized, given what the system says of it.
pub fn is_window_minimized(hwnd: isize, iconic: bool) -> (r: bool)
    ensures
        r == (hwnd != 0 && iconic),
{
    hwnd != 0 && iconic
}

/// Whether a window is visible, given what the system says of it.
pub fn is_window_visible(hwnd: isize, visible: bool) -> (r: bool)
    ensures
        r == (hwnd != 0 && visible),
{
    hwnd != 0 && visible
}

/// One step of bringing a window to the front.
#[derive(Debug, Clone, Copy, PartialEq, Eq, Structural)]
pub enum ActivationStep {
    /// Share the input of this thread with another.
    Attach(u32),
    /// Show the window, bring it to the top and to the front.
    Raise,
    /// Share the input no longer.
    Detach(u32),
}

/// A thread whose input is shared, if it is another than the current one.
pub open spec fn shared_thread(current: u32, other: u32) -> Seq<u32> {
    if other != 0 && other != current {
        seq![other]
    } else {
        Seq::empty()
    }
}

/// The steps that bring a window to the front: the input is shared with the
/// thread of the window in front and with that of the window, then the window
/// is raised, then the input is taken back in the other order.
pub open spec fn activation(current: u32, foreground_thread: u32, target_thread: u32) -> Seq<
    ActivationStep,
> {
    let threads = shared_thread(current, foreground_thread) + shared_thread(current, target_thread);
    Seq::new(threads.len(), |i: int| ActivationStep::Attach(threads[i])) + seq![
        ActivationStep::Raise,
    ] + Seq::new(
        threads.len(),
        |i: int| ActivationStep::Detach(threads[threads.len() - 1 - i]),
    )
}

/// The steps that bring a window to the front. A thread of zero is none.
pub fn activate_foreground(current: u32, foreground_thread: u32, target_thread: u32) -> (r: Vec<
    ActivationStep,
>)
    ensures
        r@ == activation(current, foreground_thread, target_thread),
{
    let attached_foreground = foreground_thread != 0 && foreground_thread != current;
    let attached_target = target_thread != 0 && target_thread != current;
    let mut steps: Vec<ActivationStep> = Vec::new();
    if attached_foreground {
        steps.push(ActivationStep::Attach(foreground_thread));
    }
    if attached_target {
        steps.push(ActivationStep::Attach(target_thread));
    }
    steps.push(ActivationStep::Raise);
    if attached_target {
        steps.push(ActivationStep::Detach(target_thread));
    }
    if attached_foreground {
        steps.push(ActivationStep::Detach(foreground_thread));
    }
    assert(steps@ =~= activation(current, foreground_thread, target_thread));
    steps
}

/// What is left after a step of bringing a window to the front is as it was
/// before: where one thread's input is shared at the start, it is shared no longer
/// at the end, and so on inwards, and in the middle the window is raised.
pub open spec fn is_mirrored(steps: Seq<ActivationStep>) -> bool {
    forall|i: int|
        0 <= i < steps.len() ==> match #[trigger] steps[i] {
            ActivationStep::Attach(thread) => 2 * i + 1 < steps.len() && steps[steps.len() - 1 - i]
                == ActivationStep::Detach(thread),
            ActivationStep::Raise => 2 * i + 1 == steps.len(),
            ActivationStep::Detach(thread) => 2 * i + 1 > steps.len() && steps[steps.len() - 1 - i]
                == ActivationStep::Attach(thread),
        }
}

/// A window is raised once, while the input is shared with the thread of the
/// window in front and with that of the window, in this order, as far as there
/// are such threads and they are not the current one; and every sharing ends.
pub proof fn activation_shares_input_and_takes_it_back(current: u32, front: u32, target: u32)
    ensures
        ({
            let steps = activation(current, front, target);
            let with_front = front != 0 && front != current;
            let with_target = target != 0 && target != current;
            &&& is_mirrored(steps)
            &&& steps.len() == 1 + (if with_front {
                2int
            } else {
                0
            }) + (if with_target {
                2int
            } else {
                0
            })
            &&& with_front ==> steps[0] == ActivationStep::Attach(front)
            &&& with_target ==> steps[if with_front {
                1int
            } else {
                0
            }] == ActivationStep::Attach(target)
        }),
{
}

/// A key that goes down or up.
#[derive(Debug, Clone, Copy, PartialEq, Eq, Structural)]
pub enum KeyEvent {
    Down(u8),
    Up(u8),
}

/// The virtual-key code of the control key.
pub const VK_CONTROL: u8 = 0x11;

/// The virtual-key code of the letter V.
pub const VK_V: u8 = 0x56;

/// The keys that paste: the letter V while the control key is held.
pub fn send_ctrl_v() -> (r: Vec<KeyEvent>)
    ensures
        r@ == seq![
            KeyEvent::Down(VK_CONTROL),
            KeyEvent::Down(VK_V),
            KeyEvent::Up(VK_V),
            KeyEvent::Up(VK_CONTROL),
        ],
{
    let keys = vec![
        KeyEvent::Down(VK_CONTROL),
        KeyEvent::Down(VK_V),
        KeyEvent::Up(VK_V),
        KeyEvent::Up(VK_CONTROL),
    ];
    assert(keys@ =~= seq![
        KeyEvent::Down(VK_CONTROL),
        KeyEvent::Down(VK_V),
        KeyEvent::Up(VK_V),
        KeyEvent::Up(VK_CONTROL),
    ]);
    keys
}

// ---------------------------------------------------------------------------
// One instance
// ---------------------------------------------------------------------------

/// The code with which the system says that the mutex was there before.
pub const ERROR_ALREADY_EXISTS: u32 = 183;

/// What comes of asking for the mutex of the only instance.
#[derive(Debug, Clone, Copy, PartialEq, Eq, Structural)]
pub enum InstanceOutcome {
    /// There is no mutex.
    Failed,
    /// Another instance has it.
    AlreadyRunning,
    /// This is the only instance.
    Acquired,
}

/// What comes of asking for the mutex, given whether there is a handle and the
/// code of the call.
pub fn instance_outcome(has_handle: bool, code: u32) -> (r: InstanceOutcome)
    ensures
        r == InstanceOutcome::Failed <==> !has_handle,
        r == InstanceOutcome::AlreadyRunning <==> has_handle && code == ERROR_ALREADY_EXISTS,
        r == InstanceOutcome::Acquired <==> has_handle && code != ERROR_ALREADY_EXISTS,
{
    if !has_handle {
        InstanceOutcome::Failed
    } else if code == ERROR_ALREADY_EXISTS {
        InstanceOutcome::AlreadyRunning
    } else {
        InstanceOutcome::Acquired
    }
}

// ---------------------------------------------------------------------------
// The startup entry
// ---------------------------------------------------------------------------

/// Whether the program is started with the system: the key of the entries can
/// be opened, and the entry is there. Zero is the code of a success.
pub fn autostart_enabled(opened: u32, queried: u32) -> (r: bool)
    ensures
        r == (opened == 0 && queried == 0),
{
    opened == 0 && queried == 0
}

/// The command of the startup entry.
pub open spec fn startup_command(exe: Seq<char>) -> Seq<char> {
    "\""@ + exe + "\" --background"@
}

/// The startup entry holds the path of the program in quotes, and the argument that
/// asks for a start in the background behind it.
pub proof fn startup_entry_asks_for_the_background(exe: Seq<char>)
    ensures
        startup_command(exe) == seq!['"'] + exe + seq!['"', ' '] + "--background"@,
        session::asks_background(seq!["--background"@]),
{
    reveal_strlit("\"");
    reveal_strlit("\" --background");
    reveal_strlit("--background");
    assert("\""@ =~= seq!['"']);
    assert("\" --background"@ =~= seq!['"', ' '] + "--background"@);
    assert(startup_command(exe) =~= seq!['"'] + exe + seq!['"', ' '] + "--background"@);
    assert(seq!["--background"@][0] == "--background"@);
}

/// What is to be done with the startup entry.
#[derive(Debug)]
pub enum AutostartChange {
    /// Write the command into it.
    Write(String),
    /// Take it out.
    Delete,
}

/// What is to be done for the program at a path to be started with the system,
/// or not to be.
pub fn set_autostart_enabled(enabled: bool, exe: &str) -> (r: AutostartChange)
    ensures
        match r {
            AutostartChange::Write(command) => enabled && command@ == startup_command(exe@),
            AutostartChange::Delete => !enabled,
        },
{
    if enabled {
        let mut command = "\"".to_owned();
        command.append(exe);
        command.append("\" --background");
        AutostartChange::Write(command)
    } else {
        AutostartChange::Delete
    }
}

/// Whether the startup entry was set, given the code for its key and the one
/// for the entry, which counts only where the key could be had. An error is
/// given by its code.
pub fn enable_autostart(created: u32, set: u32) -> (r: Result<(), u32>)
    ensures
        match r {
            Ok(_) => created == 0 && set == 0,
            Err(code) => if created != 0 {
                code == created
            } else {
                set != 0 && code == set
            },
        },
{
    if created != 0 {
        Err(created)
    } else if set != 0 {
        Err(set)
    } else {
        Ok(())
    }
}

/// The code with which the system says that there is no such entry.
pub const ERROR_FILE_NOT_FOUND: u32 = 2;

/// Whether the startup entry is gone, given the code for its key and the one
/// for the entry, which counts only where the key could be opened. That there
/// was no key or no entry is no error.
pub fn disable_autostart(opened: u32, deleted: u32) -> (r: Result<(), u32>)
    ensures
        match r {
            Ok(_) => opened != 0 || deleted == 0 || deleted == ERROR_FILE_NOT_FOUND,
            Err(code) => opened == 0 && deleted != 0 && deleted != ERROR_FILE_NOT_FOUND && code
                == deleted,
        },
{
    if opened == 0 && deleted != 0 && deleted != ERROR_FILE_NOT_FOUND {
        Err(deleted)
    } else {
        Ok(())
    }
}

// ---------------------------------------------------------------------------
// Wide strings
// ---------------------------------------------------------------------------

/// The UTF-16 units of a character.
pub open spec fn utf16_units(c: char) -> Seq<u16> {
    let code = c as u32;
    if code < 0x10000 {
        seq![code as u16]
    } else {
        seq![
            (0xD800 + (code - 0x10000) / 0x400) as u16,
            (0xDC00 + (code - 0x10000) % 0x400) as u16,
        ]
    }
}

/// A text in UTF-16.
pub open spec fn utf16(s: Seq<char>) -> Seq<u16>
    decreases s.len(),
{
    if s.len() == 0 {
        Seq::empty()
    } else {
        utf16(s.drop_last()) + utf16_units(s.last())
    }
}

/// A character is one unit of its code, or two that add up to it: the first of
/// the upper half, the second of the lower half of the range for pairs.
pub proof fn units_add_up_to_their_character(c: char)
    ensures
        ({
            let units = utf16_units(c);
            &&& c as u32 <= 0xFFFF ==> units.len() == 1 && units[0] == c as u32
            &&& c as u32 > 0xFFFF ==> {
                &&& units.len() == 2
                &&& 0xD800 <= units[0] <= 0xDBFF
                &&& 0xDC00 <= units[1] <= 0xDFFF
                &&& (units[0] - 0xD800) * 1024 + (units[1] - 0xDC00) + 65_536 == c as u32
            }
        }),
{
    vstd::utf8::char_is_scalar(c);
}

/// The units of a text are those of its parts, one part after the other.
pub proof fn units_follow_the_text(a: Seq<char>, b: Seq<char>)
    ensures
        utf16(a + b) == utf16(a) + utf16(b),
        a.len() == 1 ==> utf16(a) == utf16_units(a[0]),
    decreases b.len(),
{
    if b.len() == 0 {
        assert(a + b =~= a);
        assert(utf16(a) + utf16(b) =~= utf16(a));
    } else {
        units_follow_the_text(a, b.drop_last());
        assert((a + b).drop_last() =~= a + b.drop_last());
        assert(utf16(a + b) =~= utf16(a) + utf16(b));
    }
    if a.len() == 1 {
        assert(utf16(a.drop_last()) =~= Seq::<u16>::empty());
        assert(utf16(a) =~= utf16_units(a[0]));
    }
}

/// The text in UTF-16, with a zero at its end.
pub fn wide_null(value: &str) -> (r: Vec<u16>)
    ensures
        r@ == utf16(value@).push(0),
{
    let chars = crate::text::chars_of(value);
    let mut units: Vec<u16> = Vec::new();
    let mut i: usize = 0;
    assert(units@ =~= utf16(chars@.take(0)));
    while i < chars.len()
        invariant
            i <= chars@.len(),
            units@ == utf16(chars@.take(i as int)),
        decreases chars@.len() - i,
    {
        let c: char = chars[i];
        let code: u32 = c as u32;
        let ghost before = units@;
        if code < 0x10000 {
            units.push(code as u16);
        } else {
            proof {
                vstd::utf8::char_is_scalar(c);
            }
            units.push((0xD800 + (code - 0x10000) / 0x400) as u16);
            units.push((0xDC00 + (code - 0x10000) % 0x400) as u16);
        }
        assert(units@ =~= before + utf16_units(c));
        assert(chars@.take(i + 1).drop_last() =~= chars@.take(i as int));
        i = i + 1;
    }
    assert(chars@.take(chars@.len() as int) =~= chars@);
    units.push(0);
    units
}

} // verus!
