//! The pairing agent: which questions of BlueZ are open, and how each is answered.
use crate::text::{all_digits, chars_of, digits_value, parse_digits, same, trim, trimmed};
use vstd::multiset::Multiset;
use vstd::prelude::*;

verus! {

/// The agent's interface as D-Bus describes interfaces.
pub const AGENT_XML: &'static str = r#"
<node>
  <interface name="org.bluez.Agent1">
    <method name="Release" />
    <method name="RequestPinCode">
      <arg type="o" direction="in" name="device" />
      <arg type="s" direction="out" name="pincode" />
    </method>
    <method name="DisplayPinCode">
      <arg type="o" direction="in" name="device" />
      <arg type="s" direction="in" name="pincode" />
    </method>
    <method name="RequestPasskey">
      <arg type="o" direction="in" name="device" />
      <arg type="u" direction="out" name="passkey" />
    </method>
    <method name="DisplayPasskey">
      <arg type="o" direction="in" name="device" />
      <arg type="u" direction="in" name="passkey" />
      <arg type="q" direction="in" name="entered" />
    </method>
    <method name="RequestConfirmation">
      <arg type="o" direction="in" name="device" />
      <arg type="u" direction="in" name="passkey" />
    </method>
    <method name="RequestAuthorization">
      <arg type="o" direction="in" name="device" />
    </method>
    <method name="AuthorizeService">
      <arg type="o" direction="in" name="device" />
      <arg type="s" direction="in" name="uuid" />
    </method>
    <method name="Cancel" />
  </interface>
</node>
"#;

pub const ERROR_CANCELED: &'static str = "org.bluez.Error.Canceled";

pub const ERROR_REJECTED: &'static str = "org.bluez.Error.Rejected";

pub const ERROR_UNKNOWN_METHOD: &'static str = "org.freedesktop.DBus.Error.UnknownMethod";

pub const MISMATCH: &'static str = "Bluetooth request does not match the active pairing session";

#[derive(Clone, Copy, Debug, PartialEq, Eq, Structural)]
pub enum AgentPromptKind {
    PinCode,
    Passkey,
    Confirmation { passkey: u32 },
    Authorization,
}

/// What the pairing session is told.
#[derive(Clone, Debug, PartialEq, Eq)]
pub enum AgentEvent {
    Prompt { device_path: String, kind: AgentPromptKind },
    DisplayPinCode { device_path: String, pincode: String },
    DisplayPasskey { device_path: String, passkey: u32, entered: u16 },
    Cancel,
    Release,
}

/// The contents of an `AgentEvent`.
pub enum EventModel {
    Prompt { device_path: Seq<char>, kind: AgentPromptKind },
    DisplayPinCode { device_path: Seq<char>, pincode: Seq<char> },
    DisplayPasskey { device_path: Seq<char>, passkey: u32, entered: u16 },
    Cancel,
    Release,
}

impl View for AgentEvent {
    type V = EventModel;

    open spec fn view(&self) -> EventModel {
        match *self {
            AgentEvent::Prompt { device_path, kind } => EventModel::Prompt {
                device_path: device_path@,
                kind,
            },
            AgentEvent::DisplayPinCode { device_path, pincode } => EventModel::DisplayPinCode {
                device_path: device_path@,
                pincode: pincode@,
            },
            AgentEvent::DisplayPasskey { device_path, passkey, entered } => {
                EventModel::DisplayPasskey { device_path: device_path@, passkey, entered }
            },
            AgentEvent::Cancel => EventModel::Cancel,
            AgentEvent::Release => EventModel::Release,
        }
    }
}

/// What is to be done; an invocation is named by the number under which it came in.
pub enum AgentAction {
    /// Answer with nothing.
    Return(u64),
    /// Answer with an error.
    Fail { invocation: u64, name: &'static str, message: &'static str },
    /// Tell the session.
    Emit(AgentEvent),
}

/// The contents of an `AgentAction`.
pub enum ActionModel {
    Return(u64),
    Fail { invocation: u64, name: Seq<char>, message: Seq<char> },
    Emit(EventModel),
}

impl View for AgentAction {
    type V = ActionModel;

    open spec fn view(&self) -> ActionModel {
        match *self {
            AgentAction::Return(invocation) => ActionModel::Return(invocation),
            AgentAction::Fail { invocation, name, message } => ActionModel::Fail {
                invocation,
                name: name@,
                message: message@,
            },
            AgentAction::Emit(event) => ActionModel::Emit(event@),
        }
    }
}

pub open spec fn action_models(actions: Seq<AgentAction>) -> Seq<ActionModel> {
    actions.map_values(|action: AgentAction| action@)
}

/// The methods of a pairing agent.
#[derive(Clone, Copy, Debug, PartialEq, Eq, Structural)]
pub enum AgentMethod {
    RequestPinCode,
    DisplayPinCode,
    RequestPasskey,
    DisplayPasskey,
    RequestConfirmation,
    RequestAuthorization,
    AuthorizeService,
    Cancel,
    Release,
    Unknown,
}

/// The method that a name means.
pub open spec fn method_named(name: Seq<char>) -> AgentMethod {
    if name == "RequestPinCode"@ {
        AgentMethod::RequestPinCode
    } else if name == "DisplayPinCode"@ {
        AgentMethod::DisplayPinCode
    } else if name == "RequestPasskey"@ {
        AgentMethod::RequestPasskey
    } else if name == "DisplayPasskey"@ {
        AgentMethod::DisplayPasskey
    } else if name == "RequestConfirmation"@ {
        AgentMethod::RequestConfirmation
    } else if name == "RequestAuthorization"@ {
        AgentMethod::RequestAuthorization
    } else if name == "AuthorizeService"@ {
        AgentMethod::AuthorizeService
    } else if name == "Cancel"@ {
        AgentMethod::Cancel
    } else if name == "Release"@ {
        AgentMethod::Release
    } else {
        AgentMethod::Unknown
    }
}

impl AgentMethod {
    pub fn named(name: &str) -> (r: Self)
        ensures
            r == method_named(name@),
    {
        if same(name, "RequestPinCode") {
            AgentMethod::RequestPinCode
        } else if same(name, "DisplayPinCode") {
            AgentMethod::DisplayPinCode
        } else if same(name, "RequestPasskey") {
            AgentMethod::RequestPasskey
        } else if same(name, "DisplayPasskey") {
            AgentMethod::DisplayPasskey
        } else if same(name, "RequestConfirmation") {
            AgentMethod::RequestConfirmation
        } else if same(name, "RequestAuthorization") {
            AgentMethod::RequestAuthorization
        } else if same(name, "AuthorizeService") {
            AgentMethod::AuthorizeService
        } else if same(name, "Cancel") {
            AgentMethod::Cancel
        } else if same(name, "Release") {
            AgentMethod::Release
        } else {
            AgentMethod::Unknown
        }
    }
}

/// The arguments of a call; a method reads those that it has.
#[derive(Clone, Debug, PartialEq, Eq)]
pub struct AgentArguments {
    pub device: String,
    pub pincode: String,
    pub passkey: u32,
    pub entered: u16,
}

/// A question of BlueZ that waits for its answer.
#[derive(Clone, Copy, Debug, PartialEq, Eq, Structural)]
pub struct PendingAgentRequest {
    pub kind: AgentPromptKind,
    pub invocation: u64,
}

/// A pairing that runs, with the device it is about and whoever is told of its events.
pub struct AgentSession<H> {
    pub id: u64,
    pub device_path: String,
    pub handler: H,
}

/// The agent: at most one session, at most one open question.
pub struct BluetoothAgent<H> {
    pub session: Option<AgentSession<H>>,
    pub pending: Option<PendingAgentRequest>,
    pub next_session_id: u64,
}

/// The number of the session after session `id`; never 0.
pub open spec fn following_id(id: u64) -> u64 {
    if id == u64::MAX {
        1
    } else {
        (id + 1) as u64
    }
}

/// How a question that is dropped is answered.
pub open spec fn dropped(
    pending: Option<PendingAgentRequest>,
    name: Seq<char>,
    message: Seq<char>,
) -> Seq<ActionModel> {
    match pending {
        Some(request) => seq![
            ActionModel::Fail { invocation: request.invocation, name, message },
        ],
        None => Seq::empty(),
    }
}

/// What a call whose arguments do not have the right form is told.
pub open spec fn invalid_call(method: AgentMethod) -> Seq<char> {
    match method {
        AgentMethod::RequestPinCode => "BlueZ sent an invalid PIN request"@,
        AgentMethod::DisplayPinCode => "BlueZ sent an invalid PIN display request"@,
        AgentMethod::RequestPasskey => "BlueZ sent an invalid passkey request"@,
        AgentMethod::DisplayPasskey => "BlueZ sent an invalid passkey display request"@,
        AgentMethod::RequestConfirmation => "BlueZ sent an invalid confirmation request"@,
        AgentMethod::RequestAuthorization => "BlueZ sent an invalid authorization request"@,
        _ => "BlueZ sent an invalid service authorization request"@,
    }
}

/// What the user is asked for a call that asks something.
pub open spec fn asks(method: AgentMethod, passkey: u32) -> Option<AgentPromptKind> {
    match method {
        AgentMethod::RequestPinCode => Some(AgentPromptKind::PinCode),
        AgentMethod::RequestPasskey => Some(AgentPromptKind::Passkey),
        AgentMethod::RequestConfirmation => Some(AgentPromptKind::Confirmation { passkey }),
        AgentMethod::RequestAuthorization => Some(AgentPromptKind::Authorization),
        AgentMethod::AuthorizeService => Some(AgentPromptKind::Authorization),
        _ => None,
    }
}

/// The open question and the actions after a call of `method`, where `device` is the device of
/// the session.
pub open spec fn handled(
    device: Option<Seq<char>>,
    pending: Option<PendingAgentRequest>,
    method: AgentMethod,
    arguments: Option<AgentArguments>,
    invocation: u64,
) -> (Option<PendingAgentRequest>, Seq<ActionModel>) {
    match method {
        AgentMethod::Unknown => (
            pending,
            seq![
                ActionModel::Fail {
                    invocation,
                    name: ERROR_UNKNOWN_METHOD@,
                    message: "Unknown Bluetooth agent method"@,
                },
            ],
        ),
        AgentMethod::Cancel => (
            None,
            dropped(pending, ERROR_CANCELED@, "Bluetooth pairing canceled by BlueZ"@) + told(
                device,
                EventModel::Cancel,
            ) + seq![ActionModel::Return(invocation)],
        ),
        AgentMethod::Release => (
            None,
            dropped(pending, ERROR_CANCELED@, "Bluetooth pairing agent released by BlueZ"@) + told(
                device,
                EventModel::Release,
            ) + seq![ActionModel::Return(invocation)],
        ),
        _ => match arguments {
            None => (
                pending,
                seq![
                    ActionModel::Fail {
                        invocation,
                        name: ERROR_REJECTED@,
                        message: invalid_call(method),
                    },
                ],
            ),
            Some(arguments) => if device != Some(arguments.device@) {
                (
                    pending,
                    seq![
                        ActionModel::Fail {
                            invocation,
                            name: ERROR_REJECTED@,
                            message: MISMATCH@,
                        },
                    ],
                )
            } else {
                match asks(method, arguments.passkey) {
                    Some(kind) => (
                        Some(PendingAgentRequest { kind, invocation }),
                        dropped(
                            pending,
                            ERROR_CANCELED@,
                            "Superseded by another Bluetooth pairing request"@,
                        ).push(
                            ActionModel::Emit(
                                EventModel::Prompt { device_path: arguments.device@, kind },
                            ),
                        ),
                    ),
                    None => (
                        pending,
                        seq![
                            ActionModel::Emit(
                                if method == AgentMethod::DisplayPinCode {
                                    EventModel::DisplayPinCode {
                                        device_path: arguments.device@,
                                        pincode: arguments.pincode@,
                                    }
                                } else {
                                    EventModel::DisplayPasskey {
                                        device_path: arguments.device@,
                                        passkey: arguments.passkey,
                                        entered: arguments.entered,
                                    }
                                },
                            ),
                            ActionModel::Return(invocation),
                        ],
                    ),
                }
            },
        },
    }
}

/// Telling the session, where there is one.
pub open spec fn told(device: Option<Seq<char>>, event: EventModel) -> Seq<ActionModel> {
    if device is Some {
        seq![ActionModel::Emit(event)]
    } else {
        Seq::empty()
    }
}

/// What the user typed for an open question, as BlueZ takes it.
#[derive(PartialEq, Eq, Debug)]
pub enum AgentInput {
    PinCode(String),
    Passkey(u32),
}

/// The answer that a typed text makes for an open question.
pub open spec fn input_answer(pending: Option<PendingAgentRequest>, value: Seq<char>) -> Result<
    (u64, Result<Seq<char>, nat>),
    Seq<char>,
> {
    let value = trimmed(value);
    if value.len() == 0 {
        Err("PIN or passkey is required"@)
    } else {
        match pending {
            None => Err("Bluetooth is not waiting for a PIN or passkey"@),
            Some(request) => match request.kind {
                AgentPromptKind::PinCode => if value.len() > 16 {
                    Err("PIN must be between 1 and 16 characters"@)
                } else {
                    Ok((request.invocation, Ok(value)))
                },
                AgentPromptKind::Passkey => if value.len() > 6 || !all_digits(value) {
                    Err("Passkey must be a number from 000000 to 999999"@)
                } else {
                    Ok((request.invocation, Err(digits_value(value))))
                },
                _ => Err("Bluetooth is not waiting for text input"@),
            },
        }
    }
}

impl<H> BluetoothAgent<H> {
    /// The device of the session.
    pub open spec fn device(&self) -> Option<Seq<char>> {
        match self.session {
            Some(session) => Some(session.device_path@),
            None => None,
        }
    }

    pub fn new() -> (r: Self)
        ensures
            r.session is None,
            r.pending is None,
            r.next_session_id == 0,
    {
        BluetoothAgent { session: None, pending: None, next_session_id: 0 }
    }

    /// Whoever is told of the session's events.
    pub fn handler(&self) -> (r: Option<&H>)
        ensures
            match r {
                Some(handler) => self.session matches Some(session) && session.handler == *handler,
                None => self.session is None,
            },
    {
        match &self.session {
            Some(session) => Some(&session.handler),
            None => None,
        }
    }

    /// Starts a session for a device, unless one runs. The answer holds the session's number and
    /// what is to be done with a question left over.
    pub fn begin_session(&mut self, device_path: &str, handler: H) -> (r: Option<
        (u64, Vec<AgentAction>),
    >)
        ensures
            match r {
                Some((id, actions)) => {
                    &&& old(self).session is None
                    &&& final(self).session matches Some(session) && session.id == id
                        && session.device_path@ == device_path@ && session.handler == handler
                    &&& id == following_id(old(self).next_session_id)
                    &&& final(self).next_session_id == id
                    &&& final(self).pending is None
                    &&& action_models(actions@) == dropped(
                        old(self).pending,
                        ERROR_CANCELED@,
                        "Previous Bluetooth pairing session ended"@,
                    )
                },
                None => old(self).session is Some && *final(self) == *old(self),
            },
    {
        if self.session.is_some() {
            return None;
        }
        let stale = self.pending.take();
        let id: u64 = if self.next_session_id == u64::MAX {
            1
        } else {
            self.next_session_id + 1
        };
        self.next_session_id = id;
        self.session = Some(AgentSession { id, device_path: device_path.to_owned(), handler });
        Some((id, drop_request(stale, ERROR_CANCELED, "Previous Bluetooth pairing session ended")))
    }

    /// Ends the session with this number, if it runs.
    pub fn end_session(&mut self, session_id: u64) -> (r: Vec<AgentAction>)
        ensures
            final(self).next_session_id == old(self).next_session_id,
            if old(self).session matches Some(session) && session.id == session_id {
                &&& final(self).session is None
                &&& final(self).pending is None
                &&& action_models(r@) == dropped(
                    old(self).pending,
                    ERROR_CANCELED@,
                    "Bluetooth pairing session ended"@,
                )
            } else {
                *final(self) == *old(self) && r@.len() == 0
            },
    {
        let runs = match &self.session {
            Some(session) => session.id == session_id,
            None => false,
        };
        if !runs {
            return Vec::new();
        }
        self.session = None;
        let pending = self.pending.take();
        drop_request(pending, ERROR_CANCELED, "Bluetooth pairing session ended")
    }

    /// Gives up the open question as the program ends.
    pub fn shut_down(&mut self) -> (r: Vec<AgentAction>)
        ensures
            final(self).pending is None,
            final(self).session == old(self).session,
            final(self).next_session_id == old(self).next_session_id,
            action_models(r@) == dropped(
                old(self).pending,
                ERROR_CANCELED@,
                "Bluetooth agent is shutting down"@,
            ),
    {
        let pending = self.pending.take();
        drop_request(pending, ERROR_CANCELED, "Bluetooth agent is shutting down")
    }

    /// Answers the open question with what the user typed. The answer goes to the invocation
    /// whose number is returned.
    pub fn submit_input(&mut self, value: &str) -> (r: Result<(u64, AgentInput), String>)
        ensures
            final(self).session == old(self).session,
            final(self).next_session_id == old(self).next_session_id,
            match input_answer(old(self).pending, value@) {
                Ok((invocation, Ok(pincode))) => final(self).pending is None && (r matches Ok(
                    answer,
                ) && answer.0 == invocation && (answer.1 matches AgentInput::PinCode(text) && text@
                    == pincode)),
                Ok((invocation, Err(passkey))) => final(self).pending is None && (r matches Ok(
                    answer,
                ) && answer.0 == invocation && (answer.1 matches AgentInput::Passkey(n) && n
                    == passkey)),
                Err(reason) => final(self).pending == old(self).pending && (r matches Err(message)
                    && message@ == reason),
            },
    {
        let value = trim(value);
        if value.as_str().is_empty() {
            return Err("PIN or passkey is required".to_owned());
        }
        let request = match self.pending {
            Some(request) => request,
            None => return Err("Bluetooth is not waiting for a PIN or passkey".to_owned()),
        };
        let chars = chars_of(&value);
        match request.kind {
            AgentPromptKind::PinCode => {
                if chars.len() > 16 {
                    return Err("PIN must be between 1 and 16 characters".to_owned());
                }
                self.pending = None;
                Ok((request.invocation, AgentInput::PinCode(value)))
            },
            AgentPromptKind::Passkey => {
                if chars.len() > 6 {
                    return Err("Passkey must be a number from 000000 to 999999".to_owned());
                }
                match parse_digits(&chars) {
                    Some(passkey) => {
                        self.pending = None;
                        Ok((request.invocation, AgentInput::Passkey(passkey)))
                    },
                    None => Err("Passkey must be a number from 000000 to 999999".to_owned()),
                }
            },
            _ => Err("Bluetooth is not waiting for text input".to_owned()),
        }
    }

    /// Answers the open question with yes; the invocation to answer is returned.
    pub fn confirm_request(&mut self) -> (r: Result<u64, String>)
        ensures
            final(self).session == old(self).session,
            final(self).next_session_id == old(self).next_session_id,
            if old(self).pending matches Some(request) && (request.kind is Confirmation
                || request.kind is Authorization) {
                r == Ok::<u64, String>(old(self).pending->0.invocation) && final(
                    self).pending is None
            } else {
                final(self).pending == old(self).pending && (r matches Err(message) && message@
                    == "Bluetooth is not waiting for confirmation"@)
            },
    {
        match self.pending {
            Some(request) => match request.kind {
                AgentPromptKind::Confirmation { .. } | AgentPromptKind::Authorization => {
                    self.pending = None;
                    Ok(request.invocation)
                },
                _ => Err("Bluetooth is not waiting for confirmation".to_owned()),
            },
            None => Err("Bluetooth is not waiting for confirmation".to_owned()),
        }
    }

    /// Answers the open question with no.
    pub fn reject_request(&mut self) -> (r: Vec<AgentAction>)
        ensures
            final(self).pending is None,
            final(self).session == old(self).session,
            final(self).next_session_id == old(self).next_session_id,
            action_models(r@) == dropped(
                old(self).pending,
                ERROR_REJECTED@,
                "Bluetooth pairing rejected"@,
            ),
    {
        let pending = self.pending.take();
        drop_request(pending, ERROR_REJECTED, "Bluetooth pairing rejected")
    }

    /// Whether the session is about the device.
    pub fn session_matches(&self, device_path: &str) -> (r: bool)
        ensures
            r == (self.device() == Some(device_path@)),
    {
        match &self.session {
            Some(session) => same(&session.device_path, device_path),
            None => false,
        }
    }

    /// Takes a call of BlueZ. `arguments` is nothing where they do not have the method's form.
    pub fn handle_agent_method_call(
        &mut self,
        method_name: &str,
        arguments: Option<AgentArguments>,
        invocation: u64,
    ) -> (r: Vec<AgentAction>)
        ensures
            final(self).session == old(self).session,
            final(self).next_session_id == old(self).next_session_id,
            (final(self).pending, action_models(r@)) == handled(
                old(self).device(),
                old(self).pending,
                method_named(method_name@),
                arguments,
                invocation,
            ),
    {
        let method = AgentMethod::named(method_name);
        match method {
            AgentMethod::Unknown => one(
                AgentAction::Fail {
                    invocation,
                    name: ERROR_UNKNOWN_METHOD,
                    message: "Unknown Bluetooth agent method",
                },
            ),
            AgentMethod::Cancel => self.close_question(
                "Bluetooth pairing canceled by BlueZ",
                AgentEvent::Cancel,
                invocation,
            ),
            AgentMethod::Release => self.close_question(
                "Bluetooth pairing agent released by BlueZ",
                AgentEvent::Release,
                invocation,
            ),
            _ => match arguments {
                None => one(
                    AgentAction::Fail {
                        invocation,
                        name: ERROR_REJECTED,
                        message: invalid_message(method),
                    },
                ),
                Some(arguments) => {
                    if !self.session_matches(&arguments.device) {
                        return one(
                            AgentAction::Fail { invocation, name: ERROR_REJECTED, message: MISMATCH },
                        );
                    }
                    match method {
                        AgentMethod::RequestPinCode => self.install_pending(
                            arguments.device,
                            AgentPromptKind::PinCode,
                            invocation,
                        ),
                        AgentMethod::RequestPasskey => self.install_pending(
                            arguments.device,
                            AgentPromptKind::Passkey,
                            invocation,
                        ),
                        AgentMethod::RequestConfirmation => self.install_pending(
                            arguments.device,
                            AgentPromptKind::Confirmation { passkey: arguments.passkey },
                            invocation,
                        ),
                        AgentMethod::RequestAuthorization | AgentMethod::AuthorizeService => {
                            self.install_pending(
                                arguments.device,
                                AgentPromptKind::Authorization,
                                invocation,
                            )
                        },
                        AgentMethod::DisplayPinCode => two(
                            AgentAction::Emit(
                                AgentEvent::DisplayPinCode {
                                    device_path: arguments.device,
                                    pincode: arguments.pincode,
                                },
                            ),
                            AgentAction::Return(invocation),
                        ),
                        _ => two(
                            AgentAction::Emit(
                                AgentEvent::DisplayPasskey {
                                    device_path: arguments.device,
                                    passkey: arguments.passkey,
                                    entered: arguments.entered,
                                },
                            ),
                            AgentAction::Return(invocation),
                        ),
                    }
                },
            },
        }
    }

    fn install_pending(
        &mut self,
        device_path: String,
        kind: AgentPromptKind,
        invocation: u64,
    ) -> (r: Vec<AgentAction>)
        ensures
            final(self).session == old(self).session,
            final(self).next_session_id == old(self).next_session_id,
            final(self).pending == Some(PendingAgentRequest { kind, invocation }),
            action_models(r@) == dropped(
                old(self).pending,
                ERROR_CANCELED@,
                "Superseded by another Bluetooth pairing request"@,
            ).push(ActionModel::Emit(EventModel::Prompt { device_path: device_path@, kind })),
    {
        let previous = self.pending.take();
        self.pending = Some(PendingAgentRequest { kind, invocation });
        let mut actions = drop_request(
            previous,
            ERROR_CANCELED,
            "Superseded by another Bluetooth pairing request",
        );
        let ghost before = actions@;
        let action = AgentAction::Emit(AgentEvent::Prompt { device_path, kind });
        actions.push(action);
        assert(action_models(actions@) =~= action_models(before).push(action@));
        actions
    }

    fn close_question(&mut self, message: &'static str, event: AgentEvent, invocation: u64) -> (r:
        Vec<AgentAction>)
        ensures
            final(self).session == old(self).session,
            final(self).next_session_id == old(self).next_session_id,
            final(self).pending is None,
            action_models(r@) == dropped(old(self).pending, ERROR_CANCELED@, message@) + told(
                old(self).device(),
                event@,
            ) + seq![ActionModel::Return(invocation)],
    {
        let pending = self.pending.take();
        let mut actions = drop_request(pending, ERROR_CANCELED, message);
        let ghost before = action_models(actions@);
        let action = AgentAction::Emit(event);
        if self.session.is_some() {
            actions.push(action);
        }
        actions.push(AgentAction::Return(invocation));
        assert(action_models(actions@) =~= before + told(old(self).device(), event@)
            + seq![ActionModel::Return(invocation)]);
        actions
    }
}

fn invalid_message(method: AgentMethod) -> (r: &'static str)
    ensures
        r@ == invalid_call(method),
{
    match method {
        AgentMethod::RequestPinCode => "BlueZ sent an invalid PIN request",
        AgentMethod::DisplayPinCode => "BlueZ sent an invalid PIN display request",
        AgentMethod::RequestPasskey => "BlueZ sent an invalid passkey request",
        AgentMethod::DisplayPasskey => "BlueZ sent an invalid passkey display request",
        AgentMethod::RequestConfirmation => "BlueZ sent an invalid confirmation request",
        AgentMethod::RequestAuthorization => "BlueZ sent an invalid authorization request",
        _ => "BlueZ sent an invalid service authorization request",
    }
}

fn one(action: AgentAction) -> (r: Vec<AgentAction>)
    ensures
        action_models(r@) == seq![action@],
{
    let mut out: Vec<AgentAction> = Vec::new();
    out.push(action);
    assert(action_models(out@) =~= seq![action@]);
    out
}

fn two(first: AgentAction, second: AgentAction) -> (r: Vec<AgentAction>)
    ensures
        action_models(r@) == seq![first@, second@],
{
    let mut out: Vec<AgentAction> = Vec::new();
    out.push(first);
    out.push(second);
    assert(action_models(out@) =~= seq![first@, second@]);
    out
}

fn drop_request(
    request: Option<PendingAgentRequest>,
    name: &'static str,
    message: &'static str,
) -> (r: Vec<AgentAction>)
    ensures
        action_models(r@) == dropped(request, name@, message@),
{
    match request {
        Some(request) => one(AgentAction::Fail { invocation: request.invocation, name, message }),
        None => {
            let out: Vec<AgentAction> = Vec::new();
            assert(action_models(out@) =~= Seq::<ActionModel>::empty());
            out
        },
    }
}

/// The invocations that the actions answer.
pub open spec fn answered(actions: Seq<ActionModel>) -> Multiset<u64>
    decreases actions.len(),
{
    if actions.len() == 0 {
        Multiset::empty()
    } else {
        let before = answered(actions.drop_last());
        match actions.last() {
            ActionModel::Return(invocation) => before.insert(invocation),
            ActionModel::Fail { invocation, .. } => before.insert(invocation),
            ActionModel::Emit(_) => before,
        }
    }
}

/// The invocation of the open question.
pub open spec fn waiting(pending: Option<PendingAgentRequest>) -> Multiset<u64> {
    match pending {
        Some(request) => Multiset::singleton(request.invocation),
        None => Multiset::empty(),
    }
}

proof fn answered_push(actions: Seq<ActionModel>, action: ActionModel)
    ensures
        answered(actions.push(action)) == (match action {
            ActionModel::Return(invocation) => answered(actions).insert(invocation),
            ActionModel::Fail { invocation, .. } => answered(actions).insert(invocation),
            ActionModel::Emit(_) => answered(actions),
        }),
{
    assert(actions.push(action).drop_last() =~= actions);
}

/// Dropping a question answers it.
pub proof fn dropped_questions_are_answered(
    pending: Option<PendingAgentRequest>,
    name: Seq<char>,
    message: Seq<char>,
)
    ensures
        answered(dropped(pending, name, message)) == waiting(pending),
{
    assert(answered(Seq::<ActionModel>::empty()) == Multiset::<u64>::empty());
    if let Some(request) = pending {
        let action = ActionModel::Fail { invocation: request.invocation, name, message };
        answered_push(Seq::empty(), action);
        assert(dropped(pending, name, message) =~= Seq::<ActionModel>::empty().push(action));
        assert(Multiset::<u64>::empty().insert(request.invocation) =~= Multiset::singleton(
            request.invocation,
        ));
    }
}

/// No call of BlueZ is left without an answer and none is answered twice: each is answered or is
/// the open question.
pub proof fn every_call_is_answered_once(
    device: Option<Seq<char>>,
    pending: Option<PendingAgentRequest>,
    method: AgentMethod,
    arguments: Option<AgentArguments>,
    invocation: u64,
)
    ensures
        ({
            let (open, actions) = handled(device, pending, method, arguments, invocation);
            answered(actions).add(waiting(open)) == waiting(pending).insert(invocation)
        }),
{
    let (open, actions) = handled(device, pending, method, arguments, invocation);
    let none = Seq::<ActionModel>::empty();
    assert(answered(none) == Multiset::<u64>::empty());
    let closes = method == AgentMethod::Cancel || method == AgentMethod::Release;
    let message = if method == AgentMethod::Cancel {
        "Bluetooth pairing canceled by BlueZ"@
    } else if method == AgentMethod::Release {
        "Bluetooth pairing agent released by BlueZ"@
    } else {
        "Superseded by another Bluetooth pairing request"@
    };
    let old_answer = dropped(pending, ERROR_CANCELED@, message);
    dropped_questions_are_answered(pending, ERROR_CANCELED@, message);
    if closes {
        let event = if method == AgentMethod::Cancel {
            EventModel::Cancel
        } else {
            EventModel::Release
        };
        let ret = ActionModel::Return(invocation);
        if device is Some {
            answered_push(old_answer, ActionModel::Emit(event));
            answered_push(old_answer.push(ActionModel::Emit(event)), ret);
            assert(actions =~= old_answer.push(ActionModel::Emit(event)).push(ret));
        } else {
            answered_push(old_answer, ret);
            assert(actions =~= old_answer.push(ret));
        }
    } else if actions.len() == 1 && actions[0] is Fail {
        assert(actions =~= none.push(actions[0]));
        answered_push(none, actions[0]);
    } else if arguments is Some && asks(method, arguments->0.passkey) is Some {
        answered_push(old_answer, actions.last());
        assert(actions =~= old_answer.push(actions.last()));
    } else {
        assert(actions =~= none.push(actions[0]).push(actions[1]));
        answered_push(none, actions[0]);
        answered_push(none.push(actions[0]), actions[1]);
    }
    assert(answered(actions).add(waiting(open)) =~= waiting(pending).insert(invocation));
}

/// Outside a session no question is opened and nothing is shown.
pub proof fn nothing_is_asked_outside_a_session(
    pending: Option<PendingAgentRequest>,
    method: AgentMethod,
    arguments: Option<AgentArguments>,
    invocation: u64,
)
    ensures
        ({
            let (open, actions) = handled(None, pending, method, arguments, invocation);
            &&& open == pending || open is None
            &&& forall|i: int| 0 <= i < actions.len() ==> !((#[trigger] actions[i]) is Emit)
        }),
{
}

/// A session's number is never 0 and differs from that of the session before.
pub proof fn session_numbers_differ(id: u64)
    ensures
        following_id(id) != 0,
        following_id(id) != id,
{
}

proof fn names_of_methods(name: Seq<char>, method: AgentMethod)
    requires
        method == method_named(name),
    ensures
        (method is RequestPinCode) == (name == "RequestPinCode"@),
        (method is DisplayPinCode) == (name == "DisplayPinCode"@),
        (method is RequestPasskey) == (name == "RequestPasskey"@),
        (method is DisplayPasskey) == (name == "DisplayPasskey"@),
        (method is RequestConfirmation) == (name == "RequestConfirmation"@),
        (method is RequestAuthorization) == (name == "RequestAuthorization"@),
        (method is AuthorizeService) == (name == "AuthorizeService"@),
        (method is Cancel) == (name == "Cancel"@),
        (method is Release) == (name == "Release"@),
{
    reveal_strlit("RequestPinCode");
    reveal_strlit("DisplayPinCode");
    reveal_strlit("RequestPasskey");
    reveal_strlit("DisplayPasskey");
    reveal_strlit("RequestConfirmation");
    reveal_strlit("RequestAuthorization");
    reveal_strlit("AuthorizeService");
    reveal_strlit("Cancel");
    reveal_strlit("Release");
    assert("RequestPinCode"@.len() == 14 && "DisplayPinCode"@.len() == 14
        && "RequestPasskey"@.len() == 14 && "DisplayPasskey"@.len() == 14);
    assert("RequestPinCode"@[0] == 'R' && "DisplayPinCode"@[0] == 'D' && "RequestPasskey"@[0] == 'R'
        && "DisplayPasskey"@[0] == 'D');
    assert("RequestPinCode"@[8] == 'i' && "RequestPasskey"@[8] == 'a' && "DisplayPinCode"@[8] == 'i'
        && "DisplayPasskey"@[8] == 'a');
    assert("RequestConfirmation"@.len() == 19 && "RequestAuthorization"@.len() == 20
        && "AuthorizeService"@.len() == 16 && "Cancel"@.len() == 6 && "Release"@.len() == 7);
}

/// A call is known by the name that BlueZ uses for it.
pub proof fn methods_go_by_their_names(name: &str, method: AgentMethod)
    requires
        call_ensures(AgentMethod::named, (name,), method),
    ensures
        (method is RequestPinCode) == (name@ == "RequestPinCode"@),
        (method is DisplayPinCode) == (name@ == "DisplayPinCode"@),
        (method is RequestPasskey) == (name@ == "RequestPasskey"@),
        (method is DisplayPasskey) == (name@ == "DisplayPasskey"@),
        (method is RequestConfirmation) == (name@ == "RequestConfirmation"@),
        (method is RequestAuthorization) == (name@ == "RequestAuthorization"@),
        (method is AuthorizeService) == (name@ == "AuthorizeService"@),
        (method is Cancel) == (name@ == "Cancel"@),
        (method is Release) == (name@ == "Release"@),
{
    names_of_methods(name@, method);
}

/// A call about the device of the session asks the user what its name says, and the number that it
/// carries is the one that the user is to compare; the call waits for the user's answer.
pub proof fn questions_reach_the_user<H>(
    agent: &mut BluetoothAgent<H>,
    name: &str,
    arguments: AgentArguments,
    invocation: u64,
    r: Vec<AgentAction>,
)
    requires
        call_ensures(
            BluetoothAgent::<H>::handle_agent_method_call,
            (agent, name, Some(arguments), invocation),
            r,
        ),
        old(agent).device() == Some(arguments.device@),
        name@ == "RequestPinCode"@ || name@ == "RequestPasskey"@ || name@ == "RequestConfirmation"@
            || name@ == "RequestAuthorization"@ || name@ == "AuthorizeService"@,
    ensures
        final(agent).pending matches Some(request) && request.invocation == invocation && (
        request.kind is PinCode) == (name@ == "RequestPinCode"@) && (request.kind is Passkey) == (
        name@ == "RequestPasskey"@) && (request.kind is Authorization) == (name@
            == "RequestAuthorization"@ || name@ == "AuthorizeService"@) && (name@
            == "RequestConfirmation"@ ==> request.kind == (AgentPromptKind::Confirmation {
            passkey: arguments.passkey,
        })),
        r@.len() > 0,
        r@.last() matches AgentAction::Emit(AgentEvent::Prompt { device_path, kind })
            && device_path@ == arguments.device@ && kind == final(agent).pending->0.kind,
        old(agent).pending matches Some(earlier) ==> r@.len() == 2 && (
        r@[0] matches AgentAction::Fail { invocation: refused, name: error, .. } && refused
            == earlier.invocation && error@ == "org.bluez.Error.Canceled"@),
{
    names_of_methods(name@, method_named(name@));
    let m = action_models(r@);
    assert(m.len() == r@.len());
    assert(r@[0]@ == m[0]);
    assert(r@.last()@ == m.last());
    reveal_strlit("RequestPinCode");
    reveal_strlit("RequestPasskey");
    reveal_strlit("RequestConfirmation");
    reveal_strlit("RequestAuthorization");
    reveal_strlit("AuthorizeService");
}

/// What BlueZ asks to be shown is shown as it is, and the call is answered at once.
pub proof fn codes_are_shown_as_they_came<H>(
    agent: &mut BluetoothAgent<H>,
    name: &str,
    arguments: AgentArguments,
    invocation: u64,
    r: Vec<AgentAction>,
)
    requires
        call_ensures(
            BluetoothAgent::<H>::handle_agent_method_call,
            (agent, name, Some(arguments), invocation),
            r,
        ),
        old(agent).device() == Some(arguments.device@),
    ensures
        final(agent).session == old(agent).session,
        name@ == "DisplayPinCode"@ ==> r@.len() == 2 && (r@[0] matches AgentAction::Emit(
            AgentEvent::DisplayPinCode { device_path, pincode },
        ) && device_path@ == arguments.device@ && pincode@ == arguments.pincode@) && r@[1]
            == AgentAction::Return(invocation) && final(agent).pending == old(agent).pending,
        name@ == "DisplayPasskey"@ ==> r@.len() == 2 && (r@[0] matches AgentAction::Emit(
            AgentEvent::DisplayPasskey { device_path, passkey, entered },
        ) && device_path@ == arguments.device@ && passkey == arguments.passkey && entered
            == arguments.entered) && r@[1] == AgentAction::Return(invocation)
            && final(agent).pending == old(agent).pending,
{
    names_of_methods(name@, method_named(name@));
    let m = action_models(r@);
    assert(m.len() == r@.len());
    if name@ == "DisplayPinCode"@ || name@ == "DisplayPasskey"@ {
        assert(r@[0]@ == m[0]);
        assert(r@[1]@ == m[1]);
    }
}

/// A call about a device without a session, or with arguments of another form, changes nothing and
/// is refused with an error; so is one that is not known.
pub proof fn foreign_calls_are_refused<H>(
    agent: &mut BluetoothAgent<H>,
    name: &str,
    arguments: Option<AgentArguments>,
    invocation: u64,
    r: Vec<AgentAction>,
)
    requires
        call_ensures(
            BluetoothAgent::<H>::handle_agent_method_call,
            (agent, name, arguments, invocation),
            r,
        ),
        name@ != "Cancel"@,
        name@ != "Release"@,
        arguments is None || old(agent).device() != Some(arguments->0.device@),
    ensures
        *final(agent) == *old(agent),
        r@.len() == 1,
        r@[0] matches AgentAction::Fail { invocation: refused, name: error, .. } && refused
            == invocation && (error@ == "org.bluez.Error.Rejected"@ || error@
            == "org.freedesktop.DBus.Error.UnknownMethod"@),
{
    names_of_methods(name@, method_named(name@));
    let m = action_models(r@);
    assert(m.len() == r@.len());
    assert(r@[0]@ == m[0]);
    assert(final(agent).pending == old(agent).pending);
}

/// When BlueZ gives up, the open question is answered with an error, the session is told, and the
/// call itself is answered.
pub proof fn giving_up_closes_the_question<H>(
    agent: &mut BluetoothAgent<H>,
    name: &str,
    arguments: Option<AgentArguments>,
    invocation: u64,
    r: Vec<AgentAction>,
)
    requires
        call_ensures(
            BluetoothAgent::<H>::handle_agent_method_call,
            (agent, name, arguments, invocation),
            r,
        ),
        name@ == "Cancel"@ || name@ == "Release"@,
    ensures
        final(agent).pending is None,
        final(agent).session == old(agent).session,
        r@.len() > 0,
        r@.last() == AgentAction::Return(invocation),
        old(agent).pending matches Some(request) ==> (r@[0] matches AgentAction::Fail {
            invocation: refused,
            name: error,
            ..
        } && refused == request.invocation && error@ == "org.bluez.Error.Canceled"@),
        old(agent).session is Some ==> r@.len() >= 2 && r@[r@.len() - 2] == AgentAction::Emit(
            if name@ == "Cancel"@ {
                AgentEvent::Cancel
            } else {
                AgentEvent::Release
            },
        ),
{
    names_of_methods(name@, method_named(name@));
    reveal_strlit("Cancel");
    reveal_strlit("Release");
    let m = action_models(r@);
    assert(m.len() == r@.len());
    assert(r@[0]@ == m[0]);
    assert(r@.last()@ == m.last());
    if old(agent).session is Some {
        assert(r@[r@.len() - 2]@ == m[m.len() - 2]);
    }
}

/// What the user types answers the open question: a PIN as it was typed, without the white space
/// around it, and a passkey as the number that its digits stand for. What is refused leaves the
/// question open.
pub proof fn typed_answers_are_passed_on<H>(
    agent: &mut BluetoothAgent<H>,
    value: &str,
    r: Result<(u64, AgentInput), String>,
)
    requires
        call_ensures(BluetoothAgent::<H>::submit_input, (agent, value), r),
    ensures
        (r is Ok) == (old(agent).pending matches Some(request) && (match request.kind {
            AgentPromptKind::PinCode => 1 <= trimmed(value@).len() <= 16,
            AgentPromptKind::Passkey => 1 <= trimmed(value@).len() <= 6 && all_digits(
                trimmed(value@),
            ),
            _ => false,
        })),
        r matches Ok(answer) ==> final(agent).pending is None && answer.0 == old(
            agent,
        ).pending->0.invocation && match answer.1 {
            AgentInput::PinCode(text) => old(agent).pending->0.kind is PinCode && text@ == trimmed(
                value@,
            ),
            AgentInput::Passkey(n) => old(agent).pending->0.kind is Passkey && n == digits_value(
                trimmed(value@),
            ),
        },
        r is Err ==> final(agent).pending == old(agent).pending,
        final(agent).session == old(agent).session,
{
}

/// A yes answers questions of yes or no alone, a no answers any, and either closes the question.
pub proof fn answers_close_the_question<H>(
    agreed: &mut BluetoothAgent<H>,
    yes: Result<u64, String>,
    refused: &mut BluetoothAgent<H>,
    no: Vec<AgentAction>,
)
    requires
        call_ensures(BluetoothAgent::<H>::confirm_request, (agreed,), yes),
        call_ensures(BluetoothAgent::<H>::reject_request, (refused,), no),
    ensures
        (yes is Ok) == (old(agreed).pending matches Some(request) && (request.kind is Confirmation
            || request.kind is Authorization)),
        yes matches Ok(invocation) ==> final(agreed).pending is None && invocation == old(
            agreed,
        ).pending->0.invocation,
        yes is Err ==> final(agreed).pending == old(agreed).pending,
        final(refused).pending is None,
        no@.len() == (if old(refused).pending is Some {
            1int
        } else {
            0
        }),
        old(refused).pending matches Some(request) ==> (no@[0] matches AgentAction::Fail {
            invocation,
            name,
            ..
        } && invocation == request.invocation && name@ == "org.bluez.Error.Rejected"@),
{
    let m = action_models(no@);
    assert(m.len() == no@.len());
    if old(refused).pending is Some {
        assert(no@[0]@ == m[0]);
    }
}

/// One session runs at a time: a second is refused until the first has ended, and a number ends its
/// own session alone.
pub proof fn one_session_runs_at_a_time<H>(
    first: &mut BluetoothAgent<H>,
    device: &str,
    handler: H,
    begun: Option<(u64, Vec<AgentAction>)>,
    second: &mut BluetoothAgent<H>,
    other: &str,
    other_handler: H,
    refused: Option<(u64, Vec<AgentAction>)>,
    ended: &mut BluetoothAgent<H>,
    id: u64,
    left: Vec<AgentAction>,
)
    requires
        call_ensures(BluetoothAgent::<H>::begin_session, (first, device, handler), begun),
        *old(second) == *final(first),
        call_ensures(BluetoothAgent::<H>::begin_session, (second, other, other_handler), refused),
        *old(ended) == *final(second),
        call_ensures(BluetoothAgent::<H>::end_session, (ended, id), left),
    ensures
        (begun is Some) == (old(first).session is None),
        begun is Some ==> final(first).device() == Some(device@),
        refused is None,
        final(second).device() == final(first).device(),
        begun matches Some(b) ==> (final(ended).session is None) == (id == b.0),
        begun matches Some(b) ==> b.0 != old(first).next_session_id,
{
}

/// Which error a call that is refused gets: the one for calls that are not known, or the one for a
/// refusal.
pub proof fn unknown_calls_are_told_from_refused_ones<H>(
    agent: &mut BluetoothAgent<H>,
    name: &str,
    invocation: u64,
    r: Vec<AgentAction>,
)
    requires
        call_ensures(
            BluetoothAgent::<H>::handle_agent_method_call,
            (agent, name, None, invocation),
            r,
        ),
        name@ != "Cancel"@,
        name@ != "Release"@,
    ensures
        r@.len() == 1,
        r@[0] matches AgentAction::Fail { name: error, .. } && (error@ == "org.bluez.Error.Rejected"@)
            == (name@ == "RequestPinCode"@ || name@ == "RequestPasskey"@ || name@
            == "RequestConfirmation"@ || name@ == "RequestAuthorization"@ || name@
            == "AuthorizeService"@ || name@ == "DisplayPinCode"@ || name@ == "DisplayPasskey"@) && (
        error@ != "org.bluez.Error.Rejected"@ ==> error@
            == "org.freedesktop.DBus.Error.UnknownMethod"@),
{
    names_of_methods(name@, method_named(name@));
    reveal_strlit("org.bluez.Error.Rejected");
    reveal_strlit("org.freedesktop.DBus.Error.UnknownMethod");
    assert("org.bluez.Error.Rejected"@.len() == 24
        && "org.freedesktop.DBus.Error.UnknownMethod"@.len() == 40);
    let m = action_models(r@);
    assert(m.len() == r@.len());
    assert(r@[0]@ == m[0]);
}

/// A question that is left open when its session ends, when another begins or when the program
/// ends is answered as cancelled, and so is one that a newer question takes the place of.
pub proof fn left_questions_are_cancelled<H>(
    ended: &mut BluetoothAgent<H>,
    id: u64,
    at_end: Vec<AgentAction>,
    down: &mut BluetoothAgent<H>,
    at_exit: Vec<AgentAction>,
    request: PendingAgentRequest,
)
    requires
        old(ended).session is Some,
        old(ended).session->0.id == id,
        old(ended).pending == Some(request),
        call_ensures(BluetoothAgent::<H>::end_session, (ended, id), at_end),
        old(down).pending == Some(request),
        call_ensures(BluetoothAgent::<H>::shut_down, (down,), at_exit),
    ensures
        final(ended).pending is None && final(ended).session is None,
        final(down).pending is None,
        at_end@.len() == 1 && at_exit@.len() == 1,
        at_end@[0] matches AgentAction::Fail { invocation, name, .. } && invocation
            == request.invocation && name@ == "org.bluez.Error.Canceled"@,
        at_exit@[0] matches AgentAction::Fail { invocation, name, .. } && invocation
            == request.invocation && name@ == "org.bluez.Error.Canceled"@,
{
    let (a, b) = (action_models(at_end@), action_models(at_exit@));
    assert(a.len() == at_end@.len() && b.len() == at_exit@.len());
    assert(at_end@[0]@ == a[0] && at_exit@[0]@ == b[0]);
}

/// What is typed is refused for one reason: nothing was typed, nothing is asked, it is too long for
/// a PIN, it is no passkey, or the question takes no text.
pub proof fn refused_answers_tell_why<H>(
    agent: &mut BluetoothAgent<H>,
    value: &str,
    message: String,
    agreed: &mut BluetoothAgent<H>,
    no: String,
)
    requires
        call_ensures(BluetoothAgent::<H>::submit_input, (agent, value), Err(message)),
        call_ensures(BluetoothAgent::<H>::confirm_request, (agreed,), Err(no)),
    ensures
        trimmed(value@).len() == 0 ==> message@ == "PIN or passkey is required"@,
        trimmed(value@).len() > 0 ==> {
            &&& old(agent).pending is None ==> message@
                == "Bluetooth is not waiting for a PIN or passkey"@
            &&& old(agent).pending matches Some(request) ==> {
                &&& request.kind is PinCode ==> trimmed(value@).len() > 16 && message@
                    == "PIN must be between 1 and 16 characters"@
                &&& request.kind is Passkey ==> message@
                    == "Passkey must be a number from 000000 to 999999"@
                &&& request.kind is Confirmation || request.kind is Authorization ==> message@
                    == "Bluetooth is not waiting for text input"@
            }
        },
        no@ == "Bluetooth is not waiting for confirmation"@,
{
}

/// A session is with the device and the handler that it was begun for, and a new agent has none.
pub proof fn sessions_are_with_their_device<H>(
    fresh: BluetoothAgent<H>,
    agent: &mut BluetoothAgent<H>,
    device: &str,
    handler: H,
    begun: Option<(u64, Vec<AgentAction>)>,
    other: &str,
    matches_own: bool,
    matches_other: bool,
    none: Option<&H>,
    own: Option<&H>,
)
    requires
        call_ensures(BluetoothAgent::<H>::new, (), fresh),
        *old(agent) == fresh,
        call_ensures(BluetoothAgent::<H>::begin_session, (agent, device, handler), begun),
        call_ensures(BluetoothAgent::<H>::session_matches, (final(agent), device), matches_own),
        call_ensures(BluetoothAgent::<H>::session_matches, (final(agent), other), matches_other),
        call_ensures(BluetoothAgent::<H>::handler, (&fresh,), none),
        call_ensures(BluetoothAgent::<H>::handler, (final(agent),), own),
    ensures
        begun is Some,
        matches_own,
        matches_other == (other@ == device@),
        none is None,
        own matches Some(h) && *h == handler,
        begun matches Some(b) && b.1@.len() == 0,
{
    if let Some((_, actions)) = begun {
        assert(action_models(actions@).len() == actions@.len());
    }
}

} // verus!
