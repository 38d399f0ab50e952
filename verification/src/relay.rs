//! The relay between a host's connections and the remote control: which messages
//! go where, and what a control request asks for.

use crate::text;
use std::collections::HashSet;
use vstd::prelude::*;

verus! {

broadcast use vstd::std_specs::hash::group_hash_axioms;

/// The message is no request.
pub const INVALID_REQUEST: i64 = -32600;

/// The parameters of a request are not of the right form.
pub const INVALID_PARAMS: i64 = -32602;

/// The method of a request is not known.
pub const METHOD_NOT_FOUND: i64 = -32601;

/// What a request asked for has failed.
pub const INTERNAL_ERROR: i64 = -32603;

/// An error that a request is answered with.
#[derive(Debug, PartialEq, Eq)]
pub struct RpcError {
    pub code: i64,
    pub message: String,
}

/// The model of [`RpcError`].
#[verifier::ext_equal]
pub struct RpcErrorView {
    pub code: i64,
    pub message: Seq<char>,
}

impl View for RpcError {
    type V = RpcErrorView;

    open spec fn view(&self) -> RpcErrorView {
        RpcErrorView {
            code: self.code,
            message: self.message@,
        }
    }
}

impl DeepView for RpcError {
    type V = RpcErrorView;

    open spec fn deep_view(&self) -> RpcErrorView {
        self@
    }
}

impl Clone for RpcError {
    fn clone(&self) -> (r: Self)
        ensures
            r@ == self@,
    {
        RpcError {
            code: self.code,
            message: self.message.clone(),
        }
    }
}

/// The identifier of a request.
#[derive(Debug, PartialEq, Eq)]
pub enum RequestId {
    Integer(i64),
    Text(String),
}

/// The model of [`RequestId`].
#[verifier::ext_equal]
pub enum RequestIdView {
    Integer(i64),
    Text(Seq<char>),
}

impl View for RequestId {
    type V = RequestIdView;

    open spec fn view(&self) -> RequestIdView {
        match self {
            RequestId::Integer(value) => RequestIdView::Integer(*value),
            RequestId::Text(value) => RequestIdView::Text(value@),
        }
    }
}

impl DeepView for RequestId {
    type V = RequestIdView;

    open spec fn deep_view(&self) -> RequestIdView {
        self@
    }
}

impl Clone for RequestId {
    fn clone(&self) -> (r: Self)
        ensures
            r@ == self@,
    {
        match self {
            RequestId::Integer(value) => RequestId::Integer(*value),
            RequestId::Text(value) => RequestId::Text(value.clone()),
        }
    }
}

/// What a control request can ask for.
#[derive(Debug, Clone, Copy, PartialEq, Eq, Structural)]
pub enum ControlMethod {
    Enable,
    Disable,
    StatusRead,
    PairingStart,
    PairingStatus,
    ClientList,
    ClientRevoke,
}

/// The parameters of a control request, as far as they are looked at.
#[derive(Debug, PartialEq, Eq)]
pub enum ControlParams {
    /// For switching on or off; where none are given it is not ephemeral.
    Toggle { ephemeral: bool },
    /// For the status of a pairing.
    Pairing { pairing_code: Option<String>, manual_pairing_code: Option<String> },
    /// Anything else.
    Unread,
}

/// The model of [`ControlParams`].
#[verifier::ext_equal]
pub enum ControlParamsView {
    Toggle { ephemeral: bool },
    Pairing { pairing_code: Option<Seq<char>>, manual_pairing_code: Option<Seq<char>> },
    Unread,
}

impl View for ControlParams {
    type V = ControlParamsView;

    open spec fn view(&self) -> ControlParamsView {
        match self {
            ControlParams::Toggle { ephemeral } => ControlParamsView::Toggle {
                ephemeral: *ephemeral,
            },
            ControlParams::Pairing { pairing_code, manual_pairing_code } => {
                ControlParamsView::Pairing {
                    pairing_code: pairing_code.deep_view(),
                    manual_pairing_code: manual_pairing_code.deep_view(),
                }
            },
            ControlParams::Unread => ControlParamsView::Unread,
        }
    }
}

impl DeepView for ControlParams {
    type V = ControlParamsView;

    open spec fn deep_view(&self) -> ControlParamsView {
        self@
    }
}

impl Clone for ControlParams {
    fn clone(&self) -> (r: Self)
        ensures
            r@ == self@,
    {
        match self {
            ControlParams::Toggle { ephemeral } => ControlParams::Toggle { ephemeral: *ephemeral },
            ControlParams::Pairing { pairing_code, manual_pairing_code } => ControlParams::Pairing {
                pairing_code: pairing_code.clone(),
                manual_pairing_code: manual_pairing_code.clone(),
            },
            ControlParams::Unread => ControlParams::Unread,
        }
    }
}

/// What the remote control is told to do.
#[derive(Debug, Clone, Copy, PartialEq, Eq, Structural)]
pub enum ControlAction {
    EnableEphemeral,
    Enable,
    DisableEphemeral,
    Disable,
    ReadStatus,
    StartPairing,
    ReadPairingStatus,
    ListClients,
    RevokeClient,
}

/// The method with a name, if there is one.
pub open spec fn method_named(name: Seq<char>) -> Option<ControlMethod> {
    if name == "remoteControl/enable"@ {
        Some(ControlMethod::Enable)
    } else if name == "remoteControl/disable"@ {
        Some(ControlMethod::Disable)
    } else if name == "remoteControl/status/read"@ {
        Some(ControlMethod::StatusRead)
    } else if name == "remoteControl/pairing/start"@ {
        Some(ControlMethod::PairingStart)
    } else if name == "remoteControl/pairing/status"@ {
        Some(ControlMethod::PairingStatus)
    } else if name == "remoteControl/client/list"@ {
        Some(ControlMethod::ClientList)
    } else if name == "remoteControl/client/revoke"@ {
        Some(ControlMethod::ClientRevoke)
    } else {
        None
    }
}

/// An error that a request is answered with.
pub fn rpc_error(code: i64, message: &str) -> (r: RpcError)
    ensures
        r@ == (RpcErrorView { code, message: message@ }),
{
    RpcError { code, message: message.to_owned() }
}

/// The answer to a message that is no request. It bears the identifier zero.
pub fn not_a_request() -> (r: (RequestId, RpcError))
    ensures
        r.0@ == RequestIdView::Integer(0),
        r.1@ == (RpcErrorView {
            code: INVALID_REQUEST,
            message: "relay control expects a JSON-RPC request"@,
        }),
{
    (
        RequestId::Integer(0),
        rpc_error(INVALID_REQUEST, "relay control expects a JSON-RPC request"),
    )
}

/// The error for a method that is not known.
pub open spec fn unknown_method(name: Seq<char>) -> RpcErrorView {
    RpcErrorView {
        code: METHOD_NOT_FOUND,
        message: "unsupported relay control method: "@ + name,
    }
}

/// Finds out what a request asks for.
pub fn control_method(name: &str) -> (r: Result<ControlMethod, RpcError>)
    ensures
        match method_named(name@) {
            Some(method) => r == Ok::<ControlMethod, RpcError>(method),
            None => r matches Err(e) && e@ == unknown_method(name@),
        },
{
    if text::same_text(name, "remoteControl/enable") {
        Ok(ControlMethod::Enable)
    } else if text::same_text(name, "remoteControl/disable") {
        Ok(ControlMethod::Disable)
    } else if text::same_text(name, "remoteControl/status/read") {
        Ok(ControlMethod::StatusRead)
    } else if text::same_text(name, "remoteControl/pairing/start") {
        Ok(ControlMethod::PairingStart)
    } else if text::same_text(name, "remoteControl/pairing/status") {
        Ok(ControlMethod::PairingStatus)
    } else if text::same_text(name, "remoteControl/client/list") {
        Ok(ControlMethod::ClientList)
    } else if text::same_text(name, "remoteControl/client/revoke") {
        Ok(ControlMethod::ClientRevoke)
    } else {
        let mut message = "unsupported relay control method: ".to_owned();
        message.append(name);
        Err(RpcError { code: METHOD_NOT_FOUND, message })
    }
}

/// The error for the status of a pairing that is not asked for by one code.
pub open spec fn pairing_error() -> RpcErrorView {
    RpcErrorView {
        code: INVALID_PARAMS,
        message: "pairing status requires exactly one pairing code"@,
    }
}

/// Whether a request is for something ephemeral.
pub open spec fn is_ephemeral(params: ControlParamsView) -> bool {
    params matches ControlParamsView::Toggle { ephemeral } && ephemeral
}

/// Whether the status of a pairing is asked for by exactly one code.
pub open spec fn has_one_code(params: ControlParamsView) -> bool {
    params matches ControlParamsView::Pairing { pairing_code, manual_pairing_code }
        && pairing_code is Some != manual_pairing_code is Some
}

/// What the remote control is told to do on a request. Reading the status takes no
/// parameters; for everything else they have to be of the right form.
pub open spec fn planned_action(
    method: ControlMethod,
    params: Result<ControlParamsView, Seq<char>>,
) -> Result<ControlAction, RpcErrorView> {
    match (method, params) {
        (ControlMethod::StatusRead, _) => Ok(ControlAction::ReadStatus),
        (_, Err(message)) => Err(RpcErrorView { code: INVALID_PARAMS, message }),
        (ControlMethod::Enable, Ok(p)) => Ok(
            if is_ephemeral(p) {
                ControlAction::EnableEphemeral
            } else {
                ControlAction::Enable
            },
        ),
        (ControlMethod::Disable, Ok(p)) => Ok(
            if is_ephemeral(p) {
                ControlAction::DisableEphemeral
            } else {
                ControlAction::Disable
            },
        ),
        (ControlMethod::PairingStart, Ok(_)) => Ok(ControlAction::StartPairing),
        (ControlMethod::PairingStatus, Ok(p)) => if has_one_code(p) {
            Ok(ControlAction::ReadPairingStatus)
        } else {
            Err(pairing_error())
        },
        (ControlMethod::ClientList, Ok(_)) => Ok(ControlAction::ListClients),
        (ControlMethod::ClientRevoke, Ok(_)) => Ok(ControlAction::RevokeClient),
    }
}

/// The parameters by their models.
pub open spec fn params_view(params: Result<ControlParams, String>) -> Result<
    ControlParamsView,
    Seq<char>,
> {
    match params {
        Ok(p) => Ok(p@),
        Err(message) => Err(message@),
    }
}

fn asks_ephemeral(params: &ControlParams) -> (r: bool)
    ensures
        r == is_ephemeral(params@),
{
    match params {
        ControlParams::Toggle { ephemeral } => *ephemeral,
        _ => false,
    }
}

fn gives_one_code(params: &ControlParams) -> (r: bool)
    ensures
        r == has_one_code(params@),
{
    match params {
        ControlParams::Pairing { pairing_code, manual_pairing_code } => pairing_code.is_some()
            != manual_pairing_code.is_some(),
        _ => false,
    }
}

/// Decides what the remote control is told to do on a request. What could not be
/// decoded of its parameters comes as the decoder's message.
pub fn plan_action(method: ControlMethod, params: Result<ControlParams, String>) -> (r: Result<
    ControlAction,
    RpcError,
>)
    ensures
        match planned_action(method, params_view(params)) {
            Ok(action) => r == Ok::<ControlAction, RpcError>(action),
            Err(error) => r matches Err(e) && e@ == error,
        },
{
    if method == ControlMethod::StatusRead {
        return Ok(ControlAction::ReadStatus);
    }
    let params = match params {
        Ok(p) => p,
        Err(message) => {
            return Err(RpcError { code: INVALID_PARAMS, message });
        },
    };
    match method {
        ControlMethod::StatusRead => Ok(ControlAction::ReadStatus),
        ControlMethod::Enable => if asks_ephemeral(&params) {
            Ok(ControlAction::EnableEphemeral)
        } else {
            Ok(ControlAction::Enable)
        },
        ControlMethod::Disable => if asks_ephemeral(&params) {
            Ok(ControlAction::DisableEphemeral)
        } else {
            Ok(ControlAction::Disable)
        },
        ControlMethod::PairingStart => Ok(ControlAction::StartPairing),
        ControlMethod::PairingStatus => if gives_one_code(&params) {
            Ok(ControlAction::ReadPairingStatus)
        } else {
            Err(rpc_error(INVALID_PARAMS, "pairing status requires exactly one pairing code"))
        },
        ControlMethod::ClientList => Ok(ControlAction::ListClients),
        ControlMethod::ClientRevoke => Ok(ControlAction::RevokeClient),
    }
}

/// The error for something that was asked for and has failed.
pub fn failed_action(message: &str) -> (r: RpcError)
    ensures
        r@ == (RpcErrorView { code: INTERNAL_ERROR, message: message@ }),
{
    rpc_error(INTERNAL_ERROR, message)
}

/// The name that is kept of one that is given.
pub open spec fn kept_name(given: Option<Seq<char>>) -> Option<Seq<char>> {
    match given {
        Some(name) if !text::is_blank(name) => Some(name),
        _ => None,
    }
}

/// The name under which the relay finds the host's enrollment; a blank one counts
/// as none.
pub fn client_name(given: Option<String>) -> (r: Option<String>)
    ensures
        r == (match given {
            Some(name) if !text::is_blank(name@) => Some(name),
            _ => None,
        }),
        r.deep_view() == kept_name(given.deep_view()),
{
    match given {
        Some(name) => if text::blank(name.as_str()) {
            None
        } else {
            Some(name)
        },
        None => None,
    }
}

/// Whether the remote control may be used.
#[derive(Debug, Clone, Copy, PartialEq, Eq, Structural)]
pub enum RemoteControlPolicy {
    Allowed,
    DisabledByRequirements,
}

/// Whether the remote control may be used, by what the requirements say of it.
pub open spec fn policy_for(allow_remote_control: Option<bool>) -> RemoteControlPolicy {
    if allow_remote_control == Some(false) {
        RemoteControlPolicy::DisabledByRequirements
    } else {
        RemoteControlPolicy::Allowed
    }
}

/// Decides whether the remote control may be used. It may unless a requirement
/// says otherwise.
pub fn remote_control_policy(allow_remote_control: Option<bool>) -> (r: RemoteControlPolicy)
    ensures
        r == policy_for(allow_remote_control),
{
    match allow_remote_control {
        Some(false) => RemoteControlPolicy::DisabledByRequirements,
        _ => RemoteControlPolicy::Allowed,
    }
}

/// What comes to the relay.
#[derive(Debug, Clone, Copy, PartialEq, Eq, Structural)]
pub enum RelayEvent {
    /// The host sends a message to a connection.
    HostMessage { connection: u64 },
    /// The host sends a control request.
    HostControl,
    /// The host sends something that cannot be read.
    HostNoise,
    /// The host has gone.
    HostClosed,
    ConnectionOpened { connection: u64 },
    ConnectionClosed { connection: u64 },
    /// A connection sends a message.
    ConnectionMessage { connection: u64 },
    /// The remote control has gone.
    RemoteClosed,
}

/// What the relay does.
#[derive(Debug, Clone, Copy, PartialEq, Eq, Structural)]
pub enum RelayAction {
    Nothing,
    /// The host's message goes to the connection.
    Forward { connection: u64 },
    /// The control request is answered.
    AnswerControl,
    /// The host is told that the connection is open.
    TellOpen { connection: u64 },
    /// The host is told that the connection is closed.
    TellClosed { connection: u64 },
    /// The connection's message goes to the host.
    TellMessage { connection: u64 },
    /// The relay ends.
    Stop,
}

/// What the relay does when something comes, with some connections open.
pub open spec fn relay_action(open: Set<u64>, event: RelayEvent) -> RelayAction {
    match event {
        RelayEvent::HostMessage { connection } => if open.contains(connection) {
            RelayAction::Forward { connection }
        } else {
            RelayAction::Nothing
        },
        RelayEvent::HostControl => RelayAction::AnswerControl,
        RelayEvent::HostNoise => RelayAction::Nothing,
        RelayEvent::HostClosed => RelayAction::Stop,
        RelayEvent::ConnectionOpened { connection } => RelayAction::TellOpen { connection },
        RelayEvent::ConnectionClosed { connection } => RelayAction::TellClosed { connection },
        RelayEvent::ConnectionMessage { connection } => RelayAction::TellMessage { connection },
        RelayEvent::RemoteClosed => RelayAction::Stop,
    }
}

/// Which connections are open after something came.
pub open spec fn relay_open(open: Set<u64>, event: RelayEvent) -> Set<u64> {
    match event {
        RelayEvent::ConnectionOpened { connection } => open.insert(connection),
        RelayEvent::ConnectionClosed { connection } => open.remove(connection),
        _ => open,
    }
}

/// The connections of a relay.
#[derive(Debug)]
pub struct Relay {
    open: HashSet<u64>,
}

impl View for Relay {
    type V = Set<u64>;

    closed spec fn view(&self) -> Set<u64> {
        self.open@
    }
}

impl Relay {
    /// A relay without connections.
    pub fn new() -> (r: Self)
        ensures
            r@ == Set::<u64>::empty(),
    {
        Relay { open: HashSet::new() }
    }

    /// Decides what the relay does when something comes.
    pub fn step(&mut self, event: RelayEvent) -> (r: RelayAction)
        ensures
            r == relay_action(old(self)@, event),
            final(self)@ == relay_open(old(self)@, event),
    {
        match event {
            RelayEvent::HostMessage { connection } => if self.open.contains(&connection) {
                RelayAction::Forward { connection }
            } else {
                RelayAction::Nothing
            },
            RelayEvent::HostControl => RelayAction::AnswerControl,
            RelayEvent::HostNoise => RelayAction::Nothing,
            RelayEvent::HostClosed => RelayAction::Stop,
            RelayEvent::ConnectionOpened { connection } => {
                self.open.insert(connection);
                RelayAction::TellOpen { connection }
            },
            RelayEvent::ConnectionClosed { connection } => {
                self.open.remove(&connection);
                RelayAction::TellClosed { connection }
            },
            RelayEvent::ConnectionMessage { connection } => {
                RelayAction::TellMessage { connection }
            },
            RelayEvent::RemoteClosed => RelayAction::Stop,
        }
    }
}

/// Which connections are open after a row of events.
pub open spec fn run_relay(events: Seq<RelayEvent>) -> Set<u64>
    decreases events.len(),
{
    if events.len() == 0 {
        Set::empty()
    } else {
        relay_open(run_relay(events.drop_last()), events.last())
    }
}

/// Whether a connection was opened, and not closed since.
pub open spec fn opened_last(events: Seq<RelayEvent>, connection: u64) -> bool {
    exists|i: int|
        0 <= i < events.len() && #[trigger] events[i] == (RelayEvent::ConnectionOpened {
            connection,
        }) && (forall|j: int|
            i < j < events.len() ==> #[trigger] events[j] != (RelayEvent::ConnectionClosed {
                connection,
            }))
}

/// The host's messages go to the connections that were opened and not closed
/// since, and to no others.
pub proof fn law_messages_reach_open_connections(events: Seq<RelayEvent>, connection: u64)
    ensures
        run_relay(events).contains(connection) == opened_last(events, connection),
        relay_action(run_relay(events), RelayEvent::HostMessage { connection }) == (if opened_last(
            events,
            connection,
        ) {
            RelayAction::Forward { connection }
        } else {
            RelayAction::Nothing
        }),
    decreases events.len(),
{
    if events.len() > 0 {
        let front = events.drop_last();
        let n = events.len() - 1;
        law_messages_reach_open_connections(front, connection);
        if opened_last(front, connection) && events.last() != (RelayEvent::ConnectionClosed {
            connection,
        }) {
            let i = choose|i: int|
                0 <= i < front.len() && #[trigger] front[i] == (RelayEvent::ConnectionOpened {
                    connection,
                }) && (forall|j: int|
                    i < j < front.len() ==> #[trigger] front[j] != (
                    RelayEvent::ConnectionClosed { connection }));
            assert(events[i] == front[i]);
            assert forall|j: int| i < j < events.len() implies #[trigger] events[j] != (
            RelayEvent::ConnectionClosed { connection }) by {
                if j < n {
                    assert(front[j] == events[j]);
                }
            }
            assert(opened_last(events, connection));
        }
        if events.last() == (RelayEvent::ConnectionOpened { connection }) {
            assert(events[n as int] == events.last());
            assert(opened_last(events, connection));
        }
        if opened_last(events, connection) {
            let i = choose|i: int|
                0 <= i < events.len() && #[trigger] events[i] == (RelayEvent::ConnectionOpened {
                    connection,
                }) && (forall|j: int|
                    i < j < events.len() ==> #[trigger] events[j] != (
                    RelayEvent::ConnectionClosed { connection }));
            if i < n {
                assert(front[i] == events[i]);
                assert forall|j: int| i < j < front.len() implies #[trigger] front[j] != (
                RelayEvent::ConnectionClosed { connection }) by {
                    assert(front[j] == events[j]);
                }
                assert(opened_last(front, connection));
                assert(events[n as int] != (RelayEvent::ConnectionClosed { connection }));
            }
        }
    }
}

/// Each method has its name; any other name is answered as an unknown method.
pub proof fn law_methods_have_their_names(name: Seq<char>)
    ensures
        method_named(name) == Some(ControlMethod::Enable) <==> name == "remoteControl/enable"@,
        method_named(name) == Some(ControlMethod::Disable) <==> name == "remoteControl/disable"@,
        method_named(name) == Some(ControlMethod::StatusRead) <==> name
            == "remoteControl/status/read"@,
        method_named(name) == Some(ControlMethod::PairingStart) <==> name
            == "remoteControl/pairing/start"@,
        method_named(name) == Some(ControlMethod::PairingStatus) <==> name
            == "remoteControl/pairing/status"@,
        method_named(name) == Some(ControlMethod::ClientList) <==> name
            == "remoteControl/client/list"@,
        method_named(name) == Some(ControlMethod::ClientRevoke) <==> name
            == "remoteControl/client/revoke"@,
        unknown_method(name).code == -32601,
{
    reveal_strlit("remoteControl/enable");
    reveal_strlit("remoteControl/disable");
    reveal_strlit("remoteControl/status/read");
    reveal_strlit("remoteControl/pairing/start");
    reveal_strlit("remoteControl/pairing/status");
    reveal_strlit("remoteControl/client/list");
    reveal_strlit("remoteControl/client/revoke");
    assert("remoteControl/enable"@.len() == 20);
    assert("remoteControl/disable"@.len() == 21);
    assert("remoteControl/status/read"@.len() == 25);
    assert("remoteControl/pairing/start"@.len() == 27);
    assert("remoteControl/pairing/status"@.len() == 28);
    assert("remoteControl/client/list"@.len() == 25);
    assert("remoteControl/client/revoke"@.len() == 27);
    assert("remoteControl/status/read"@[14] == 's' && "remoteControl/client/list"@[14] == 'c');
    assert("remoteControl/pairing/start"@[14] == 'p' && "remoteControl/client/revoke"@[14] == 'c');
}

/// A method does what it is for. Parameters that cannot be read are an error for every
/// method but the one that reads none. Enabling and disabling go by whether they are to
/// last. The status of a pairing is asked for by exactly one code.
pub proof fn law_methods_do_what_they_are_for(
    params: ControlParamsView,
    message: Seq<char>,
    ephemeral: bool,
    code: Option<Seq<char>>,
    manual: Option<Seq<char>>,
    method: ControlMethod,
)
    ensures
        planned_action(ControlMethod::StatusRead, Ok(params)) == Ok::<ControlAction, RpcErrorView>(
            ControlAction::ReadStatus,
        ),
        planned_action(ControlMethod::StatusRead, Err(message)) == Ok::<
            ControlAction,
            RpcErrorView,
        >(ControlAction::ReadStatus),
        method != ControlMethod::StatusRead ==> (planned_action(
            method,
            Err(message),
        ) matches Err(error) && error.code == -32602 && error.message == message),
        planned_action(
            ControlMethod::Enable,
            Ok(ControlParamsView::Toggle { ephemeral }),
        ) == Ok::<ControlAction, RpcErrorView>(
            if ephemeral {
                ControlAction::EnableEphemeral
            } else {
                ControlAction::Enable
            },
        ),
        planned_action(
            ControlMethod::Disable,
            Ok(ControlParamsView::Toggle { ephemeral }),
        ) == Ok::<ControlAction, RpcErrorView>(
            if ephemeral {
                ControlAction::DisableEphemeral
            } else {
                ControlAction::Disable
            },
        ),
        planned_action(ControlMethod::PairingStart, Ok(params)) == Ok::<
            ControlAction,
            RpcErrorView,
        >(ControlAction::StartPairing),
        planned_action(ControlMethod::ClientList, Ok(params)) == Ok::<ControlAction, RpcErrorView>(
            ControlAction::ListClients,
        ),
        planned_action(ControlMethod::ClientRevoke, Ok(params)) == Ok::<
            ControlAction,
            RpcErrorView,
        >(ControlAction::RevokeClient),
        ({
            let answer = planned_action(
                ControlMethod::PairingStatus,
                Ok(
                    ControlParamsView::Pairing { pairing_code: code, manual_pairing_code: manual },
                ),
            );
            &&& code is Some && manual is None || code is None && manual is Some ==> answer
                == Ok::<ControlAction, RpcErrorView>(ControlAction::ReadPairingStatus)
            &&& code is Some && manual is Some || code is None && manual is None ==> (
            answer matches Err(error) && error.code == -32602 && error.message
                == "pairing status requires exactly one pairing code"@)
        }),
{
}

/// What comes from a connection is told to the host with the connection it came from,
/// what the host controls is answered, noise is passed over, and the relay stops when
/// either side has gone. A connection is open from when it opened until it closed, and no
/// other event changes that.
pub proof fn law_the_relay_tells_what_happens(open: Set<u64>, connection: u64, other: u64)
    ensures
        relay_action(open, RelayEvent::ConnectionOpened { connection }) == (RelayAction::TellOpen {
            connection,
        }),
        relay_action(open, RelayEvent::ConnectionClosed { connection }) == (
        RelayAction::TellClosed { connection }),
        relay_action(open, RelayEvent::ConnectionMessage { connection }) == (
        RelayAction::TellMessage { connection }),
        relay_action(open, RelayEvent::HostControl) == RelayAction::AnswerControl,
        relay_action(open, RelayEvent::HostNoise) == RelayAction::Nothing,
        relay_action(open, RelayEvent::HostClosed) == RelayAction::Stop,
        relay_action(open, RelayEvent::RemoteClosed) == RelayAction::Stop,
        open.contains(connection) ==> relay_action(
            open,
            RelayEvent::HostMessage { connection },
        ) == (RelayAction::Forward { connection }),
        !open.contains(connection) ==> relay_action(
            open,
            RelayEvent::HostMessage { connection },
        ) == RelayAction::Nothing,
        relay_open(open, RelayEvent::ConnectionOpened { connection }).contains(connection),
        !relay_open(open, RelayEvent::ConnectionClosed { connection }).contains(connection),
        other != connection ==> relay_open(
            open,
            RelayEvent::ConnectionOpened { connection },
        ).contains(other) == open.contains(other) && relay_open(
            open,
            RelayEvent::ConnectionClosed { connection },
        ).contains(other) == open.contains(other),
        relay_open(open, RelayEvent::HostMessage { connection }) == open,
        relay_open(open, RelayEvent::ConnectionMessage { connection }) == open,
        relay_open(open, RelayEvent::HostControl) == open,
{
}

/// The remote control may be used unless a requirement forbids it, and a name that is
/// nothing but white space is none.
pub proof fn law_only_a_requirement_forbids(allowed: Option<bool>, name: Option<Seq<char>>)
    ensures
        allowed == Some(false) ==> policy_for(allowed)
            == RemoteControlPolicy::DisabledByRequirements,
        allowed == Some(true) || allowed is None ==> policy_for(allowed)
            == RemoteControlPolicy::Allowed,
        name is None ==> kept_name(name) is None,
        name matches Some(n) ==> (kept_name(name) is None <==> forall|i: int|
            0 <= i < n.len() ==> text::is_white_space(#[trigger] n[i])),
        kept_name(name) matches Some(kept) ==> name == Some(kept),
{
}

} // verus!
