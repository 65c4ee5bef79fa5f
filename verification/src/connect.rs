//! The connection state machine.
//!
//! A client writes the SSID and the pre-shared key of a network and then
//! asks for a connection by writing the state byte. The association itself
//! is the work of the network control channel, so a write of the state runs
//! in two steps: [`ConnectService::write_state`] checks the request and says
//! what to ask of the control channel, [`ConnectService::complete_write_state`]
//! takes the answer. While a connection is being made, [`ConnectService::tick`]
//! is fed the polled link status until the link is up or the poll fails.

use vstd::prelude::*;
use crate::authorize::Authorized;
use crate::chunked::chunk;
use crate::connect::interface::unknown_address;
use crate::chunked::fits;
use crate::chunked::read;
use crate::chunked::rewritten;
use crate::chunked::spliced;
use crate::chunked::write_fixed;
use crate::chunked::write_variable;
use crate::error::ReqError;
use crate::notify::NotificationChannel;
use crate::text::str_equal;

pub mod interface;



verus! {

/// Identifier of the connection service.
pub const CONNECT_SERVICE_UUID: u128 = 0xd69a37ee1d8a4329bd2425db4af3c864;

/// Identifier of the state characteristic.
pub const STATE_CONNECT_CHAR_UUID: u128 = 0x811ce66622e04a6da50f0c78e076faa3;

/// Identifier of the SSID characteristic.
pub const SSID_CONNECT_CHAR_UUID: u128 = 0x811ce66622e04a6da50f0c78e076faa4;

/// Identifier of the pre-shared-key characteristic.
pub const PSK_CONNECT_CHAR_UUID: u128 = 0x811ce66622e04a6da50f0c78e076faa5;

/// Capacity of the SSID value.
pub const SSID_MAX_LENGTH: usize = 32;

/// Length of the pre-shared key.
pub const PSK_LENGTH: usize = 32;

/// State of the connection, as the state characteristic shows it.
#[derive(Clone, Copy, Debug, PartialEq, Eq, Structural)]
pub enum ConnectionState {
    /// Not connected and not trying to.
    Idle,
    /// A connection was asked for and the link is not up yet.
    Connect,
    /// The link is up and has an address.
    Connected,
    /// The control channel reported a failure.
    Failed,
}

impl ConnectionState {
    /// The byte that stands for the state.
    pub open spec fn code(self) -> u8 {
        match self {
            ConnectionState::Idle => 0,
            ConnectionState::Connect => 1,
            ConnectionState::Connected => 2,
            ConnectionState::Failed => 3,
        }
    }

    /// The byte that stands for the state.
    pub fn as_u8(self) -> (byte: u8)
        ensures
            byte == self.code(),
    {
        match self {
            ConnectionState::Idle => 0,
            ConnectionState::Connect => 1,
            ConnectionState::Connected => 2,
            ConnectionState::Failed => 3,
        }
    }

    /// The state that `value` stands for.
    pub fn try_from(value: u8) -> (res: Result<ConnectionState, ReqError>)
        ensures
            match res {
                Ok(state) => state.code() == value,
                Err(e) => value > 3 && e == ReqError::InvalidValue,
            },
    {
        match value {
            0u8 => Ok(ConnectionState::Idle),
            1u8 => Ok(ConnectionState::Connect),
            2u8 => Ok(ConnectionState::Connected),
            3u8 => Ok(ConnectionState::Failed),
            _ => Err(ReqError::InvalidValue),
        }
    }
}

/// What an accepted write of the state asks of the control channel.
#[derive(Clone, Copy, Debug, PartialEq, Eq, Structural)]
pub enum ConnectRequest {
    /// Associate with the network named by the SSID, with the stored key.
    Connect,
    /// Leave the current network.
    Disconnect,
}

/// Where a write of `value` leads from `state`: the state to enter while the
/// control channel is at work, or the reason for which the write is refused.
pub open spec fn state_write_target(state: ConnectionState, authorized: bool, value: Seq<u8>)
    -> Result<ConnectionState, ReqError> {
    if !authorized {
        Err(ReqError::NotAuthorized)
    } else if value.len() != 1 {
        Err(ReqError::InvalidLength)
    } else if value[0] == 0 {
        Ok(ConnectionState::Idle)
    } else if value[0] != 1 {
        Err(ReqError::InvalidValue)
    } else if state == ConnectionState::Idle || state == ConnectionState::Connected {
        Ok(ConnectionState::Connect)
    } else {
        Err(ReqError::InvalidTransition)
    }
}

/// What has to be asked of the control channel to enter `target`.
pub open spec fn request_for(target: ConnectionState) -> ConnectRequest {
    if target == ConnectionState::Connect {
        ConnectRequest::Connect
    } else {
        ConnectRequest::Disconnect
    }
}

/// The state after the control channel answered a request made in `state`.
pub open spec fn state_after_request(state: ConnectionState, succeeded: bool) -> ConnectionState {
    if succeeded {
        state
    } else {
        ConnectionState::Failed
    }
}

/// The state after a poll of the link status in `state`. Only a connection
/// in the making is polled. `status` is `None` where the poll failed, else
/// the completion flag and the address that the control channel reported.
pub open spec fn state_after_poll(state: ConnectionState, status: Option<(u8, Seq<char>)>)
    -> ConnectionState {
    if state != ConnectionState::Connect {
        state
    } else {
        match status {
            None => ConnectionState::Failed,
            Some((flag, ip)) => if flag == 1 && ip != unknown_address() {
                ConnectionState::Connected
            } else {
                ConnectionState::Connect
            },
        }
    }
}

/// What the connection service holds, as a mathematical value.
pub struct ConnectionContext<S> {
    /// Name of the wireless interface.
    pub interface: Seq<char>,
    /// The state.
    pub state: ConnectionState,
    /// SSID of the network to connect to.
    pub ssid: Seq<u8>,
    /// Pre-shared key of that network.
    pub psk: Seq<u8>,
    /// The subscriber to state changes.
    pub notifier: Option<S>,
}

impl<S> ConnectionContext<S> {
    /// The SSID is within its capacity and the key has its length.
    pub open spec fn wf(self) -> bool {
        &&& self.ssid.len() <= SSID_MAX_LENGTH
        &&& self.psk.len() == PSK_LENGTH
    }

    /// The service at startup.
    pub open spec fn initial(interface: Seq<char>) -> ConnectionContext<S> {
        ConnectionContext {
            interface,
            state: ConnectionState::Idle,
            ssid: Seq::new(SSID_MAX_LENGTH as nat, |i: int| 0u8),
            psk: Seq::new(PSK_LENGTH as nat, |i: int| 0u8),
            notifier: None,
        }
    }

    /// The same service in another state.
    pub open spec fn with_state(self, state: ConnectionState) -> ConnectionContext<S> {
        ConnectionContext { state, ..self }
    }
}

/// The connection service of one daemon. `S` is the transport's handle of a
/// notification subscriber.
pub struct ConnectService<S> {
    interface: String,
    state: ConnectionState,
    ssid: Vec<u8>,
    psk: Vec<u8>,
    notifier: NotificationChannel<S>,
}

impl<S> View for ConnectService<S> {
    type V = ConnectionContext<S>;

    closed spec fn view(&self) -> ConnectionContext<S> {
        ConnectionContext {
            interface: self.interface@,
            state: self.state,
            ssid: self.ssid@,
            psk: self.psk@,
            notifier: self.notifier@,
        }
    }
}

impl<S> ConnectService<S> {
    /// A service for the interface `interface`: idle, SSID and key zeroed,
    /// no subscriber.
    pub fn new(interface: String) -> (service: ConnectService<S>)
        ensures
            service@ == ConnectionContext::<S>::initial(interface@),
            service@.wf(),
    {
        let ssid: Vec<u8> = vec![0u8; 32];
        let psk: Vec<u8> = vec![0u8; 32];
        assert(ssid@ =~= Seq::new(SSID_MAX_LENGTH as nat, |i: int| 0u8));
        assert(psk@ =~= Seq::new(PSK_LENGTH as nat, |i: int| 0u8));
        ConnectService {
            interface,
            state: ConnectionState::Idle,
            ssid,
            psk,
            notifier: NotificationChannel::new(),
        }
    }

    /// Name of the wireless interface.
    pub fn interface(&self) -> (name: &String)
        ensures
            name@ == self@.interface,
    {
        &self.interface
    }

    /// The state.
    pub fn state(&self) -> (state: ConnectionState)
        ensures
            state == self@.state,
    {
        self.state
    }

    /// SSID of the network to connect to.
    pub fn ssid(&self) -> (ssid: &Vec<u8>)
        ensures
            ssid@ == self@.ssid,
    {
        &self.ssid
    }

    /// Pre-shared key of the network to connect to.
    pub fn psk(&self) -> (psk: &Vec<u8>)
        ensures
            psk@ == self@.psk,
    {
        &self.psk
    }

    /// Reads the state characteristic: one byte.
    pub fn read_state<A: Authorized>(&self, auth: &A) -> (res: Result<Vec<u8>, ReqError>)
        ensures
            match res {
                Ok(value) => auth.authorized() && value@ == seq![self@.state.code()],
                Err(e) => !auth.authorized() && e == ReqError::NotAuthorized,
            },
    {
        if !auth.is_authorized() {
            return Err(ReqError::NotAuthorized);
        }
        let value: Vec<u8> = vec![self.state.as_u8()];
        assert(value@ =~= seq![self@.state.code()]);
        Ok(value)
    }

    /// First step of a write of the state characteristic. A client may ask
    /// for `Idle` from every state and for `Connect` where no connection is
    /// being made or has failed. An accepted write enters the state asked
    /// for and returns what the control channel has to do; a refused write
    /// changes nothing.
    pub fn write_state<A: Authorized>(&mut self, auth: &A, new_value: &[u8]) -> (res: Result<
        ConnectRequest,
        ReqError,
    >)
        ensures
            match state_write_target(old(self)@.state, auth.authorized(), new_value@) {
                Ok(target) => res == Ok::<ConnectRequest, ReqError>(request_for(target))
                    && final(self)@ == old(self)@.with_state(target),
                Err(e) => res == Err::<ConnectRequest, ReqError>(e) && final(self)@ == old(self)@,
            },
    {
        if !auth.is_authorized() {
            return Err(ReqError::NotAuthorized);
        }
        if new_value.len() != 1 {
            return Err(ReqError::InvalidLength);
        }
        let new_state: ConnectionState = match ConnectionState::try_from(new_value[0]) {
            Ok(ConnectionState::Idle) => ConnectionState::Idle,
            Ok(ConnectionState::Connect) => ConnectionState::Connect,
            _ => {
                return Err(ReqError::InvalidValue);
            },
        };
        match (self.state, new_state) {
            (ConnectionState::Idle, ConnectionState::Connect)
            | (ConnectionState::Connected, ConnectionState::Connect) => {
                self.state = ConnectionState::Connect;
                Ok(ConnectRequest::Connect)
            },
            (_, ConnectionState::Connect) => Err(ReqError::InvalidTransition),
            (_, _) => {
                self.state = ConnectionState::Idle;
                Ok(ConnectRequest::Disconnect)
            },
        }
    }

    /// Second step of a write of the state characteristic: `outcome` is the
    /// control channel's answer to the request. On success the state stands
    /// and its byte is returned, to be pushed to the subscriber. On failure
    /// the state becomes `Failed` and the write fails.
    pub fn complete_write_state(&mut self, outcome: Result<(), String>) -> (res: Result<
        Vec<u8>,
        ReqError,
    >)
        ensures
            final(self)@ == old(self)@.with_state(
                state_after_request(old(self)@.state, outcome is Ok),
            ),
            match res {
                Ok(value) => outcome is Ok && value@ == seq![old(self)@.state.code()],
                Err(e) => outcome is Err && e == ReqError::ExternalOperationFailed,
            },
    {
        match outcome {
            Ok(_) => {
                let value: Vec<u8> = vec![self.state.as_u8()];
                assert(value@ =~= seq![self@.state.code()]);
                Ok(value)
            },
            Err(_) => {
                self.state = ConnectionState::Failed;
                Err(ReqError::ExternalOperationFailed)
            },
        }
    }

    /// Whether a connection is being made, so that the link status has to
    /// be polled for the next [`ConnectService::tick`].
    pub fn is_connecting(&self) -> (polling: bool)
        ensures
            polling == (self@.state == ConnectionState::Connect),
    {
        match self.state {
            ConnectionState::Connect => true,
            _ => false,
        }
    }

    /// Takes the polled link status. While a connection is being made, a
    /// failed poll leads to `Failed`, and a completed link with a known
    /// address leads to `Connected`; in every other case the state stands.
    /// Returns the state byte to push to the subscriber where the state
    /// changed.
    pub fn tick(&mut self, status: Result<(u8, String), String>) -> (changed: Option<Vec<u8>>)
        ensures
            final(self)@ == old(self)@.with_state(
                state_after_poll(old(self)@.state, status_view(status)),
            ),
            match changed {
                Some(value) => final(self)@.state != old(self)@.state && value@ == seq![
                    final(self)@.state.code(),
                ],
                None => final(self)@.state == old(self)@.state,
            },
    {
        if !self.is_connecting() {
            return None;
        }
        match status {
            Err(_) => {
                self.state = ConnectionState::Failed;
            },
            Ok((flag, ip)) => {
                if flag == 1u8 && !str_equal(ip.as_str(), "<unknown>") {
                    self.state = ConnectionState::Connected;
                } else {
                    return None;
                }
            },
        }
        let value: Vec<u8> = vec![self.state.as_u8()];
        assert(value@ =~= seq![self@.state.code()]);
        Some(value)
    }

    /// Makes `notifier` the subscriber to state changes.
    pub fn start_notify_state(&mut self, notifier: S)
        ensures
            final(self)@ == (ConnectionContext { notifier: Some(notifier), ..old(self)@ }),
    {
        self.notifier.subscribe(notifier);
    }

    /// First step of a push to the subscriber: whom to deliver to, if
    /// anyone.
    pub fn notify_receiver(&mut self) -> (to: Option<&mut S>)
        ensures
            match to {
                Some(s) => old(self)@.notifier == Some(*s) && final(self)@ == (ConnectionContext {
                    notifier: Some(*final(s)),
                    ..old(self)@
                }),
                None => old(self)@.notifier is None && final(self)@ == old(self)@,
            },
    {
        self.notifier.receiver()
    }

    /// Second step of a push: after a failed delivery the subscriber is
    /// dropped.
    pub fn notify_settle(&mut self, delivered: bool)
        ensures
            delivered ==> final(self)@ == old(self)@,
            !delivered ==> final(self)@ == (ConnectionContext { notifier: None, ..old(self)@ }),
    {
        self.notifier.settle(delivered);
    }

    /// Reads a piece of the SSID.
    pub fn read_ssid<A: Authorized>(&self, auth: &A, offset: usize, mtu: usize) -> (res: Result<
        Vec<u8>,
        ReqError,
    >)
        ensures
            match res {
                Ok(value) => auth.authorized() && offset <= self@.ssid.len() && value@ == chunk(
                    self@.ssid,
                    offset as int,
                    mtu as int,
                ),
                Err(e) => e == if !auth.authorized() {
                    ReqError::NotAuthorized
                } else {
                    ReqError::InvalidOffset
                } && (auth.authorized() ==> offset > self@.ssid.len()),
            },
    {
        if !auth.is_authorized() {
            return Err(ReqError::NotAuthorized);
        }
        read(&self.ssid, offset, mtu)
    }

    /// Writes a piece of the SSID. A write at offset zero starts a new
    /// SSID, so that nothing of a longer one written before is left over;
    /// later pieces continue it.
    pub fn write_ssid<A: Authorized>(&mut self, auth: &A, offset: usize, new_value: &[u8]) -> (res:
        Result<(), ReqError>)
        requires
            old(self)@.wf(),
        ensures
            final(self)@.wf(),
            match res {
                Ok(_) => auth.authorized() && ssid_write_error(
                    old(self)@.ssid,
                    offset as int,
                    new_value@,
                ) is None && final(self)@ == (ConnectionContext {
                    ssid: rewritten(old(self)@.ssid, offset as int, new_value@),
                    ..old(self)@
                }),
                Err(e) => final(self)@ == old(self)@ && Some(e) == if !auth.authorized() {
                    Some(ReqError::NotAuthorized)
                } else {
                    ssid_write_error(old(self)@.ssid, offset as int, new_value@)
                },
            },
    {
        if !auth.is_authorized() {
            return Err(ReqError::NotAuthorized);
        }
        write_variable(&mut self.ssid, SSID_MAX_LENGTH, offset, new_value)
    }

    /// Writes a piece of the pre-shared key.
    pub fn write_psk<A: Authorized>(&mut self, auth: &A, offset: usize, new_value: &[u8]) -> (res:
        Result<(), ReqError>)
        requires
            old(self)@.wf(),
        ensures
            final(self)@.wf(),
            match res {
                Ok(_) => auth.authorized() && fits(
                    PSK_LENGTH as int,
                    offset as int,
                    new_value@.len() as int,
                ) && final(self)@ == (ConnectionContext {
                    psk: spliced(old(self)@.psk, offset as int, new_value@),
                    ..old(self)@
                }),
                Err(e) => final(self)@ == old(self)@ && e == if !auth.authorized() {
                    ReqError::NotAuthorized
                } else {
                    ReqError::InvalidLength
                } && (auth.authorized() ==> !fits(
                    PSK_LENGTH as int,
                    offset as int,
                    new_value@.len() as int,
                )),
            },
    {
        if !auth.is_authorized() {
            return Err(ReqError::NotAuthorized);
        }
        write_fixed(&mut self.psk, offset, new_value)
    }
}

/// From `Idle` and from `Connected` an authorized write of 1 is accepted and
/// asks for a connection; where the control channel then fails, the state
/// is `Failed`. Once a write of 1 was accepted, a second one is refused as
/// a transition that is not allowed, whatever the control channel answered
/// to the first, until the state is `Idle` or `Connected` again.
pub proof fn lemma_connect_requests(state: ConnectionState, succeeded: bool)
    ensures
        state_write_target(ConnectionState::Idle, true, seq![1u8]) == Ok::<
            ConnectionState,
            ReqError,
        >(ConnectionState::Connect),
        state_write_target(ConnectionState::Connected, true, seq![1u8]) == Ok::<
            ConnectionState,
            ReqError,
        >(ConnectionState::Connect),
        request_for(ConnectionState::Connect) == ConnectRequest::Connect,
        state_after_request(ConnectionState::Connect, false) == ConnectionState::Failed,
        state_write_target(state, true, seq![1u8]) matches Ok(target) ==> state_write_target(
            state_after_request(target, succeeded),
            true,
            seq![1u8],
        ) == Err::<ConnectionState, ReqError>(ReqError::InvalidTransition),
{
}

/// Without authorization every write of the state is refused for that
/// reason, whatever is written, and with it a write of anything but one
/// byte that is 0 or 1 is refused.
pub proof fn lemma_state_write_refusals(state: ConnectionState, authorized: bool, value: Seq<u8>)
    ensures
        !authorized ==> state_write_target(state, authorized, value) == Err::<
            ConnectionState,
            ReqError,
        >(ReqError::NotAuthorized),
        state_write_target(state, authorized, value) matches Ok(target) ==> authorized
            && value.len() == 1 && value[0] == target.code() && (target == ConnectionState::Idle
            || target == ConnectionState::Connect),
{
}

/// The polled link status as a mathematical value: nothing where the poll
/// failed.
pub open spec fn status_view(status: Result<(u8, String), String>) -> Option<(u8, Seq<char>)> {
    match status {
        Ok((flag, ip)) => Some((flag, ip@)),
        Err(_) => None,
    }
}

/// Why a write of `bytes` at `offset` to the SSID `ssid` is refused, if it
/// is: it does not fit the capacity, or it starts beyond the end of what was
/// written so far.
pub open spec fn ssid_write_error(ssid: Seq<u8>, offset: int, bytes: Seq<u8>) -> Option<ReqError> {
    if !fits(SSID_MAX_LENGTH as int, offset, bytes.len() as int) {
        Some(ReqError::InvalidLength)
    } else if offset > ssid.len() {
        Some(ReqError::InvalidOffset)
    } else {
        None
    }
}

} // verus!
