//! The scan state machine.
//!
//! A client starts a scan by writing the status byte. The scan itself is
//! the work of the network control channel, so the write runs in two steps:
//! [`ScanService::write_status`] checks the request and
//! [`ScanService::complete_scan`] takes the outcome. The result of a scan is
//! a byte string of any length. It is cut into pages of
//! [`RESULT_FIELD_LENGTH`] bytes; the client selects a page by its index
//! and reads it through the result characteristic.

use vstd::prelude::*;
use vstd::slice::slice_subrange;
use vstd::slice::slice_to_vec;
use crate::authorize::Authorized;
use crate::chunked::chunk;
use crate::chunked::read;
use crate::error::ReqError;
use crate::notify::NotificationChannel;

pub mod scan;
pub mod scan_utils;

verus! {

/// Identifier of the scan service.
pub const SCAN_SERVICE_UUID: u128 = 0xd69a37ee1d8a4329bd2425db4af3c863;

/// Identifier of the status characteristic.
pub const STATUS_SCAN_CHAR_UUID: u128 = 0x811ce66622e04a6da50f0c78e076faa0;

/// Identifier of the select characteristic.
pub const SELECT_SCAN_CHAR_UUID: u128 = 0x811ce66622e04a6da50f0c78e076faa1;

/// Identifier of the result characteristic.
pub const RESULT_SCAN_CHAR_UUID: u128 = 0x811ce66622e04a6da50f0c78e076faa2;

/// Length of a page of the scan result.
pub const RESULT_FIELD_LENGTH: usize = 100;

/// One more than the largest number of pages: the index of a page is one
/// byte, and so is the number of pages.
pub const RECORDS_LIMIT: usize = 255;

/// State of a scan, as the status characteristic shows it.
#[derive(Clone, Copy, Debug, PartialEq, Eq, Structural)]
pub enum ScanState {
    /// No scan was asked for, or its result was discarded.
    Idle,
    /// A scan is running.
    Scan,
    /// A scan has finished and its result can be read.
    Finished,
    /// A scan has failed.
    Error,
}

impl ScanState {
    /// The byte that stands for the state.
    pub open spec fn code(self) -> u8 {
        match self {
            ScanState::Idle => 0,
            ScanState::Scan => 1,
            ScanState::Finished => 2,
            ScanState::Error => 3,
        }
    }

    /// The byte that stands for the state.
    pub fn as_u8(self) -> (byte: u8)
        ensures
            byte == self.code(),
    {
        match self {
            ScanState::Idle => 0,
            ScanState::Scan => 1,
            ScanState::Finished => 2,
            ScanState::Error => 3,
        }
    }

    /// The state that `value` stands for.
    pub fn try_from(value: u8) -> (res: Result<ScanState, ReqError>)
        ensures
            match res {
                Ok(state) => state.code() == value,
                Err(e) => value > 3 && e == ReqError::InvalidValue,
            },
    {
        match value {
            0u8 => Ok(ScanState::Idle),
            1u8 => Ok(ScanState::Scan),
            2u8 => Ok(ScanState::Finished),
            3u8 => Ok(ScanState::Error),
            _ => Err(ReqError::InvalidValue),
        }
    }
}

/// What an accepted write of the status asks for.
#[derive(Clone, Copy, Debug, PartialEq, Eq, Structural)]
pub enum ScanRequest {
    /// Run a scan and hand its outcome to [`ScanService::complete_scan`].
    Scan,
    /// Nothing: the result was discarded.
    Nothing,
}

/// Number of pages that a result of `len` bytes is cut into.
pub open spec fn page_count(len: int) -> int {
    (len + RESULT_FIELD_LENGTH - 1) / (RESULT_FIELD_LENGTH as int)
}

/// The page of `results` with the index `index`.
pub open spec fn page(results: Seq<u8>, index: int) -> Seq<u8> {
    chunk(results, index * RESULT_FIELD_LENGTH, RESULT_FIELD_LENGTH as int)
}

/// A page of zero bytes.
pub open spec fn blank_page() -> Seq<u8> {
    Seq::new(RESULT_FIELD_LENGTH as nat, |i: int| 0u8)
}

/// Where a write of `value` leads from `state`, or the reason for which the
/// write is refused.
pub open spec fn status_write_target(state: ScanState, authorized: bool, value: Seq<u8>) -> Result<
    ScanState,
    ReqError,
> {
    if !authorized {
        Err(ReqError::NotAuthorized)
    } else if value.len() != 1 {
        Err(ReqError::InvalidLength)
    } else if value[0] == 0 {
        Ok(ScanState::Idle)
    } else if value[0] != 1 {
        Err(ReqError::InvalidValue)
    } else if state == ScanState::Idle {
        Ok(ScanState::Scan)
    } else {
        Err(ReqError::InvalidTransition)
    }
}

/// Why a write of `value` to the select characteristic is refused, if it
/// is, with `count` pages at hand.
pub open spec fn select_write_error(count: u8, authorized: bool, value: Seq<u8>) -> Option<
    ReqError,
> {
    if !authorized {
        Some(ReqError::NotAuthorized)
    } else if value.len() != 1 {
        Some(ReqError::InvalidLength)
    } else if value[0] >= count {
        Some(ReqError::InvalidTransition)
    } else {
        None
    }
}

/// What the scan service holds, as a mathematical value.
pub struct ScanContext<S> {
    /// Name of the wireless interface.
    pub interface: Seq<char>,
    /// The state.
    pub state: ScanState,
    /// The whole result of the last scan.
    pub results: Seq<u8>,
    /// Number of pages of the result.
    pub page_count: u8,
    /// The value of the select characteristic: the index of the page that
    /// was selected last or, right after a scan, the number of pages.
    pub selected: u8,
    /// The page that the result characteristic shows.
    pub current_page: Seq<u8>,
    /// The subscriber to status changes.
    pub notifier: Option<S>,
}

impl<S> ScanContext<S> {
    /// The pages that can be selected lie within the result, the select
    /// value does not exceed their number, and the page shown is no longer
    /// than a page.
    pub open spec fn wf(self) -> bool {
        &&& self.page_count == 0 || self.page_count == page_count(self.results.len() as int)
        &&& self.page_count < RECORDS_LIMIT
        &&& self.selected <= self.page_count
        &&& self.current_page.len() <= RESULT_FIELD_LENGTH
    }

    /// The service at startup.
    pub open spec fn initial(interface: Seq<char>) -> ScanContext<S> {
        ScanContext {
            interface,
            state: ScanState::Idle,
            results: Seq::empty(),
            page_count: 0,
            selected: 0,
            current_page: blank_page(),
            notifier: None,
        }
    }

    /// The service after an accepted write of the status that leads to
    /// `target`. On the way to `Idle` the result is discarded.
    pub open spec fn entered(self, target: ScanState) -> ScanContext<S> {
        if target == ScanState::Idle {
            ScanContext {
                state: ScanState::Idle,
                results: blank_page(),
                page_count: 0,
                selected: 0,
                ..self
            }
        } else {
            ScanContext { state: target, ..self }
        }
    }

    /// The service after a scan: `outcome` is its result, or nothing where
    /// it failed. A result of too many pages is not taken.
    pub open spec fn scanned(self, outcome: Option<Seq<u8>>) -> ScanContext<S> {
        match outcome {
            Some(results) if page_count(results.len() as int) < RECORDS_LIMIT => ScanContext {
                state: ScanState::Finished,
                results,
                page_count: page_count(results.len() as int) as u8,
                selected: page_count(results.len() as int) as u8,
                ..self
            },
            _ => ScanContext { state: ScanState::Error, ..self },
        }
    }

    /// The service after the page `index` was selected.
    pub open spec fn selecting(self, index: u8) -> ScanContext<S> {
        ScanContext { selected: index, current_page: page(self.results, index as int), ..self }
    }
}

/// The outcome of a scan as a mathematical value: nothing where it failed.
pub open spec fn outcome_view(outcome: Result<Vec<u8>, String>) -> Option<Seq<u8>> {
    match outcome {
        Ok(results) => Some(results@),
        Err(_) => None,
    }
}

/// The scan service of one daemon. `S` is the transport's handle of a
/// notification subscriber.
pub struct ScanService<S> {
    interface: String,
    status: ScanState,
    result_page: Vec<u8>,
    results: Vec<u8>,
    select_max_records: u8,
    select: u8,
    notifier: NotificationChannel<S>,
}

impl<S> View for ScanService<S> {
    type V = ScanContext<S>;

    closed spec fn view(&self) -> ScanContext<S> {
        ScanContext {
            interface: self.interface@,
            state: self.status,
            results: self.results@,
            page_count: self.select_max_records,
            selected: self.select,
            current_page: self.result_page@,
            notifier: self.notifier@,
        }
    }
}

impl<S> ScanService<S> {
    /// A service for the interface `interface`: idle, without result and
    /// without subscriber.
    pub fn new(interface: String) -> (service: ScanService<S>)
        ensures
            service@ == ScanContext::<S>::initial(interface@),
            service@.wf(),
    {
        let result_page: Vec<u8> = vec![0u8; 100];
        assert(result_page@ =~= blank_page());
        ScanService {
            interface,
            status: ScanState::Idle,
            result_page,
            results: Vec::new(),
            select_max_records: 0,
            select: 0,
            notifier: NotificationChannel::new(),
        }
    }

    /// Name of the wireless interface.
    pub fn interface(&self) -> (name: &String)
        ensures
            name@ == self@.interface,
    {
        &self.interface
    }

    /// The state.
    pub fn state(&self) -> (state: ScanState)
        ensures
            state == self@.state,
    {
        self.status
    }

    /// Reads a piece of the page that was selected last.
    pub fn read_result<A: Authorized>(&self, auth: &A, offset: usize, mtu: usize) -> (res: Result<
        Vec<u8>,
        ReqError,
    >)
        ensures
            match res {
                Ok(value) => auth.authorized() && offset <= self@.current_page.len() && value@
                    == chunk(self@.current_page, offset as int, mtu as int),
                Err(e) => e == if !auth.authorized() {
                    ReqError::NotAuthorized
                } else {
                    ReqError::InvalidOffset
                } && (auth.authorized() ==> offset > self@.current_page.len()),
            },
    {
        if !auth.is_authorized() {
            return Err(ReqError::NotAuthorized);
        }
        read(&self.result_page, offset, mtu)
    }

    /// Reads the status characteristic: one byte.
    pub fn read_status<A: Authorized>(&self, auth: &A) -> (res: Result<Vec<u8>, ReqError>)
        ensures
            match res {
                Ok(value) => auth.authorized() && value@ == seq![self@.state.code()],
                Err(e) => !auth.authorized() && e == ReqError::NotAuthorized,
            },
    {
        if !auth.is_authorized() {
            return Err(ReqError::NotAuthorized);
        }
        let value: Vec<u8> = vec![self.status.as_u8()];
        assert(value@ =~= seq![self@.state.code()]);
        Ok(value)
    }

    /// First step of a write of the status characteristic. A client may ask
    /// for `Idle` from every state, which discards the result, and for a
    /// scan from `Idle`. A refused write changes nothing.
    pub fn write_status<A: Authorized>(&mut self, auth: &A, new_value: &[u8]) -> (res: Result<
        ScanRequest,
        ReqError,
    >)
        requires
            old(self)@.wf(),
        ensures
            final(self)@.wf(),
            match status_write_target(old(self)@.state, auth.authorized(), new_value@) {
                Ok(target) => final(self)@ == old(self)@.entered(target) && res == Ok::<
                    ScanRequest,
                    ReqError,
                >(
                    if target == ScanState::Scan {
                        ScanRequest::Scan
                    } else {
                        ScanRequest::Nothing
                    },
                ),
                Err(e) => res == Err::<ScanRequest, ReqError>(e) && final(self)@ == old(self)@,
            },
    {
        if !auth.is_authorized() {
            return Err(ReqError::NotAuthorized);
        }
        if new_value.len() != 1 {
            return Err(ReqError::InvalidLength);
        }
        let new_state: ScanState = match ScanState::try_from(new_value[0]) {
            Ok(ScanState::Idle) => ScanState::Idle,
            Ok(ScanState::Scan) => ScanState::Scan,
            _ => {
                return Err(ReqError::InvalidValue);
            },
        };
        match (self.status, new_state) {
            (ScanState::Idle, ScanState::Scan) => {
                self.status = ScanState::Scan;
                Ok(ScanRequest::Scan)
            },
            (_, ScanState::Scan) => Err(ReqError::InvalidTransition),
            (_, _) => {
                let blank: Vec<u8> = vec![0u8; 100];
                assert(blank@ =~= blank_page());
                self.status = ScanState::Idle;
                self.results = blank;
                self.select_max_records = 0;
                self.select = 0;
                Ok(ScanRequest::Nothing)
            },
        }
    }

    /// Second step of a write of the status characteristic that asked for
    /// a scan: `outcome` is the scan's result or its failure. A result of
    /// fewer than [`RECORDS_LIMIT`] pages is stored, the select value is
    /// set to the number of its pages and the state becomes `Finished`;
    /// otherwise the state becomes `Error`. Returns the state byte, which
    /// is pushed to the subscriber in either case, and what the write
    /// answers: it fails where the scan did.
    pub fn complete_scan(&mut self, outcome: Result<Vec<u8>, String>) -> (res: (
        Vec<u8>,
        Result<(), ReqError>,
    ))
        requires
            old(self)@.wf(),
        ensures
            final(self)@.wf(),
            final(self)@ == old(self)@.scanned(outcome_view(outcome)),
            res.0@ == seq![final(self)@.state.code()],
            res.1 == if outcome is Ok {
                Ok::<(), ReqError>(())
            } else {
                Err::<(), ReqError>(ReqError::ExternalOperationFailed)
            },
    {
        let answer: Result<(), ReqError> = match outcome {
            Ok(json) => {
                let len: usize = json.len();
                let max_fields: usize = len / RESULT_FIELD_LENGTH + if len % RESULT_FIELD_LENGTH
                    != 0 {
                    1usize
                } else {
                    0usize
                };
                assert(max_fields == page_count(len as int));
                if max_fields < RECORDS_LIMIT {
                    self.status = ScanState::Finished;
                    self.select_max_records = max_fields as u8;
                    self.select = max_fields as u8;
                    self.results = json;
                } else {
                    self.status = ScanState::Error;
                }
                Ok(())
            },
            Err(_) => {
                self.status = ScanState::Error;
                Err(ReqError::ExternalOperationFailed)
            },
        };
        let value: Vec<u8> = vec![self.status.as_u8()];
        assert(value@ =~= seq![self@.state.code()]);
        (value, answer)
    }

    /// Makes `notifier` the subscriber to status changes, provided an
    /// authorization is in force; without one nothing happens.
    pub fn start_notify_status<A: Authorized>(&mut self, auth: &A, notifier: S)
        ensures
            auth.authorized() ==> final(self)@ == (ScanContext {
                notifier: Some(notifier),
                ..old(self)@
            }),
            !auth.authorized() ==> final(self)@ == old(self)@,
    {
        if auth.is_authorized() {
            self.notifier.subscribe(notifier);
        }
    }

    /// First step of a push to the subscriber: whom to deliver to, if
    /// anyone.
    pub fn notify_receiver(&mut self) -> (to: Option<&mut S>)
        ensures
            match to {
                Some(s) => old(self)@.notifier == Some(*s) && final(self)@ == (ScanContext {
                    notifier: Some(*final(s)),
                    ..old(self)@
                }),
                None => old(self)@.notifier is None && final(self)@ == old(self)@,
            },
    {
        self.notifier.receiver()
    }

    /// Second step of a push: after a failed delivery the subscriber is
    /// dropped.
    pub fn notify_settle(&mut self, delivered: bool)
        ensures
            delivered ==> final(self)@ == old(self)@,
            !delivered ==> final(self)@ == (ScanContext { notifier: None, ..old(self)@ }),
    {
        self.notifier.settle(delivered);
    }

    /// Reads the select characteristic: one byte.
    pub fn read_select<A: Authorized>(&self, auth: &A) -> (res: Result<Vec<u8>, ReqError>)
        ensures
            match res {
                Ok(value) => auth.authorized() && value@ == seq![self@.selected],
                Err(e) => !auth.authorized() && e == ReqError::NotAuthorized,
            },
    {
        if !auth.is_authorized() {
            return Err(ReqError::NotAuthorized);
        }
        let value: Vec<u8> = vec![self.select];
        assert(value@ =~= seq![self@.selected]);
        Ok(value)
    }

    /// Writes the select characteristic: the page with the index written
    /// becomes the one that the result characteristic shows. An index that
    /// is not below the number of pages is refused.
    pub fn write_select<A: Authorized>(&mut self, auth: &A, new_value: &[u8]) -> (res: Result<
        (),
        ReqError,
    >)
        requires
            old(self)@.wf(),
        ensures
            final(self)@.wf(),
            match select_write_error(old(self)@.page_count, auth.authorized(), new_value@) {
                None => res is Ok && final(self)@ == old(self)@.selecting(new_value@[0]),
                Some(e) => res == Err::<(), ReqError>(e) && final(self)@ == old(self)@,
            },
    {
        if !auth.is_authorized() {
            return Err(ReqError::NotAuthorized);
        }
        if new_value.len() != 1 {
            return Err(ReqError::InvalidLength);
        }
        let index: u8 = new_value[0];
        if index >= self.select_max_records {
            return Err(ReqError::InvalidTransition);
        }
        proof {
            lemma_pages(self.results@, index as int);
        }
        let offset: usize = (index as usize) * RESULT_FIELD_LENGTH;
        let mut size: usize = RESULT_FIELD_LENGTH;
        if size > self.results.len() - offset {
            size = self.results.len() - offset;
        }
        self.result_page = slice_to_vec(
            slice_subrange(self.results.as_slice(), offset, offset + size),
        );
        self.select = index;
        Ok(())
    }
}

/// Every page below the page count starts within the result and holds at
/// least one byte and at most a page's length; all pages but the last are
/// full, and a byte of the result is found in the page and at the place
/// that its position says.
pub proof fn lemma_pages(results: Seq<u8>, index: int)
    requires
        0 <= index < page_count(results.len() as int),
    ensures
        index * RESULT_FIELD_LENGTH < results.len(),
        0 < page(results, index).len() <= RESULT_FIELD_LENGTH,
        index + 1 < page_count(results.len() as int) ==> page(results, index).len()
            == RESULT_FIELD_LENGTH,
        index + 1 == page_count(results.len() as int) ==> page(results, index).len()
            == results.len() - index * RESULT_FIELD_LENGTH,
        forall|k: int|
            0 <= k < page(results, index).len() ==> page(results, index)[k] == results[index
                * RESULT_FIELD_LENGTH + k],
{
}

/// A result is cut into just as many pages as it takes to hold it: none
/// for an empty result, and else the last page is not empty.
pub proof fn lemma_page_count(len: int)
    requires
        0 <= len,
    ensures
        len == 0 <==> page_count(len) == 0,
        (page_count(len) - 1) * RESULT_FIELD_LENGTH < len || len == 0,
        len <= page_count(len) * RESULT_FIELD_LENGTH,
        len <= (RECORDS_LIMIT - 1) * RESULT_FIELD_LENGTH <==> page_count(len) < RECORDS_LIMIT,
{
}

} // verus!
