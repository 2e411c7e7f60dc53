//! Where what a connection does meets the series it is counted under.
//!
//! Every mapping is one to one by name: a variant on either side that the other
//! lacks would be a reason nothing groups by.

use vstd::prelude::*;

use crate::event::AdapterError;

verus! {

/// Why an adapter could not read a payload.
#[derive(Debug, Clone, Copy, PartialEq, Eq, Structural)]
pub enum ParseError {
    Schema,
    UnknownField,
    Malformed,
    Truncated,
}

/// What an unreadable payload is counted under.
#[derive(Debug, Clone, Copy, PartialEq, Eq, Structural)]
pub enum ParseErrorReason {
    Schema,
    UnknownField,
    Malformed,
    Truncated,
}

/// Why a session ended.
#[derive(Debug, Clone, Copy, PartialEq, Eq, Structural)]
pub enum DisconnectReason {
    Timeout,
    RemoteClose,
    RateLimit,
    AuthExpired,
}

/// What an ended session is counted under.
#[derive(Debug, Clone, Copy, PartialEq, Eq, Structural)]
pub enum ReconnectReason {
    Timeout,
    RemoteClose,
    RateLimit,
    AuthExpired,
}

/// Why a connection was not made, as a transport says it.
#[derive(Debug, Clone, Copy, PartialEq, Eq, Structural)]
pub enum ConnectFailure {
    Refused,
    Unresolved,
    Tls,
    Timeout,
    Unauthorized,
    RateLimit,
    Rejected,
}

/// What a connection that was not made is counted under.
#[derive(Debug, Clone, Copy, PartialEq, Eq, Structural)]
pub enum ConnectFailureReason {
    Refused,
    Unresolved,
    Tls,
    Timeout,
    Unauthorized,
    RateLimit,
    Rejected,
}

/// What a failure of an adapter is counted under.
#[derive(Debug, Clone, Copy, PartialEq, Eq, Structural)]
pub enum AdapterErrorReason {
    NotReady,
    UnknownInstrument,
    Internal,
}

/// What an unreadable payload is counted under.
pub open spec fn parse_counted(error: ParseError) -> ParseErrorReason {
    match error {
        ParseError::Schema => ParseErrorReason::Schema,
        ParseError::UnknownField => ParseErrorReason::UnknownField,
        ParseError::Malformed => ParseErrorReason::Malformed,
        ParseError::Truncated => ParseErrorReason::Truncated,
    }
}

/// What an ended session is counted under.
pub open spec fn reconnect_counted(reason: DisconnectReason) -> ReconnectReason {
    match reason {
        DisconnectReason::Timeout => ReconnectReason::Timeout,
        DisconnectReason::RemoteClose => ReconnectReason::RemoteClose,
        DisconnectReason::RateLimit => ReconnectReason::RateLimit,
        DisconnectReason::AuthExpired => ReconnectReason::AuthExpired,
    }
}

/// What a connection that was not made is counted under.
pub open spec fn connect_counted(failure: ConnectFailure) -> ConnectFailureReason {
    match failure {
        ConnectFailure::Refused => ConnectFailureReason::Refused,
        ConnectFailure::Unresolved => ConnectFailureReason::Unresolved,
        ConnectFailure::Tls => ConnectFailureReason::Tls,
        ConnectFailure::Timeout => ConnectFailureReason::Timeout,
        ConnectFailure::Unauthorized => ConnectFailureReason::Unauthorized,
        ConnectFailure::RateLimit => ConnectFailureReason::RateLimit,
        ConnectFailure::Rejected => ConnectFailureReason::Rejected,
    }
}

/// What a failure of an adapter is counted under.
pub open spec fn adapter_counted(error: AdapterError) -> AdapterErrorReason {
    match error {
        AdapterError::NotReady => AdapterErrorReason::NotReady,
        AdapterError::UnknownInstrument => AdapterErrorReason::UnknownInstrument,
        AdapterError::Internal => AdapterErrorReason::Internal,
    }
}

/// What a connection does, on its way to the series.
#[derive(Debug)]
pub struct MetricsObserver {
    adapter_errors: u64,
}

impl View for MetricsObserver {
    type V = u64;

    /// How many times an adapter failed.
    closed spec fn view(&self) -> u64 {
        self.adapter_errors
    }
}

impl MetricsObserver {
    /// Nothing has failed.
    pub fn new() -> (observer: Self)
        ensures
            observer@ == 0,
    {
        Self { adapter_errors: 0 }
    }

    /// How many times an adapter failed: the exit report states it.
    pub fn adapter_errors(&self) -> (count: u64)
        ensures
            count == self@,
    {
        self.adapter_errors
    }

    /// An adapter could not read a payload.
    pub fn parse_error(&self, error: ParseError) -> (reason: ParseErrorReason)
        ensures
            reason == parse_counted(error),
    {
        match error {
            ParseError::Schema => ParseErrorReason::Schema,
            ParseError::UnknownField => ParseErrorReason::UnknownField,
            ParseError::Malformed => ParseErrorReason::Malformed,
            ParseError::Truncated => ParseErrorReason::Truncated,
        }
    }

    /// A session ended.
    pub fn reconnect(&self, reason: DisconnectReason) -> (counted: ReconnectReason)
        ensures
            counted == reconnect_counted(reason),
    {
        match reason {
            DisconnectReason::Timeout => ReconnectReason::Timeout,
            DisconnectReason::RemoteClose => ReconnectReason::RemoteClose,
            DisconnectReason::RateLimit => ReconnectReason::RateLimit,
            DisconnectReason::AuthExpired => ReconnectReason::AuthExpired,
        }
    }

    /// A connection was not made.
    pub fn connect_failure(&self, failure: ConnectFailure) -> (reason: ConnectFailureReason)
        ensures
            reason == connect_counted(failure),
    {
        match failure {
            ConnectFailure::Refused => ConnectFailureReason::Refused,
            ConnectFailure::Unresolved => ConnectFailureReason::Unresolved,
            ConnectFailure::Tls => ConnectFailureReason::Tls,
            ConnectFailure::Timeout => ConnectFailureReason::Timeout,
            ConnectFailure::Unauthorized => ConnectFailureReason::Unauthorized,
            ConnectFailure::RateLimit => ConnectFailureReason::RateLimit,
            ConnectFailure::Rejected => ConnectFailureReason::Rejected,
        }
    }

    /// An adapter failed. Every failure is counted, whatever it is counted
    /// under.
    pub fn adapter_error(&mut self, error: &AdapterError) -> (reason: AdapterErrorReason)
        requires
            old(self)@ < u64::MAX,
        ensures
            reason == adapter_counted(*error),
            final(self)@ == old(self)@ + 1,
    {
        self.adapter_errors += 1;
        match error {
            AdapterError::NotReady => AdapterErrorReason::NotReady,
            AdapterError::UnknownInstrument => AdapterErrorReason::UnknownInstrument,
            AdapterError::Internal => AdapterErrorReason::Internal,
        }
    }
}

/// No two things are counted under one reason.
pub proof fn every_reason_is_its_own(
    parse: (ParseError, ParseError),
    disconnect: (DisconnectReason, DisconnectReason),
    connect: (ConnectFailure, ConnectFailure),
    adapter: (AdapterError, AdapterError),
)
    ensures
        parse_counted(parse.0) == parse_counted(parse.1) ==> parse.0 == parse.1,
        reconnect_counted(disconnect.0) == reconnect_counted(disconnect.1) ==> disconnect.0
            == disconnect.1,
        connect_counted(connect.0) == connect_counted(connect.1) ==> connect.0 == connect.1,
        adapter_counted(adapter.0) == adapter_counted(adapter.1) ==> adapter.0 == adapter.1,
{
}

/// What is counted is counted under its own name.
pub proof fn every_reason_keeps_its_name()
    ensures
        parse_counted(ParseError::Schema) == ParseErrorReason::Schema,
        parse_counted(ParseError::UnknownField) == ParseErrorReason::UnknownField,
        parse_counted(ParseError::Malformed) == ParseErrorReason::Malformed,
        parse_counted(ParseError::Truncated) == ParseErrorReason::Truncated,
        reconnect_counted(DisconnectReason::Timeout) == ReconnectReason::Timeout,
        reconnect_counted(DisconnectReason::RemoteClose) == ReconnectReason::RemoteClose,
        reconnect_counted(DisconnectReason::RateLimit) == ReconnectReason::RateLimit,
        reconnect_counted(DisconnectReason::AuthExpired) == ReconnectReason::AuthExpired,
        connect_counted(ConnectFailure::Refused) == ConnectFailureReason::Refused,
        connect_counted(ConnectFailure::Unresolved) == ConnectFailureReason::Unresolved,
        connect_counted(ConnectFailure::Tls) == ConnectFailureReason::Tls,
        connect_counted(ConnectFailure::Timeout) == ConnectFailureReason::Timeout,
        connect_counted(ConnectFailure::Unauthorized) == ConnectFailureReason::Unauthorized,
        connect_counted(ConnectFailure::RateLimit) == ConnectFailureReason::RateLimit,
        connect_counted(ConnectFailure::Rejected) == ConnectFailureReason::Rejected,
        adapter_counted(AdapterError::NotReady) == AdapterErrorReason::NotReady,
        adapter_counted(AdapterError::UnknownInstrument) == AdapterErrorReason::UnknownInstrument,
        adapter_counted(AdapterError::Internal) == AdapterErrorReason::Internal,
{
}

} // verus!
