use crate::error::Error;
use crate::codec::{
    decode_kick_answer, decode_response, encode_kick_msg, encode_push, encode_request,
    kick_msg_bytes, parse_kick_answer, parse_response, push_bytes, request_bytes,
};
use crate::message::{KickAnswer, KickMsg, Push, Request, Response};
use crate::topic::{
    kick_topic, push_topic, server_topic, topic_for_server, user_kick_topic, user_messages_topic,
    Server, ServerKind,
};
use vstd::prelude::*;
use vstd::string::*;

verus! {

/// Relies on nats::Connection only as an opaque handle to a live broker
/// connection: the library holds it and hands it out, and never looks inside.
#[verifier::external_type_specification]
#[verifier::external_body]
pub struct ExConnection(nats::Connection);

/// Settings of a client, fixed for its whole life.
pub struct Config {
    /// Where the broker listens.
    pub address: String,
    /// How long connecting may take, in milliseconds.
    pub connection_timeout_ms: u64,
    /// How long one request waits for its reply, in milliseconds.
    pub request_timeout_ms: u64,
    /// How often the broker link reconnects before giving up.
    pub max_reconnection_attempts: u32,
    /// How many messages may wait while the link is down.
    pub max_pending_messages: u32,
}

/// The address a client connects to unless told otherwise.
pub open spec fn default_address() -> Seq<char> {
    "http://localhost:4222"@
}

impl Default for Config {
    fn default() -> (r: Config)
        ensures
            r.address@ == default_address(),
            r.connection_timeout_ms == 10_000,
            r.request_timeout_ms == 10_000,
            r.max_reconnection_attempts == 5,
            r.max_pending_messages == 100,
    {
        proof {
            reveal_strlit("http://localhost:4222");
        }
        Config {
            address: String::from_str("http://localhost:4222"),
            connection_timeout_ms: 10_000,
            request_timeout_ms: 10_000,
            max_reconnection_attempts: 5,
            max_pending_messages: 100,
        }
    }
}

/// One request-reply exchange to be made on the broker.
pub struct Outgoing {
    pub topic: String,
    pub payload: Vec<u8>,
    pub timeout_ms: u64,
}

/// What became of one request-reply exchange.
pub enum TransportOutcome {
    /// The reply arrived, with these bytes.
    Reply(Vec<u8>),
    /// No reply arrived in time.
    TimedOut,
    /// The broker reported another failure.
    Failed(String),
    /// The worker that ran the exchange failed.
    WorkerFailed(String),
}

/// The error that an outcome without a reply stands for.
pub open spec fn outcome_error(o: TransportOutcome) -> Error
    recommends
        !(o is Reply),
{
    match o {
        TransportOutcome::Failed(m) => Error::TransportError(m),
        TransportOutcome::WorkerFailed(m) => Error::BridgeFailure(m),
        _ => Error::Timeout,
    }
}

/// The reply bytes of an exchange, or the error it failed with.
pub fn reply_of(outcome: TransportOutcome) -> (r: Result<Vec<u8>, Error>)
    ensures
        match outcome {
            TransportOutcome::Reply(b) => r == Ok::<Vec<u8>, Error>(b),
            _ => r == Err::<Vec<u8>, Error>(outcome_error(outcome)),
        },
{
    match outcome {
        TransportOutcome::Reply(b) => Ok(b),
        TransportOutcome::TimedOut => Err(Error::Timeout),
        TransportOutcome::Failed(m) => Err(Error::TransportError(m)),
        TransportOutcome::WorkerFailed(m) => Err(Error::BridgeFailure(m)),
    }
}

/// Success of a push: the exchange completed, whatever the reply held.
pub fn push_result(outcome: TransportOutcome) -> (r: Result<(), Error>)
    ensures
        match outcome {
            TransportOutcome::Reply(_) => r == Ok::<(), Error>(()),
            _ => r == Err::<(), Error>(outcome_error(outcome)),
        },
{
    match reply_of(outcome) {
        Ok(_) => Ok(()),
        Err(e) => Err(e),
    }
}

/// The response that ends a call, from what became of its exchange.
pub fn finish_call(outcome: TransportOutcome) -> (r: Result<Response, Error>)
    ensures
        match outcome {
            TransportOutcome::Reply(b) => match parse_response(b@) {
                Some(q) => r matches Ok(x) && x@ == q,
                None => r matches Err(Error::DecodeError(_)),
            },
            _ => r == Err::<Response, Error>(outcome_error(outcome)),
        },
{
    match reply_of(outcome) {
        Ok(b) => decode_response(b.as_slice()),
        Err(e) => Err(e),
    }
}

/// The answer that ends a kick, from what became of its exchange.
pub fn finish_kick(outcome: TransportOutcome) -> (r: Result<KickAnswer, Error>)
    ensures
        match outcome {
            TransportOutcome::Reply(b) => match parse_kick_answer(b@) {
                Some(k) => r matches Ok(x) && x.kicked == k,
                None => r matches Err(Error::DecodeError(_)),
            },
            _ => r == Err::<KickAnswer, Error>(outcome_error(outcome)),
        },
{
    match reply_of(outcome) {
        Ok(b) => decode_kick_answer(b.as_slice()),
        Err(e) => Err(e),
    }
}

/// An RPC client over a publish-subscribe broker. It holds at most one
/// connection; every exchange goes through that connection.
pub struct NatsClient {
    config: Config,
    connection: Option<nats::Connection>,
}

impl NatsClient {
    /// Whether a connection is held.
    pub closed spec fn is_open(&self) -> bool {
        self.connection is Some
    }

    /// The settings the client was made with.
    pub closed spec fn settings(&self) -> Config {
        self.config
    }

    /// The settings the client was made with.
    pub fn config(&self) -> (r: &Config)
        ensures
            *r == self.settings(),
    {
        &self.config
    }

    /// A client with `config` that holds no connection yet.
    pub fn new(config: Config) -> (r: NatsClient)
        ensures
            !r.is_open(),
            r.settings() == config,
    {
        NatsClient { config, connection: None }
    }

    /// Whether a connection is held.
    pub fn is_connected(&self) -> (r: bool)
        ensures
            r == self.is_open(),
    {
        self.connection.is_some()
    }

    /// The connection held, if any.
    pub fn connection(&self) -> (r: Option<&nats::Connection>)
        ensures
            r is Some <==> self.is_open(),
    {
        match &self.connection {
            Some(c) => Some(c),
            None => None,
        }
    }

    /// Takes the result of an attempt to reach the broker. On success the
    /// client holds the new connection; on failure it stays without one.
    pub fn on_connect(&mut self, attempt: Result<nats::Connection, String>) -> (r: Result<(), Error>)
        requires
            !old(self).is_open(),
        ensures
            final(self).settings() == old(self).settings(),
            match attempt {
                Ok(_) => r is Ok && final(self).is_open(),
                Err(m) => r == Err::<(), Error>(Error::TransportConnectError(m)) && !final(self).is_open(),
            },
    {
        match attempt {
            Ok(c) => {
                self.connection = Some(c);
                Ok(())
            },
            Err(m) => Err(Error::TransportConnectError(m)),
        }
    }

    /// Gives up the connection, if one is held, so that it can be closed.
    /// Afterwards the client holds none; a second call hands back nothing.
    pub fn close(&mut self) -> (r: Option<nats::Connection>)
        ensures
            !final(self).is_open(),
            final(self).settings() == old(self).settings(),
            r is Some <==> old(self).is_open(),
    {
        self.connection.take()
    }

    /// The exchange that delivers `req` to `target`.
    pub fn prepare_call(&self, target: &Server, req: &Request) -> (r: Result<Outgoing, Error>)
        ensures
            !self.is_open() ==> r == Err::<Outgoing, Error>(Error::ConnectionNotOpen),
            self.is_open() ==> (r matches Ok(o) && o.topic@ == server_topic(target.kind.0@, target.id.0@)
                && o.payload@ == request_bytes(req@) && o.timeout_ms == self.settings().request_timeout_ms),
    {
        if self.connection.is_none() {
            return Err(Error::ConnectionNotOpen);
        }
        let topic = topic_for_server(target);
        let payload = encode_request(req);
        Ok(Outgoing { topic, payload, timeout_ms: self.config.request_timeout_ms })
    }

    /// The exchange that asks servers of `server_kind` to drop the user of
    /// `kick_msg`. Empty ids are refused
    /// before the connection is looked at.
    pub fn prepare_kick(&self, server_kind: &ServerKind, kick_msg: &KickMsg) -> (r:
        Result<Outgoing, Error>)
        ensures
            kick_msg.user_id@.len() == 0 ==> r == Err::<Outgoing, Error>(Error::InvalidUserId),
            kick_msg.user_id@.len() > 0 && server_kind.0@.len() == 0 ==> r == Err::<Outgoing, Error>(
                Error::InvalidServerKind,
            ),
            kick_msg.user_id@.len() > 0 && server_kind.0@.len() > 0 && !self.is_open() ==> r == Err::<
                Outgoing,
                Error,
            >(Error::ConnectionNotOpen),
            kick_msg.user_id@.len() > 0 && server_kind.0@.len() > 0 && self.is_open() ==> (r matches Ok(o)
                && o.topic@ == kick_topic(kick_msg.user_id@, server_kind.0@) && o.payload@ == kick_msg_bytes(
                kick_msg.user_id@,
            )
                && o.timeout_ms == self.settings().request_timeout_ms),
    {
        if kick_msg.user_id.as_str().is_empty() {
            return Err(Error::InvalidUserId);
        }
        if server_kind.0.as_str().is_empty() {
            return Err(Error::InvalidServerKind);
        }
        if self.connection.is_none() {
            return Err(Error::ConnectionNotOpen);
        }
        let topic = user_kick_topic(kick_msg.user_id.as_str(), server_kind);
        let payload = encode_kick_msg(kick_msg);
        Ok(Outgoing { topic, payload, timeout_ms: self.config.request_timeout_ms })
    }

    /// The exchange that delivers `push_msg` to servers of `server_kind`.
    /// Empty ids are refused before the connection is looked at.
    pub fn prepare_push(&self, server_kind: &ServerKind, push_msg: &Push) -> (r:
        Result<Outgoing, Error>)
        ensures
            push_msg.uid@.len() == 0 ==> r == Err::<Outgoing, Error>(Error::InvalidUserId),
            push_msg.uid@.len() > 0 && server_kind.0@.len() == 0 ==> r == Err::<Outgoing, Error>(
                Error::InvalidServerKind,
            ),
            push_msg.uid@.len() > 0 && server_kind.0@.len() > 0 && !self.is_open() ==> r == Err::<
                Outgoing,
                Error,
            >(Error::ConnectionNotOpen),
            push_msg.uid@.len() > 0 && server_kind.0@.len() > 0 && self.is_open() ==> (r matches Ok(o)
                && o.topic@ == push_topic(push_msg.uid@, server_kind.0@) && o.payload@ == push_bytes(
                push_msg.route@,
                push_msg.uid@,
                push_msg.data@,
            )
                && o.timeout_ms == self.settings().request_timeout_ms),
    {
        if push_msg.uid.as_str().is_empty() {
            return Err(Error::InvalidUserId);
        }
        if server_kind.0.as_str().is_empty() {
            return Err(Error::InvalidServerKind);
        }
        if self.connection.is_none() {
            return Err(Error::ConnectionNotOpen);
        }
        let topic = user_messages_topic(push_msg.uid.as_str(), server_kind);
        let payload = encode_push(push_msg);
        Ok(Outgoing { topic, payload, timeout_ms: self.config.request_timeout_ms })
    }
}

} // verus!
