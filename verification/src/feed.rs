//! The life of a feed adapter, as a machine of states: what the adapter does
//! next, and in which state it then is, for every state it can be in and
//! everything that can happen to it.
//!
//! The adapter itself opens no connection and reads no frame. Whoever runs
//! it carries out each action, reports what came of it as the next event,
//! and stops when told to.

use url::Url;
use vstd::prelude::*;
use vstd::string::*;

use crate::market_data_source::{Exchange, MarketDataSourceData, OrderBook, OrderBookSnap};
use crate::outside::parsed_url;

verus! {

/// The states of a feed adapter.
#[derive(Debug, Copy, Clone, PartialEq, Eq, Structural)]
pub enum FeedState {
    /// The connection is being opened.
    Connecting,
    /// The request to subscribe is being sent.
    Subscribing,
    /// The venue has yet to confirm the subscription.
    AwaitingAck,
    /// Depth frames are coming in.
    Streaming,
    /// The adapter has ended, for good.
    Closed,
}

/// A JSON object as a decoder found it in a text frame.
#[derive(Debug, PartialEq)]
pub struct Envelope {
    /// The identifier of the stream or channel, where there is one.
    pub tag: Option<String>,
    /// The two sides under "data", where both are there.
    pub data: Option<MarketDataSourceData>,
}

/// The text of a depth frame, decoded.
#[derive(Debug, PartialEq)]
pub enum TextFrame {
    /// The text is no JSON object, or a member of it is not of the type it
    /// has to be of; with the decoder's message.
    Malformed(String),
    /// The text is a JSON object.
    Json(Envelope),
}

/// A frame off the connection.
#[derive(Debug, PartialEq)]
pub enum Frame {
    Text(String),
    Ping(Vec<u8>),
    Pong,
    Binary,
    Raw,
    Close,
}

/// What can happen to a feed adapter.
#[derive(Debug, PartialEq)]
pub enum FeedEvent {
    /// The connection is open.
    Opened,
    /// The connection could not be opened.
    OpenFailed,
    /// The request to subscribe went out.
    SubscribeSent,
    /// The request to subscribe could not be sent.
    SubscribeFailed,
    /// A frame came in.
    Received(Frame),
    /// The text of a frame has been decoded.
    Decoded(TextFrame),
    /// Reading a frame failed.
    ReceiveFailed,
    /// The connection has no more frames.
    Ended,
}

/// Why a text frame gave no snapshot.
#[derive(Debug, PartialEq)]
pub enum NormalizeError {
    /// The decoder could not read the text; with its message.
    Malformed(String),
    /// The envelope names no stream or channel.
    MissingIdentifier,
    /// The envelope lacks the bids or the asks.
    MissingSide,
    /// The envelope is of another stream or channel than the one of the
    /// currency that the adapter follows.
    IncorrectCurrency,
}

impl NormalizeError {
    /// The text that says why the frame gave no snapshot.
    pub open spec fn text(self) -> Seq<char> {
        match self {
            NormalizeError::Malformed(reason) => reason@,
            NormalizeError::MissingIdentifier => "Receive depth without the name of its stream"@,
            NormalizeError::MissingSide => "Receive depth without bids or asks"@,
            NormalizeError::IncorrectCurrency => "Receive depth for incorrect currency"@,
        }
    }

    /// Why the frame gave no snapshot, in words.
    pub fn message(&self) -> (text: String)
        ensures
            text@ == self.text(),
    {
        match self {
            NormalizeError::Malformed(reason) => reason.clone(),
            NormalizeError::MissingIdentifier => String::from_str("Receive depth without the name of its stream"),
            NormalizeError::MissingSide => String::from_str("Receive depth without bids or asks"),
            NormalizeError::IncorrectCurrency => String::from_str("Receive depth for incorrect currency"),
        }
    }
}

/// What a feed adapter asks to be done next.
#[derive(Debug, PartialEq)]
pub enum FeedAction {
    /// Open a connection to this address.
    Connect(Url),
    /// Ask the venue for the channel of this name.
    Subscribe(String),
    /// Read the next frame.
    Receive,
    /// Decode this text, the text of a depth frame.
    Decode(String),
    /// Hand this snapshot to the aggregator, then read the next frame.
    Forward(OrderBookSnap),
    /// Answer a ping with a pong of the same payload, then read the next
    /// frame.
    Pong(Vec<u8>),
    /// Nothing came of a text frame, for this reason; read the next frame.
    Skip(NormalizeError),
    /// End the adapter.
    Stop,
}

/// The step of an adapter on everything that does not depend on the venue:
/// all but an opened connection, a text frame and a decoded text. Pings are answered, other
/// frames without text are passed over, a failed read is passed over, and a
/// close frame or the end of the connection ends the adapter, as does any
/// event that has no place in the state. An adapter that has ended stays so.
pub open spec fn plain_step(state: FeedState, event: FeedEvent) -> (FeedState, FeedAction) {
    match state {
        FeedState::Subscribing => match event {
            FeedEvent::SubscribeSent => (FeedState::AwaitingAck, FeedAction::Receive),
            _ => (FeedState::Closed, FeedAction::Stop),
        },
        FeedState::AwaitingAck | FeedState::Streaming => match event {
            FeedEvent::Received(Frame::Ping(payload)) => (state, FeedAction::Pong(payload)),
            FeedEvent::Received(Frame::Pong) => (state, FeedAction::Receive),
            FeedEvent::Received(Frame::Binary) => (state, FeedAction::Receive),
            FeedEvent::Received(Frame::Raw) => (state, FeedAction::Receive),
            FeedEvent::ReceiveFailed => (state, FeedAction::Receive),
            _ => (FeedState::Closed, FeedAction::Stop),
        },
        _ => (FeedState::Closed, FeedAction::Stop),
    }
}

/// Takes the step of an adapter on an event that does not depend on the
/// venue.
pub fn on_plain_event(state: FeedState, event: FeedEvent) -> (step: (FeedState, FeedAction))
    ensures
        step == plain_step(state, event),
{
    match state {
        FeedState::Subscribing => match event {
            FeedEvent::SubscribeSent => (FeedState::AwaitingAck, FeedAction::Receive),
            _ => (FeedState::Closed, FeedAction::Stop),
        },
        FeedState::AwaitingAck | FeedState::Streaming => match event {
            FeedEvent::Received(Frame::Ping(payload)) => (state, FeedAction::Pong(payload)),
            FeedEvent::Received(Frame::Pong) => (state, FeedAction::Receive),
            FeedEvent::Received(Frame::Binary) => (state, FeedAction::Receive),
            FeedEvent::Received(Frame::Raw) => (state, FeedAction::Receive),
            FeedEvent::ReceiveFailed => (state, FeedAction::Receive),
            _ => (FeedState::Closed, FeedAction::Stop),
        },
        _ => (FeedState::Closed, FeedAction::Stop),
    }
}

/// The first step of an adapter, once its address has been read: with a URL
/// it connects, without one it ends.
pub open spec fn first_step(parsed: Result<Url, url::ParseError>) -> (FeedState, FeedAction) {
    match parsed {
        Ok(url) => (FeedState::Connecting, FeedAction::Connect(url)),
        Err(_) => (FeedState::Closed, FeedAction::Stop),
    }
}

/// Takes the first step of an adapter, once its address has been read.
pub fn connect_to(parsed: Result<Url, url::ParseError>) -> (step: (FeedState, FeedAction))
    ensures
        step == first_step(parsed),
{
    match parsed {
        Ok(url) => (FeedState::Connecting, FeedAction::Connect(url)),
        Err(_) => (FeedState::Closed, FeedAction::Stop),
    }
}

/// The snapshot that an envelope gives for a venue, where the stream or
/// channel it names is accepted, and the reason why a text frame gives none.
pub open spec fn normalized(
    exchange: Exchange,
    msg: TextFrame,
    accepted: spec_fn(Seq<char>) -> bool,
) -> Result<OrderBookSnap, NormalizeError> {
    match msg {
        TextFrame::Malformed(reason) => Err(NormalizeError::Malformed(reason)),
        TextFrame::Json(envelope) => match envelope.tag {
            None => Err(NormalizeError::MissingIdentifier),
            Some(tag) => match envelope.data {
                None => Err(NormalizeError::MissingSide),
                Some(data) => if accepted(tag@) {
                    Ok(OrderBookSnap { exchange, order_book: OrderBook { bids: data.bids, asks: data.asks } })
                } else {
                    Err(NormalizeError::IncorrectCurrency)
                },
            },
        },
    }
}

/// What every feed adapter can do: turn a text frame into a snapshot, and
/// say what to do at the start and after each event.
pub trait MarketDataSource {
    /// The venue of the adapter.
    spec fn venue(&self) -> Exchange;

    /// Whether a stream or channel of this name is the one that the adapter
    /// follows.
    spec fn follows(&self, tag: Seq<char>) -> bool;

    /// The address that the adapter connects to.
    spec fn endpoint_text(&self) -> Seq<char>;

    /// Whether `step` is the step of the adapter in a state on an event.
    spec fn is_step(&self, state: FeedState, event: FeedEvent, step: (FeedState, FeedAction)) -> bool;

    /// Turns a text frame into a snapshot of the venue, or says why it
    /// gives none.
    fn normalize(&self, msg: TextFrame) -> (snap: Result<OrderBookSnap, NormalizeError>)
        ensures
            snap == normalized(self.venue(), msg, |tag: Seq<char>| self.follows(tag)),
    ;

    /// The first step of the adapter: it connects, or ends where its
    /// address is no URL.
    fn start(&self) -> (step: (FeedState, FeedAction))
        ensures
            step == first_step(parsed_url(self.endpoint_text())),
    ;

    /// Takes the step of the adapter on an event.
    fn on_event(&self, state: FeedState, event: FeedEvent) -> (step: (FeedState, FeedAction))
        ensures
            self.is_step(state, event, step),
    ;
}


} // verus!
