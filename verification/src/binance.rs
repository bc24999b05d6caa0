//! The adapter of the Binance feed: a combined stream that needs no
//! subscription.

use tokio::sync::mpsc::Sender;
use url::Url;
use vstd::prelude::*;
use vstd::string::*;

use crate::feed::{
    connect_to, first_step, normalized, on_plain_event, plain_step, FeedAction, FeedEvent, FeedState, Frame,
    MarketDataSource, NormalizeError, TextFrame,
};
use crate::market_data_source::{Exchange, MarketDataSourceInfo, OrderBookSnap, DEFAULT_DEPTH};
use crate::outside::parsed_url;
use crate::text::{decimal, decimal_string, same_text};

verus! {

/// The member of an envelope that names the stream.
pub const STREAM_KEY: &'static str = "stream";

/// What follows the currency in the name of a depth stream: the depth and
/// the pace of the updates.
pub open spec fn stream_suffix() -> Seq<char> {
    "@depth"@ + decimal(DEFAULT_DEPTH as nat) + "@100ms"@
}

/// The adapter of the Binance feed.
#[derive(Clone)]
pub struct Binance {
    info: MarketDataSourceInfo,
    metadata: String,
}

impl Binance {
    /// The address that the name of the stream is appended to.
    pub closed spec fn address(&self) -> Seq<char> {
        self.info.address@
    }

    /// The currency pair that the adapter follows.
    pub closed spec fn currency(&self) -> Seq<char> {
        self.info.currency@
    }

    /// The name of the adapter.
    pub closed spec fn name(&self) -> Seq<char> {
        self.info.name@
    }

    /// The queue that the snapshots of the adapter go to.
    pub closed spec fn sender(&self) -> Sender<OrderBookSnap> {
        self.info.sender
    }

    /// What follows the currency in the name of the stream.
    pub closed spec fn metadata(&self) -> Seq<char> {
        self.metadata@
    }

    /// The name of the stream that the adapter follows: the currency, and
    /// what follows it.
    pub open spec fn stream(&self) -> Seq<char> {
        self.currency() + self.metadata()
    }

    /// Whether a stream of this name is the one that the adapter follows.
    pub open spec fn accepts(&self, stream: Seq<char>) -> bool {
        stream == self.stream()
    }

    /// The step of the adapter: an opened connection streams at once, a
    /// text frame on the stream is to be decoded, a decoded text gives a
    /// snapshot or a reason why not, and everything else is as for every
    /// venue.
    pub open spec fn step(&self, state: FeedState, event: FeedEvent) -> (FeedState, FeedAction) {
        match (state, event) {
            (FeedState::Connecting, FeedEvent::Opened) => (FeedState::Streaming, FeedAction::Receive),
            (FeedState::Streaming, FeedEvent::Received(Frame::Text(text))) => (
                FeedState::Streaming,
                FeedAction::Decode(text),
            ),
            (FeedState::Streaming, FeedEvent::Decoded(msg)) => match normalized(
                Exchange::Binance,
                msg,
                |stream: Seq<char>| self.accepts(stream),
            ) {
                Ok(snap) => (FeedState::Streaming, FeedAction::Forward(snap)),
                Err(reason) => (FeedState::Streaming, FeedAction::Skip(reason)),
            },
            _ => plain_step(state, event),
        }
    }

    /// An adapter for a currency pair, which sends its snapshots to
    /// `sender`.
    pub fn new(address: &str, currency: &str, sender: Sender<OrderBookSnap>, name: &str) -> (binance: Binance)
        ensures
            binance.address() == address@,
            binance.currency() == currency@,
            binance.name() == name@,
            binance.sender() == sender,
            binance.metadata() == stream_suffix(),
    {
        let mut metadata = String::from_str("@depth");
        metadata.append(decimal_string(DEFAULT_DEPTH).as_str());
        metadata.append("@100ms");
        Binance {
            info: MarketDataSourceInfo {
                address: String::from_str(address),
                currency: String::from_str(currency),
                sender,
                name: String::from_str(name),
            },
            metadata,
        }
    }

    /// What the adapter was set up with.
    pub fn info(&self) -> (info: &MarketDataSourceInfo)
        ensures
            info.address@ == self.address(),
            info.currency@ == self.currency(),
            info.name@ == self.name(),
            info.sender == self.sender(),
    {
        &self.info
    }

    /// The name of the stream that the adapter follows.
    pub fn stream_name(&self) -> (stream: String)
        ensures
            stream@ == self.stream(),
    {
        let mut stream = self.info.currency.clone();
        stream.append(self.metadata.as_str());
        stream
    }

    /// The address of the stream: the address of the venue, the currency,
    /// and what follows the currency in the name of the stream.
    pub fn endpoint(&self) -> (address: String)
        ensures
            address@ == self.address() + self.currency() + self.metadata(),
    {
        let mut address = self.info.address.clone();
        address.append(self.info.currency.as_str());
        address.append(self.metadata.as_str());
        address
    }

    /// Turns a text frame into a snapshot of this venue. A frame that the
    /// decoder could not read, an envelope without the name of a stream or
    /// without a side, and one of any other stream than the adapter's give
    /// none.
    pub fn normalize(&self, msg: TextFrame) -> (snap: Result<OrderBookSnap, NormalizeError>)
        ensures
            snap == normalized(Exchange::Binance, msg, |stream: Seq<char>| self.accepts(stream)),
    {
        match msg {
            TextFrame::Malformed(reason) => Err(NormalizeError::Malformed(reason)),
            TextFrame::Json(envelope) => match envelope.tag {
                None => Err(NormalizeError::MissingIdentifier),
                Some(stream) => match envelope.data {
                    None => Err(NormalizeError::MissingSide),
                    Some(data) => {
                        let expected = self.stream_name();
                        if !same_text(stream.as_str(), expected.as_str()) {
                            return Err(NormalizeError::IncorrectCurrency);
                        }
                        let mut order_book_snap = OrderBookSnap::new(Exchange::Binance);
                        order_book_snap.order_book.bids = data.bids;
                        order_book_snap.order_book.asks = data.asks;
                        Ok(order_book_snap)
                    },
                },
            },
        }
    }

    /// The first step of the adapter: it connects to its stream, or ends
    /// where the address of the stream is no URL.
    pub fn start(&self) -> (step: (FeedState, FeedAction))
        ensures
            step == first_step(parsed_url(self.address() + self.currency() + self.metadata())),
    {
        let final_address = self.endpoint();
        connect_to(Url::parse(final_address.as_str()))
    }

    /// Takes the step of the adapter on an event.
    pub fn on_event(&self, state: FeedState, event: FeedEvent) -> (step: (FeedState, FeedAction))
        ensures
            step == self.step(state, event),
    {
        match (state, event) {
            (FeedState::Connecting, FeedEvent::Opened) => (FeedState::Streaming, FeedAction::Receive),
            (FeedState::Streaming, FeedEvent::Received(Frame::Text(text))) => (
                FeedState::Streaming,
                FeedAction::Decode(text),
            ),
            (FeedState::Streaming, FeedEvent::Decoded(msg)) => match self.normalize(msg) {
                Ok(snap) => (FeedState::Streaming, FeedAction::Forward(snap)),
                Err(reason) => (FeedState::Streaming, FeedAction::Skip(reason)),
            },
            (state, event) => on_plain_event(state, event),
        }
    }
}

/// An adapter that has ended stays ended, whatever happens.
pub proof fn lemma_closed_is_final(adapter: Binance, event: FeedEvent)
    ensures
        adapter.step(FeedState::Closed, event) == (FeedState::Closed, FeedAction::Stop),
{
}

impl MarketDataSource for Binance {
    open spec fn venue(&self) -> Exchange {
        Exchange::Binance
    }

    open spec fn follows(&self, tag: Seq<char>) -> bool {
        self.accepts(tag)
    }

    open spec fn endpoint_text(&self) -> Seq<char> {
        self.address() + self.currency() + self.metadata()
    }

    open spec fn is_step(&self, state: FeedState, event: FeedEvent, step: (FeedState, FeedAction)) -> bool {
        step == self.step(state, event)
    }

    fn normalize(&self, msg: TextFrame) -> (snap: Result<OrderBookSnap, NormalizeError>) {
        assert(normalized(Exchange::Binance, msg, |stream: Seq<char>| self.accepts(stream)) == normalized(
            Exchange::Binance,
            msg,
            |tag: Seq<char>| self.follows(tag),
        ));
        Binance::normalize(self, msg)
    }

    fn start(&self) -> (step: (FeedState, FeedAction)) {
        Binance::start(self)
    }

    fn on_event(&self, state: FeedState, event: FeedEvent) -> (step: (FeedState, FeedAction)) {
        Binance::on_event(self, state, event)
    }
}

} // verus!
