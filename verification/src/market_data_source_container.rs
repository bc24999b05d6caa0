//! The set of feed adapters that a server runs.

use vstd::prelude::*;

use crate::binance::{Binance, STREAM_KEY};
use crate::bitstamp::{Bitstamp, CHANNEL_KEY};
use crate::feed::{normalized, FeedAction, FeedEvent, FeedState, MarketDataSource, NormalizeError, TextFrame};
use crate::market_data_source::{Exchange, MarketDataSourceInfo, OrderBookSnap};

verus! {

/// A feed adapter of one of the venues.
#[derive(Clone)]
pub enum MarketSources {
    Binance(Binance),
    Bitstamp(Bitstamp),
}

impl MarketSources {
    /// The venue of the adapter.
    pub fn exchange(&self) -> (exchange: Exchange)
        ensures
            exchange == self.venue(),
    {
        match self {
            MarketSources::Binance(_) => Exchange::Binance,
            MarketSources::Bitstamp(_) => Exchange::Bitstamp,
        }
    }

    /// The member of an envelope that names the stream or channel of the
    /// venue.
    pub fn identifier_key(&self) -> (key: &'static str)
        ensures
            key@ == match self {
                MarketSources::Binance(_) => STREAM_KEY@,
                MarketSources::Bitstamp(_) => CHANNEL_KEY@,
            },
    {
        match self {
            MarketSources::Binance(_) => STREAM_KEY,
            MarketSources::Bitstamp(_) => CHANNEL_KEY,
        }
    }

    /// What the adapter was set up with.
    pub fn info(&self) -> (info: &MarketDataSourceInfo)
        ensures
            match self {
                MarketSources::Binance(binance) => {
                    &&& info.address@ == binance.address()
                    &&& info.currency@ == binance.currency()
                    &&& info.name@ == binance.name()
                    &&& info.sender == binance.sender()
                },
                MarketSources::Bitstamp(bitstamp) => {
                    &&& info.address@ == bitstamp.address()
                    &&& info.currency@ == bitstamp.currency()
                    &&& info.name@ == bitstamp.name()
                    &&& info.sender == bitstamp.sender()
                },
            },
    {
        match self {
            MarketSources::Binance(binance) => binance.info(),
            MarketSources::Bitstamp(bitstamp) => bitstamp.info(),
        }
    }
}

impl MarketDataSource for MarketSources {
    open spec fn venue(&self) -> Exchange {
        match self {
            MarketSources::Binance(_) => Exchange::Binance,
            MarketSources::Bitstamp(_) => Exchange::Bitstamp,
        }
    }

    open spec fn follows(&self, tag: Seq<char>) -> bool {
        match self {
            MarketSources::Binance(binance) => binance.accepts(tag),
            MarketSources::Bitstamp(bitstamp) => bitstamp.accepts(tag),
        }
    }

    open spec fn endpoint_text(&self) -> Seq<char> {
        match self {
            MarketSources::Binance(binance) => binance.address() + binance.currency() + binance.metadata(),
            MarketSources::Bitstamp(bitstamp) => bitstamp.address(),
        }
    }

    open spec fn is_step(&self, state: FeedState, event: FeedEvent, step: (FeedState, FeedAction)) -> bool {
        match self {
            MarketSources::Binance(binance) => binance.is_step(state, event, step),
            MarketSources::Bitstamp(bitstamp) => bitstamp.is_step(state, event, step),
        }
    }

    fn normalize(&self, msg: TextFrame) -> (snap: Result<OrderBookSnap, NormalizeError>) {
        match self {
            MarketSources::Binance(binance) => {
                assert(normalized(Exchange::Binance, msg, |tag: Seq<char>| binance.accepts(tag)) == normalized(
                    self.venue(),
                    msg,
                    |tag: Seq<char>| self.follows(tag),
                ));
                binance.normalize(msg)
            },
            MarketSources::Bitstamp(bitstamp) => {
                assert(normalized(Exchange::Bitstamp, msg, |tag: Seq<char>| bitstamp.accepts(tag)) == normalized(
                    self.venue(),
                    msg,
                    |tag: Seq<char>| self.follows(tag),
                ));
                bitstamp.normalize(msg)
            },
        }
    }

    fn start(&self) -> (step: (FeedState, FeedAction)) {
        match self {
            MarketSources::Binance(binance) => binance.start(),
            MarketSources::Bitstamp(bitstamp) => bitstamp.start(),
        }
    }

    fn on_event(&self, state: FeedState, event: FeedEvent) -> (step: (FeedState, FeedAction)) {
        match self {
            MarketSources::Binance(binance) => binance.on_event(state, event),
            MarketSources::Bitstamp(bitstamp) => bitstamp.on_event(state, event),
        }
    }
}

/// The feed adapters of a server, in the order in which they were added.
pub struct MarketDataSourceContainer {
    market_data_sources: Vec<MarketSources>,
}

impl MarketDataSourceContainer {
    /// The adapters held, first added first.
    pub closed spec fn sources(&self) -> Seq<MarketSources> {
        self.market_data_sources@
    }

    /// A container without adapters.
    pub fn new() -> (container: MarketDataSourceContainer)
        ensures
            container.sources().len() == 0,
    {
        MarketDataSourceContainer { market_data_sources: Vec::new() }
    }

    /// Adds an adapter behind those that are there.
    pub fn add(&mut self, market_data_source: MarketSources)
        ensures
            final(self).sources() == old(self).sources().push(market_data_source),
    {
        self.market_data_sources.push(market_data_source);
    }

    /// The adapters to run, each as a task of its own.
    pub fn wait_resources(&self) -> (sources: &Vec<MarketSources>)
        ensures
            sources@ == self.sources(),
    {
        &self.market_data_sources
    }
}

} // verus!
