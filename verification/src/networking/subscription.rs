//! Topics a client can subscribe to, and the data sent on them.
use vstd::prelude::*;
use crate::fixture::channel::PropertyType;

verus! {

/// A stream of engine state a client can subscribe to.
#[derive(Debug, PartialEq, Eq, Structural, Copy, Clone)]
pub enum SubscribeTopic {
    /// The channel allocation of all universes.
    DMXConfiguration,
}

/// When the server sends updates of a topic.
#[derive(Debug, PartialEq, Eq, Structural, Copy, Clone)]
pub enum UpdateMode {
    /// Only when the data changes.
    OnChange,
    /// At a set interval, whether or not the data changed.
    Continuous,
}

/// One channel as a client shows it.
#[derive(Debug)]
pub enum DMXConfigurationForClient {
    /// The channel is not allocated.
    Empty,
    /// The channel is allocated to a property of a fixture.
    Reserved {
        /// The fixture's name.
        fixture_name: String,
        /// The property on this channel.
        property_type: PropertyType,
        /// 0 for the coarse channel, 1 for the first fine channel, and so on.
        fine_degree: usize,
        /// A short hash of the fixture's type name, for color coding.
        fixture_type_hash: u8,
    },
}

/// The abstract form of a channel as a client shows it (the hash left out).
pub enum ClientCellView {
    Empty,
    Reserved(Seq<char>, PropertyType, usize),
}

impl DMXConfigurationForClient {
    /// The abstract form, without the type hash.
    pub open spec fn cell_view(&self) -> ClientCellView {
        match self {
            DMXConfigurationForClient::Empty => ClientCellView::Empty,
            DMXConfigurationForClient::Reserved { fixture_name, property_type, fine_degree, .. } =>
                ClientCellView::Reserved(fixture_name@, *property_type, *fine_degree),
        }
    }
}

impl Clone for DMXConfigurationForClient {
    fn clone(&self) -> (r: Self)
        ensures
            r == *self,
    {
        match self {
            DMXConfigurationForClient::Empty => DMXConfigurationForClient::Empty,
            DMXConfigurationForClient::Reserved { fixture_name, property_type, fine_degree, fixture_type_hash } =>
                DMXConfigurationForClient::Reserved {
                    fixture_name: fixture_name.clone(),
                    property_type: property_type.clone(),
                    fine_degree: *fine_degree,
                    fixture_type_hash: *fixture_type_hash,
                },
        }
    }
}

/// The data of a topic update.
#[derive(Debug)]
pub enum TopicPayload {
    /// The channel allocation, universe by universe.
    DMXConfiguration(Vec<Vec<DMXConfigurationForClient>>),
}

impl TopicPayload {
    /// The topic this data belongs to.
    pub fn get_topic(&self) -> (r: SubscribeTopic)
        ensures
            r == SubscribeTopic::DMXConfiguration,
    {
        match self {
            TopicPayload::DMXConfiguration(_) => SubscribeTopic::DMXConfiguration,
        }
    }
}

} // verus!
