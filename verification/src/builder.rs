use core::marker::PhantomData;
use vstd::pervasive::unreached;
use vstd::prelude::*;

use crate::address::BaseUrl;
use crate::http::HttpClient;

verus! {

/// Marks a builder that cannot build a client yet: no data source is set.
#[derive(Debug)]
pub struct DataSourceMissing;

/// Marks a builder that holds a data source and so can build a client.
#[derive(Debug)]
pub struct DataSourceSet;

/// The data source a client connects to and fetches its blocks from.
#[derive(Debug)]
pub enum DataSource {
    /// This variant treats the address as a standard archive service API.
    Subsquid(BaseUrl),
}

impl Clone for DataSource {
    fn clone(&self) -> (r: Self)
        ensures
            r == *self,
    {
        match self {
            DataSource::Subsquid(u) => DataSource::Subsquid(u.clone()),
        }
    }
}

impl PartialEq for DataSource {
    fn eq(&self, other: &Self) -> (r: bool) {
        match (self, other) {
            (DataSource::Subsquid(a), DataSource::Subsquid(b)) => a == b,
        }
    }
}

impl vstd::std_specs::cmp::PartialEqSpecImpl for DataSource {
    open spec fn obeys_eq_spec() -> bool {
        true
    }

    open spec fn eq_spec(&self, other: &Self) -> bool {
        match (self, other) {
            (DataSource::Subsquid(a), DataSource::Subsquid(b)) => a.text@ == b.text@,
        }
    }
}

/// Builder for a streaming client. The type parameter records at compile
/// time whether a data source was set: only a builder in the
/// [`DataSourceSet`] state offers [`build`](ClientBuilder::build), so a
/// client cannot be constructed without a data source.
#[derive(Debug)]
pub struct ClientBuilder<State> {
    pub _phantom_data: PhantomData<State>,
    /// The data source recorded so far.
    pub data_source: Option<DataSource>,
}

impl ClientBuilder<DataSourceMissing> {
    /// A builder with no data source; it offers no way to build a client.
    pub fn new() -> (r: Self)
        ensures
            r.data_source is None,
    {
        ClientBuilder { data_source: None, _phantom_data: PhantomData }
    }
}

impl<State> ClientBuilder<State> {
    /// Records `data_source` as what the built client will connect to,
    /// replacing any source recorded before: the last set source wins.
    pub fn with_data_source(self, data_source: DataSource) -> (r: ClientBuilder<DataSourceSet>)
        ensures
            r.data_source == Some(data_source),
    {
        ClientBuilder { _phantom_data: PhantomData, data_source: Some(data_source) }
    }
}

impl ClientBuilder<DataSourceSet> {
    /// Builds the client for the recorded data source. Only reachable
    /// through [`with_data_source`](ClientBuilder::with_data_source), which
    /// always records a source, so building never fails.
    pub fn build(self) -> (r: HttpClient)
        requires
            self.data_source is Some,
        ensures
            match self.data_source {
                Some(DataSource::Subsquid(u)) => r.base == u,
                None => false,
            },
    {
        match self.data_source {
            Some(DataSource::Subsquid(url)) => HttpClient::new(url),
            None => unreached(),
        }
    }
}

} // verus!
