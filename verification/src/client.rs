use vstd::prelude::*;

verus! {

/// The kinds of failure that end a streaming session.
///
/// Every error is fatal to the session in which it occurs: nothing is
/// retried or swallowed, and the first error encountered is returned to
/// the caller.
#[derive(Clone, Copy, Debug, PartialEq, Eq, Structural)]
pub enum ClientError {
    /// A request could not be sent or its response could not be received.
    HttpRequest,
    /// A response body that should have been text was not valid UTF-8.
    Utf8Decoding,
    /// The height endpoint's body was not a valid decimal integer.
    IntegerDecoding,
    /// A constructed endpoint address was not a valid absolute URL.
    UrlDecoding,
    /// A worker response body was not a valid array of blocks.
    JsonDecoding,
    /// The sink refused or could not accept a block.
    SenderError,
}

/// Error for a failed delivery of a block to a sink.
#[derive(Clone, Copy, Debug, PartialEq, Eq, Structural)]
pub struct SendError;

/// How the first processed block height is chosen.
#[derive(Clone, Copy, Debug)]
pub enum StartHeight {
    /// Start at whatever the service reports as its newest height when the
    /// first polling cycle runs.
    Latest,
    /// Start at this explicit height.
    Since(u64),
}

/// Block header data for the block of the height in `number`.
#[derive(Debug)]
pub struct Header {
    /// The block's height, the sole ordering key.
    pub number: u64,
    /// Opaque identifier of the block.
    pub hash: String,
    /// Opaque identifier of the previous block. The engine does not check
    /// chain continuity across delivered blocks.
    pub parent_hash: String,
}

/// One unit of streamed data, the outermost structure of a worker response.
#[derive(Debug)]
pub struct Block {
    pub header: Header,
}

impl Clone for Header {
    fn clone(&self) -> (r: Self)
        ensures
            r == *self,
    {
        Header { number: self.number, hash: self.hash.clone(), parent_hash: self.parent_hash.clone() }
    }
}

impl Clone for Block {
    fn clone(&self) -> (r: Self)
        ensures
            r == *self,
    {
        Block { header: self.header.clone() }
    }
}

} // verus!
