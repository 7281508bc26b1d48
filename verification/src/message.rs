//! What crosses the transport: payloads with a tag that tells binary data
//! from a structured record, change notifications and query replies. The
//! transport itself is the caller's; these types hold what the protocol
//! reads from its messages.

use vstd::prelude::*;

verus! {

/// How a payload is tagged.
#[derive(Debug, Clone, Copy, PartialEq, Eq, Structural)]
pub enum Encoding {
    /// Raw bytes: the content of a chunk.
    Binary,
    /// A structured text: a serialized metadata record.
    Structured,
    /// Any other tag.
    Other,
}

/// What a change notification announces.
#[derive(Debug, Clone, Copy, PartialEq, Eq, Structural)]
pub enum SampleKind {
    /// A value was written.
    Put,
    /// A value was updated.
    Patch,
    /// A value was retracted.
    Delete,
}

/// One reply to a query.
#[derive(Debug, PartialEq, Eq)]
pub struct Reply {
    pub encoding: Encoding,
    pub payload: Vec<u8>,
}

/// A reply with its payload as a sequence of bytes.
pub struct ReplyView {
    pub encoding: Encoding,
    pub payload: Seq<u8>,
}

impl View for Reply {
    type V = ReplyView;

    open spec fn view(&self) -> ReplyView {
        ReplyView { encoding: self.encoding, payload: self.payload@ }
    }
}

impl Clone for Reply {
    fn clone(&self) -> (copy: Self)
        ensures
            copy@ == self@,
    {
        let payload = self.payload.clone();
        assert(payload@ =~= self.payload@);
        Reply { encoding: self.encoding, payload }
    }
}

/// The replies to one query, each by its view.
pub open spec fn replies_view(replies: Seq<Reply>) -> Seq<ReplyView> {
    replies.map_values(|r: Reply| r@)
}

/// A value under a key: a change notification that a server receives, or
/// the answer that it gives to a query.
#[derive(Debug, PartialEq, Eq)]
pub struct Sample {
    pub res_name: String,
    pub encoding: Encoding,
    pub payload: Vec<u8>,
    pub kind: SampleKind,
}

/// A sample with its key and payload as sequences.
pub struct SampleView {
    pub res_name: Seq<char>,
    pub encoding: Encoding,
    pub payload: Seq<u8>,
    pub kind: SampleKind,
}

impl View for Sample {
    type V = SampleView;

    open spec fn view(&self) -> SampleView {
        SampleView {
            res_name: self.res_name@,
            encoding: self.encoding,
            payload: self.payload@,
            kind: self.kind,
        }
    }
}

impl Clone for Sample {
    fn clone(&self) -> (copy: Self)
        ensures
            copy@ == self@,
    {
        let payload = self.payload.clone();
        assert(payload@ =~= self.payload@);
        Sample {
            res_name: self.res_name.clone(),
            encoding: self.encoding,
            payload,
            kind: self.kind,
        }
    }
}

} // verus!
