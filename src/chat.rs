//! The chat protocol: one message per stream, ended by closing the stream.
use vstd::prelude::*;

verus! {

/// The protocol tag under which the chat exchange is negotiated.
pub const PROTOCOL_NAME: &'static str = "/chat/1.0.0";

/// Names the chat protocol to the transport's protocol negotiation.
#[derive(Clone)]
pub struct ChatProtocol();

impl ChatProtocol {
    /// The negotiated protocol tag.
    pub fn as_ref(&self) -> (r: &'static str)
        ensures
            r@ == PROTOCOL_NAME@,
    {
        PROTOCOL_NAME
    }
}

/// An outbound chat message: opaque bytes.
#[derive(Clone, Debug, PartialEq, Eq)]
pub struct ChatRequest(pub Vec<u8>);

/// The answer to a request: again opaque bytes.
#[derive(Clone, Debug, PartialEq, Eq)]
pub struct ChatResponse(pub ChatRequest);

/// What one read from a stream gave.
pub enum ReadOutcome {
    /// Bytes read; an empty chunk means the stream has ended.
    Data(Vec<u8>),
    /// The stream has no more data for now.
    WouldBlock,
    /// Any other failure of the read.
    Failed,
}

/// What the reader does after a read.
#[derive(Clone, Copy, Debug, PartialEq, Eq, Structural)]
pub enum ReadStep {
    /// Read again.
    More,
    /// The message is complete.
    Done,
    /// Give up with the read's error.
    Fail,
}

/// Plain-value form of a read outcome.
pub enum ReadModel {
    Data(Seq<u8>),
    WouldBlock,
    Failed,
}

impl ReadOutcome {
    pub open spec fn model(&self) -> ReadModel {
        match self {
            ReadOutcome::Data(v) => ReadModel::Data(v@),
            ReadOutcome::WouldBlock => ReadModel::WouldBlock,
            ReadOutcome::Failed => ReadModel::Failed,
        }
    }
}

/// Bytes written for a message: the payload itself, nothing around it.
pub open spec fn encode(m: Seq<u8>) -> Seq<u8> {
    m
}

/// The step taken after one read.
pub open spec fn step_of(o: ReadModel) -> ReadStep {
    match o {
        ReadModel::Data(c) => if c.len() == 0 { ReadStep::Done } else { ReadStep::More },
        ReadModel::WouldBlock => ReadStep::Done,
        ReadModel::Failed => ReadStep::Fail,
    }
}

/// The message that a sequence of reads yields, read until the first read that
/// ends it; `None` where a failure comes first, or where no read ends it.
pub open spec fn decode(reads: Seq<ReadModel>) -> Option<Seq<u8>>
    decreases reads.len(),
{
    if reads.len() == 0 {
        None
    } else {
        match reads[0] {
            ReadModel::Data(c) => if c.len() == 0 {
                Some(Seq::empty())
            } else {
                match decode(reads.drop_first()) {
                    Some(rest) => Some(c + rest),
                    None => None,
                }
            },
            ReadModel::WouldBlock => Some(Seq::empty()),
            ReadModel::Failed => None,
        }
    }
}

/// The reads that deliver the given chunks in order, then the end of stream.
pub open spec fn reads_of(chunks: Seq<Seq<u8>>) -> Seq<ReadModel> {
    chunks.map_values(|c: Seq<u8>| ReadModel::Data(c)).push(ReadModel::Data(Seq::empty()))
}

/// The chunks put end to end.
pub open spec fn concat(chunks: Seq<Seq<u8>>) -> Seq<u8>
    decreases chunks.len(),
{
    if chunks.len() == 0 {
        Seq::empty()
    } else {
        chunks[0] + concat(chunks.drop_first())
    }
}

/// A chunking that a stream can deliver: no chunk is empty, since an empty
/// read means the end.
pub open spec fn proper_chunks(chunks: Seq<Seq<u8>>) -> bool {
    forall|i: int| 0 <= i < chunks.len() ==> (#[trigger] chunks[i]).len() > 0
}

/// Any message, written out and read back in any chunking that the stream
/// delivers it in, is read as the same message.
pub proof fn lemma_round_trip(m: Seq<u8>, chunks: Seq<Seq<u8>>)
    requires
        proper_chunks(chunks),
        concat(chunks) == encode(m),
    ensures
        decode(reads_of(chunks)) == Some(m),
    decreases chunks.len(),
{
    if chunks.len() == 0 {
        assert(reads_of(chunks)[0] == ReadModel::Data(Seq::<u8>::empty()));
    } else {
        let rest = chunks.drop_first();
        assert(proper_chunks(rest)) by {
            assert forall|i: int| 0 <= i < rest.len() implies (#[trigger] rest[i]).len() > 0 by {
                assert(rest[i] == chunks[i + 1]);
            }
        }
        lemma_round_trip(concat(rest), rest);
        assert(reads_of(chunks).drop_first() =~= reads_of(rest));
        assert(chunks[0].len() > 0);
    }
}

/// Reads and writes chat messages; the same framing serves both directions.
#[derive(Clone, Default)]
pub struct ChatCodec();

impl ChatCodec {
    /// The bytes to write for a request, after which the stream is closed.
    pub fn write_request(&self, req: &ChatRequest) -> (r: Vec<u8>)
        ensures
            r@ == encode(req.0@),
    {
        req.0.clone()
    }

    /// The bytes to write for a response, after which the stream is closed.
    pub fn write_response(&self, resp: &ChatResponse) -> (r: Vec<u8>)
        ensures
            r@ == encode(resp.0.0@),
    {
        resp.0.0.clone()
    }

    /// Takes in one read: the bytes it gave join the buffer, and the step
    /// says whether to read again, to stop with the buffer, or to fail.
    pub fn read_step(&self, buf: &mut Vec<u8>, outcome: &ReadOutcome) -> (r: ReadStep)
        ensures
            r == step_of(outcome.model()),
            final(buf)@ == match outcome.model() {
                ReadModel::Data(c) => old(buf)@ + c,
                _ => old(buf)@,
            },
    {
        match outcome {
            ReadOutcome::Data(chunk) => {
                let mut i: usize = 0;
                while i < chunk.len()
                    invariant
                        i <= chunk.len(),
                        buf@ == old(buf)@ + chunk@.subrange(0, i as int),
                    decreases chunk.len() - i,
                {
                    buf.push(chunk[i]);
                    i = i + 1;
                    assert(chunk@.subrange(0, i as int) =~= chunk@.subrange(0, i - 1 as int).push(chunk@[i - 1]));
                }
                assert(chunk@.subrange(0, chunk.len() as int) =~= chunk@);
                if chunk.len() == 0 {
                    ReadStep::Done
                } else {
                    ReadStep::More
                }
            },
            ReadOutcome::WouldBlock => ReadStep::Done,
            ReadOutcome::Failed => ReadStep::Fail,
        }
    }

    /// Reads a whole request from the given reads, taken in order until one
    /// ends the message; `None` where a read fails first or none ends it.
    pub fn read_request(&self, reads: &Vec<ReadOutcome>) -> (r: Option<ChatRequest>)
        ensures
            r matches Some(q) ==> decode(reads@.map_values(|o: ReadOutcome| o.model())) == Some(q.0@),
            r is None ==> decode(reads@.map_values(|o: ReadOutcome| o.model())) is None,
    {
        let ghost ms = reads@.map_values(|o: ReadOutcome| o.model());
        let mut buf: Vec<u8> = Vec::new();
        let mut i: usize = 0;
        proof {
            assert(ms.subrange(0, ms.len() as int) =~= ms);
            match decode(ms) {
                Some(d) => {
                    assert(buf@ + d =~= d);
                },
                None => {},
            }
        }
        while i < reads.len()
            invariant
                i <= reads.len(),
                ms == reads@.map_values(|o: ReadOutcome| o.model()),
                decode(ms) == match decode(ms.subrange(i as int, ms.len() as int)) {
                    Some(rest) => Some(buf@ + rest),
                    None => None::<Seq<u8>>,
                },
            decreases reads.len() - i,
        {
            let ghost before = buf@;
            let ghost tail = ms.subrange(i as int, ms.len() as int);
            assert(tail.drop_first() =~= ms.subrange(i + 1, ms.len() as int));
            assert(tail[0] == reads@[i as int].model());
            let step = self.read_step(&mut buf, &reads[i]);
            match step {
                ReadStep::More => {
                    assert(decode(ms) == match decode(ms.subrange(i + 1, ms.len() as int)) {
                        Some(rest) => Some(buf@ + rest),
                        None => None::<Seq<u8>>,
                    }) by {
                        match decode(ms.subrange(i + 1, ms.len() as int)) {
                            Some(rest) => {
                                assert(before + (buf@.subrange(before.len() as int, buf@.len() as int) + rest) =~= buf@ + rest);
                            },
                            None => {},
                        }
                    }
                },
                ReadStep::Done => {
                    assert(buf@ + Seq::<u8>::empty() =~= buf@);
                    assert(before + Seq::<u8>::empty() =~= before);
                    return Some(ChatRequest(buf));
                },
                ReadStep::Fail => {
                    return None;
                },
            }
            i = i + 1;
        }
        None
    }

    /// Reads a whole response; the framing is that of a request.
    pub fn read_response(&self, reads: &Vec<ReadOutcome>) -> (r: Option<ChatResponse>)
        ensures
            r matches Some(q) ==> decode(reads@.map_values(|o: ReadOutcome| o.model())) == Some(q.0.0@),
            r is None ==> decode(reads@.map_values(|o: ReadOutcome| o.model())) is None,
    {
        match self.read_request(reads) {
            Some(q) => Some(ChatResponse(q)),
            None => None,
        }
    }
}

} // verus!
