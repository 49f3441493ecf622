//! Incremental frame decoding: bytes accumulate until they form one complete
//! JSON response unit of the model server.
use vstd::prelude::*;
use vstd::utf8::{valid_utf8, decode_utf8};

verus! {

/// The response unit that `text` holds as one JSON value: the `message`
/// object's `content` text and the `done` flag, or `None` when `text` is not
/// one such value.
pub uninterp spec fn json_frame(text: Seq<char>) -> Option<(Seq<char>, bool)>;

/// Relies on `std::str::from_utf8`: it accepts exactly the well-formed UTF-8
/// byte sequences and then holds the characters they encode.
#[verifier::external_body]
fn utf8_text(bytes: &[u8]) -> (r: Option<&str>)
    ensures
        r is Some <==> valid_utf8(bytes@),
        r matches Some(t) ==> t@ == decode_utf8(bytes@),
{
    std::str::from_utf8(bytes).ok()
}

/// Relies on `serde_json::from_str` reading `text` as one JSON value (and on
/// `Value::get`, `as_str`, `as_bool` picking its fields): the frame is that
/// value's `message.content` string and its boolean `done`.
#[verifier::external_body]
fn parse_frame(text: &str) -> (r: Option<(String, bool)>)
    ensures
        r is None <==> json_frame(text@) is None,
        r matches Some(f) ==> json_frame(text@) == Some((f.0@, f.1)),
{
    let value: serde_json::Value = serde_json::from_str(text).ok()?;
    let content = value.get("message")?.get("content")?.as_str()?;
    let done = value.get("done")?.as_bool()?;
    Some((content.to_string(), done))
}

/// The frame that the bytes `b` hold: none unless they are well-formed UTF-8
/// whose text is one complete response unit.
pub open spec fn frame_of(b: Seq<u8>) -> Option<(Seq<char>, bool)> {
    if valid_utf8(b) {
        json_frame(decode_utf8(b))
    } else {
        None
    }
}

/// One decoded response unit: a piece of the reply and whether it is the last.
#[derive(Debug, Clone)]
pub struct Frame {
    pub content: String,
    pub done: bool,
}

/// Accumulates raw bytes until they form a complete frame.
#[derive(Debug)]
pub struct FrameDecoder {
    buffer: Vec<u8>,
}

impl View for FrameDecoder {
    type V = Seq<u8>;

    closed spec fn view(&self) -> Seq<u8> {
        self.buffer@
    }
}

impl FrameDecoder {
    /// A decoder with an empty buffer.
    pub fn new() -> (r: Self)
        ensures
            r@ == Seq::<u8>::empty(),
    {
        FrameDecoder { buffer: Vec::new() }
    }

    /// Appends `chunk` to the buffer and tries to read the whole buffer as one
    /// frame. On success the frame is returned and the buffer emptied; else the
    /// buffer keeps every byte and nothing is returned.
    pub fn push(&mut self, chunk: &[u8]) -> (r: Option<Frame>)
        ensures
            ({
                let b = old(self)@ + chunk@;
                match frame_of(b) {
                    Some(f) => {
                        &&& r matches Some(out) && out.content@ == f.0 && out.done == f.1
                        &&& final(self)@ == Seq::<u8>::empty()
                    },
                    None => r is None && final(self)@ == b,
                }
            }),
    {
        let ghost before = self.buffer@;
        let mut i: usize = 0;
        while i < chunk.len()
            invariant
                i <= chunk@.len(),
                self.buffer@ == before + chunk@.take(i as int),
            decreases chunk@.len() - i,
        {
            self.buffer.push(chunk[i]);
            i = i + 1;
            assert(self.buffer@ =~= before + chunk@.take(i as int));
        }
        assert(chunk@.take(chunk@.len() as int) =~= chunk@);
        let decoded = match utf8_text(self.buffer.as_slice()) {
            Some(text) => parse_frame(text),
            None => None,
        };
        match decoded {
            Some((content, done)) => {
                self.buffer.clear();
                Some(Frame { content, done })
            },
            None => None,
        }
    }

    /// Whether no bytes are waiting.
    pub fn is_empty(&self) -> (r: bool)
        ensures
            r == (self@.len() == 0),
    {
        self.buffer.len() == 0
    }
}

} // verus!
