//! The file-exchange protocol: its name, its two messages and their codec.
//!
//! An exchange is one request, then one response, each a single frame. The
//! request names a file; the response carries its content.

use crate::frame::{decode_frame, encode_frame, spec_decode, spec_encode, FrameError};
use vstd::prelude::*;

verus! {

/// The protocol that peers negotiate for a file exchange.
#[derive(Debug, Clone)]
pub struct FileSwapProtocol();

/// Reads and writes the protocol's messages.
#[derive(Clone)]
pub struct FileSwapCodec();

/// Asks for the file with the given name.
#[derive(Debug, Clone, PartialEq, Eq)]
pub struct FileRequest(pub String);

/// Carries the content of the file that was asked for.
#[derive(Debug, Clone, PartialEq, Eq)]
pub struct FileResponse(pub String);

impl View for FileRequest {
    type V = Seq<char>;

    open spec fn view(&self) -> Seq<char> {
        self.0@
    }
}

impl View for FileResponse {
    type V = Seq<char>;

    open spec fn view(&self) -> Seq<char> {
        self.0@
    }
}

impl FileSwapProtocol {
    /// The name under which the protocol is negotiated.
    pub fn protocol_name(&self) -> (name: &'static str)
        ensures
            name@ == "/dfs/1"@,
    {
        "/dfs/1"
    }
}

/// What writing a message does to the stream: the frame is appended, or the
/// stream is left as it was and the error says why.
pub open spec fn spec_written(
    before: Seq<u8>,
    after: Seq<u8>,
    text: Seq<char>,
    r: Result<(), FrameError>,
) -> bool {
    match spec_encode(text) {
        Ok(frame) => r is Ok && after == before + frame,
        Err(e) => r == Err::<(), FrameError>(e) && after == before,
    }
}

impl FileSwapCodec {
    /// Reads a request from the bytes of an inbound stream.
    pub fn read_request(&mut self, _protocol: &FileSwapProtocol, io: &[u8]) -> (r: Result<
        FileRequest,
        FrameError,
    >)
        ensures
            match r {
                Ok(request) => spec_decode(io@) == Ok::<Seq<char>, FrameError>(request@),
                Err(e) => spec_decode(io@) == Err::<Seq<char>, FrameError>(e),
            },
    {
        match decode_frame(io) {
            Ok(text) => Ok(FileRequest(text)),
            Err(e) => Err(e),
        }
    }

    /// Reads a response from the bytes of an inbound stream.
    pub fn read_response(&mut self, _protocol: &FileSwapProtocol, io: &[u8]) -> (r: Result<
        FileResponse,
        FrameError,
    >)
        ensures
            match r {
                Ok(response) => spec_decode(io@) == Ok::<Seq<char>, FrameError>(response@),
                Err(e) => spec_decode(io@) == Err::<Seq<char>, FrameError>(e),
            },
    {
        match decode_frame(io) {
            Ok(text) => Ok(FileResponse(text)),
            Err(e) => Err(e),
        }
    }

    /// Writes a request to an outbound stream. The caller closes the stream
    /// after it, which tells the peer that the message is complete.
    pub fn write_request(
        &mut self,
        _protocol: &FileSwapProtocol,
        io: &mut Vec<u8>,
        request: FileRequest,
    ) -> (r: Result<(), FrameError>)
        ensures
            spec_written(old(io)@, final(io)@, request@, r),
    {
        match encode_frame(request.0.as_str()) {
            Ok(mut frame) => {
                io.append(&mut frame);
                Ok(())
            },
            Err(e) => Err(e),
        }
    }

    /// Writes a response to an outbound stream. The caller closes the stream
    /// after it, which tells the peer that the message is complete.
    pub fn write_response(
        &mut self,
        _protocol: &FileSwapProtocol,
        io: &mut Vec<u8>,
        response: FileResponse,
    ) -> (r: Result<(), FrameError>)
        ensures
            spec_written(old(io)@, final(io)@, response@, r),
    {
        match encode_frame(response.0.as_str()) {
            Ok(mut frame) => {
                io.append(&mut frame);
                Ok(())
            },
            Err(e) => Err(e),
        }
    }
}

} // verus!
