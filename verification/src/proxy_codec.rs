//! Handshake messages of proxied streams in frames.
use crate::bytes::{un32, Reader};
use crate::frame::{
    announced, announced_length, framed, unframe, unframed, write_frame_within, FrameFault,
};
use crate::proxy::{
    enc_open, enc_response, handshake_error, lemma_open_len, valid_open, OpenModel, OpenProxyStreamV1,
    ProxyOpenResponseV1, ProxyProtocolError, MAX_PROXY_HANDSHAKE_FRAME,
};
use vstd::prelude::*;

verus! {

/// What a fault of a frame means in this protocol.
pub open spec fn frame_failure(fault: FrameFault) -> ProxyProtocolError {
    match fault {
        FrameFault::TooLong => ProxyProtocolError::FrameTooLarge,
        _ => ProxyProtocolError::Malformed,
    }
}

fn failure_of(fault: FrameFault) -> (r: ProxyProtocolError)
    ensures
        r == frame_failure(fault),
{
    match fault {
        FrameFault::TooLong => ProxyProtocolError::FrameTooLarge,
        _ => ProxyProtocolError::Malformed,
    }
}

/// The length of the body that a frame header announces.
pub fn body_length(header: [u8; 4]) -> (r: Result<usize, ProxyProtocolError>)
    ensures
        match announced(un32(header@), MAX_PROXY_HANDSHAKE_FRAME as int) {
            Ok(length) => r matches Ok(v) && v == length,
            Err(fault) => r == Err::<usize, ProxyProtocolError>(frame_failure(fault)),
        },
{
    match announced_length(header, MAX_PROXY_HANDSHAKE_FRAME) {
        Ok(length) => Ok(length),
        Err(fault) => Err(failure_of(fault)),
    }
}

/// Reads a frame.
pub fn read_frame(reader: &mut Reader<'_>) -> (r: Result<Vec<u8>, ProxyProtocolError>)
    ensures
        match unframed(old(reader)@, MAX_PROXY_HANDSHAKE_FRAME as int) {
            Ok((body, rest)) => r matches Ok(b) && b@ == body && final(reader)@ == rest,
            Err(fault) => r == Err::<Vec<u8>, ProxyProtocolError>(frame_failure(fault)),
        },
{
    match unframe(reader, MAX_PROXY_HANDSHAKE_FRAME) {
        Ok(body) => Ok(body),
        Err(fault) => Err(failure_of(fault)),
    }
}

/// Writes a frame.
pub fn write_frame(out: &mut Vec<u8>, body: &[u8]) -> (r: Result<(), ProxyProtocolError>)
    ensures
        match r {
            Ok(()) => 1 <= body@.len() <= MAX_PROXY_HANDSHAKE_FRAME && final(out)@ == old(out)@ + framed(
                body@,
            ),
            Err(error) => (body@.len() == 0 || body@.len() > MAX_PROXY_HANDSHAKE_FRAME) && error
                == ProxyProtocolError::FrameTooLarge && final(out)@ == old(out)@,
        },
{
    match write_frame_within(out, body, MAX_PROXY_HANDSHAKE_FRAME) {
        Ok(()) => Ok(()),
        Err(_) => Err(ProxyProtocolError::FrameTooLarge),
    }
}

/// Reads a request to open a stream.
pub fn read_open(reader: &mut Reader<'_>) -> (r: Result<OpenProxyStreamV1, ProxyProtocolError>)
    ensures
        match unframed(old(reader)@, MAX_PROXY_HANDSHAKE_FRAME as int) {
            Ok((body, rest)) => final(reader)@ == rest && match r {
                Ok(open) => valid_open(open@) && body == enc_open(open@),
                Err(error) => error == handshake_error(body) && forall|m: OpenModel|
                    valid_open(m) ==> #[trigger] enc_open(m) != body,
            },
            Err(fault) => r == Err::<OpenProxyStreamV1, ProxyProtocolError>(frame_failure(fault)),
        },
{
    match read_frame(reader) {
        Ok(body) => OpenProxyStreamV1::decode(body.as_slice()),
        Err(error) => Err(error),
    }
}

/// Reads an answer.
pub fn read_response(reader: &mut Reader<'_>) -> (r: Result<ProxyOpenResponseV1, ProxyProtocolError>)
    ensures
        match unframed(old(reader)@, MAX_PROXY_HANDSHAKE_FRAME as int) {
            Ok((body, rest)) => final(reader)@ == rest && match r {
                Ok(m) => body == enc_response(m),
                Err(error) => error == handshake_error(body) && forall|m: ProxyOpenResponseV1|
                    #[trigger] enc_response(m) != body,
            },
            Err(fault) => r == Err::<ProxyOpenResponseV1, ProxyProtocolError>(frame_failure(fault)),
        },
{
    match read_frame(reader) {
        Ok(body) => ProxyOpenResponseV1::decode(body.as_slice()),
        Err(error) => Err(error),
    }
}

/// Writes a request to open a stream.
pub fn write_open(out: &mut Vec<u8>, open: &OpenProxyStreamV1) -> (r: Result<(), ProxyProtocolError>)
    ensures
        r is Ok,
        final(out)@ == old(out)@ + framed(enc_open(open@)),
{
    match open.canonical_bytes() {
        Ok(body) => {
            assert(body@.len() > 0) by {
                assert(enc_open(open@)[0] == 1u8);
            }
            write_frame(out, body.as_slice())
        },
        Err(error) => Err(error),
    }
}

/// Writes an answer.
pub fn write_response(out: &mut Vec<u8>, response: &ProxyOpenResponseV1) -> (r: Result<
    (),
    ProxyProtocolError,
>)
    ensures
        r is Ok,
        final(out)@ == old(out)@ + framed(enc_response(*response)),
{
    match response.canonical_bytes() {
        Ok(body) => {
            assert(body@.len() > 0) by {
                assert(enc_response(*response)[0] == 1u8);
            }
            write_frame(out, body.as_slice())
        },
        Err(error) => Err(error),
    }
}

/// A request to open a stream that was written is what is read.
pub proof fn law_open_round_trip(m: OpenModel, rest: Seq<u8>)
    requires
        valid_open(m),
    ensures
        unframed(framed(enc_open(m)) + rest, MAX_PROXY_HANDSHAKE_FRAME as int) == Ok::<
            (Seq<u8>, Seq<u8>),
            FrameFault,
        >((enc_open(m), rest)),
{
    lemma_open_len(m);
    assert(enc_open(m)[0] == 1u8);
    crate::frame::law_unframed_round_trip(enc_open(m), rest, MAX_PROXY_HANDSHAKE_FRAME as int);
}

/// A handshake holds four kibibytes at most: a header that announces more is refused as too
/// large, one that announces nothing as malformed.
pub proof fn law_frames_are_bounded(header: [u8; 4], r: Result<usize, ProxyProtocolError>)
    requires
        call_ensures(body_length, (header,), r),
    ensures
        ({
            let n = header@[0] * 0x100_0000 + header@[1] * 0x1_0000 + header@[2] * 0x100 + header@[3];
            &&& 1 <= n <= 4096 ==> r is Ok && r->Ok_0 == n
            &&& n > 4096 ==> r == Err::<usize, ProxyProtocolError>(ProxyProtocolError::FrameTooLarge)
            &&& n == 0 ==> r == Err::<usize, ProxyProtocolError>(ProxyProtocolError::Malformed)
        }),
{
    let s = header@;
    assert(s.len() == 4);
    crate::bytes::law_numbers_are_read_from_the_top(s);
    assert(s.subrange(0, 4) =~= s);
    assert(crate::bytes::split_u32(s) == Some((un32(s), s.subrange(4, 4))));
}

/// A frame is too large if it announces too much, and malformed if it announces
/// nothing or ends too soon.
pub proof fn law_frame_faults_are_told_apart(fault: FrameFault)
    ensures
        fault is TooLong <==> frame_failure(fault) is FrameTooLarge,
        fault is Empty || fault is Short <==> frame_failure(fault) is Malformed,
{
}

/// A body is written as a frame behind what was there, if it is not empty and no
/// longer than four kibibytes; another one is refused and nothing is written.
pub proof fn law_frames_are_written_within_bounds(out: &mut Vec<u8>, body: &[u8], r: Result<(), ProxyProtocolError>)
    requires
        call_ensures(write_frame, (out, body), r),
    ensures
        r is Ok <==> 1 <= body@.len() <= 4096,
        r is Err ==> r->Err_0 == ProxyProtocolError::FrameTooLarge && final(out)@ == old(out)@,
        r is Ok ==> {
            let n = body@.len();
            let s = final(out)@;
            &&& s.len() == old(out)@.len() + 4 + n
            &&& s.subrange(0, old(out)@.len() as int) == old(out)@
            &&& s.subrange(old(out)@.len() as int + 4, s.len() as int) == body@
        },
{
    crate::bytes::law_numbers_are_written_from_the_top(0, body@.len() as u32, 0);
    if r is Ok {
        let s = final(out)@;
        assert(s.subrange(0, old(out)@.len() as int) =~= old(out)@);
        assert(s.subrange(old(out)@.len() as int + 4, s.len() as int) =~= body@);
    }
}

} // verus!
