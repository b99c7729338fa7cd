//! Messages of the resolve protocol in frames.
use crate::bytes::{un32, Reader};
use crate::frame::{
    announced, announced_length, framed, unframe, unframed, write_frame_within, FrameFault,
};
use crate::resolve::{ResolveProtocolError, MAX_RESOLVE_FRAME};
use vstd::prelude::*;

verus! {

/// The name of the resolve protocol.
pub const RESOLVE_PROTOCOL: &'static str = "/p2x/resolve/1";

/// What a fault of a frame means in this protocol.
pub open spec fn frame_failure(fault: FrameFault) -> ResolveProtocolError {
    match fault {
        FrameFault::TooLong => ResolveProtocolError::FrameTooLarge,
        _ => ResolveProtocolError::Malformed,
    }
}

fn failure_of(fault: FrameFault) -> (r: ResolveProtocolError)
    ensures
        r == frame_failure(fault),
{
    match fault {
        FrameFault::TooLong => ResolveProtocolError::FrameTooLarge,
        _ => ResolveProtocolError::Malformed,
    }
}

/// The length of the body that a frame header announces.
pub fn body_length(header: [u8; 4]) -> (r: Result<usize, ResolveProtocolError>)
    ensures
        match announced(un32(header@), MAX_RESOLVE_FRAME as int) {
            Ok(length) => r matches Ok(v) && v == length,
            Err(fault) => r == Err::<usize, ResolveProtocolError>(frame_failure(fault)),
        },
{
    match announced_length(header, MAX_RESOLVE_FRAME) {
        Ok(length) => Ok(length),
        Err(fault) => Err(failure_of(fault)),
    }
}

/// Reads a frame.
pub fn read_frame(reader: &mut Reader<'_>) -> (r: Result<Vec<u8>, ResolveProtocolError>)
    ensures
        match unframed(old(reader)@, MAX_RESOLVE_FRAME as int) {
            Ok((body, rest)) => r matches Ok(b) && b@ == body && final(reader)@ == rest,
            Err(fault) => r == Err::<Vec<u8>, ResolveProtocolError>(frame_failure(fault)),
        },
{
    match unframe(reader, MAX_RESOLVE_FRAME) {
        Ok(body) => Ok(body),
        Err(fault) => Err(failure_of(fault)),
    }
}

/// Writes a frame.
pub fn write_frame(out: &mut Vec<u8>, body: &[u8]) -> (r: Result<(), ResolveProtocolError>)
    ensures
        match r {
            Ok(()) => 1 <= body@.len() <= MAX_RESOLVE_FRAME && final(out)@ == old(out)@ + framed(
                body@,
            ),
            Err(error) => (body@.len() == 0 || body@.len() > MAX_RESOLVE_FRAME) && error
                == ResolveProtocolError::FrameTooLarge && final(out)@ == old(out)@,
        },
{
    match write_frame_within(out, body, MAX_RESOLVE_FRAME) {
        Ok(()) => Ok(()),
        Err(_) => Err(ResolveProtocolError::FrameTooLarge),
    }
}

/// A message holds sixteen kibibytes at most: a header that announces more is refused as too
/// large, one that announces nothing as malformed.
pub proof fn law_frames_are_bounded(header: [u8; 4], r: Result<usize, ResolveProtocolError>)
    requires
        call_ensures(body_length, (header,), r),
    ensures
        ({
            let n = header@[0] * 0x100_0000 + header@[1] * 0x1_0000 + header@[2] * 0x100 + header@[3];
            &&& 1 <= n <= 16384 ==> r is Ok && r->Ok_0 == n
            &&& n > 16384 ==> r == Err::<usize, ResolveProtocolError>(ResolveProtocolError::FrameTooLarge)
            &&& n == 0 ==> r == Err::<usize, ResolveProtocolError>(ResolveProtocolError::Malformed)
        }),
{
    let s = header@;
    assert(s.len() == 4);
    crate::bytes::law_numbers_are_read_from_the_top(s);
    assert(s.subrange(0, 4) =~= s);
    assert(crate::bytes::split_u32(s) == Some((un32(s), s.subrange(4, 4))));
}

/// A frame is too large if it announces too much, and malformed if it announces
/// nothing or ends too soon.
pub proof fn law_frame_faults_are_told_apart(fault: FrameFault)
    ensures
        fault is TooLong <==> frame_failure(fault) is FrameTooLarge,
        fault is Empty || fault is Short <==> frame_failure(fault) is Malformed,
{
}

/// A body is written as a frame behind what was there, if it is not empty and no
/// longer than sixteen kibibytes; another one is refused and nothing is written.
pub proof fn law_frames_are_written_within_bounds(out: &mut Vec<u8>, body: &[u8], r: Result<(), ResolveProtocolError>)
    requires
        call_ensures(write_frame, (out, body), r),
    ensures
        r is Ok <==> 1 <= body@.len() <= 16384,
        r is Err ==> r->Err_0 == ResolveProtocolError::FrameTooLarge && final(out)@ == old(out)@,
        r is Ok ==> {
            let n = body@.len();
            let s = final(out)@;
            &&& s.len() == old(out)@.len() + 4 + n
            &&& s.subrange(0, old(out)@.len() as int) == old(out)@
            &&& s.subrange(old(out)@.len() as int + 4, s.len() as int) == body@
        },
{
    crate::bytes::law_numbers_are_written_from_the_top(0, body@.len() as u32, 0);
    if r is Ok {
        let s = final(out)@;
        assert(s.subrange(0, old(out)@.len() as int) =~= old(out)@);
        assert(s.subrange(old(out)@.len() as int + 4, s.len() as int) =~= body@);
    }
}

} // verus!
