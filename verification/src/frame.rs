//! Length-prefixed frames.
use crate::bytes::{be32, put_bytes, put_u32, split_bytes, split_u32, Reader};
use vstd::prelude::*;

verus! {

/// The longest body of an authentication frame.
pub const MAX_AUTH_FRAME: usize = 4096;

/// Why a frame could not be read or written.
#[derive(Clone, Copy, Debug, PartialEq, Eq, Structural)]
pub enum FrameError {
    /// The body to write is empty or too long.
    InvalidInput,
    /// The announced length is zero or too long.
    InvalidData,
    /// The bytes end before the frame does.
    UnexpectedEof,
}

/// A body preceded by its length as four bytes.
pub open spec fn framed(body: Seq<u8>) -> Seq<u8> {
    be32(body.len() as u32) + body
}

/// What becomes of bytes that should start with a frame of at most `max`
/// bytes: the body and what follows it, or the reason why there is none.
pub open spec fn split_frame(s: Seq<u8>, max: int) -> Result<(Seq<u8>, Seq<u8>), FrameError> {
    match split_u32(s) {
        None => Err(FrameError::UnexpectedEof),
        Some((n, rest)) => if n == 0 || n > max {
            Err(FrameError::InvalidData)
        } else {
            match split_bytes(rest, n as int) {
                Some((body, tail)) => Ok((body, tail)),
                None => Err(FrameError::UnexpectedEof),
            }
        },
    }
}

/// A frame that was written is read back, whatever follows it.
pub proof fn law_frame_round_trip(body: Seq<u8>, rest: Seq<u8>, max: int)
    requires
        1 <= body.len() <= max,
        max <= u32::MAX,
    ensures
        split_frame(framed(body) + rest, max) == Ok::<(Seq<u8>, Seq<u8>), FrameError>((body, rest)),
{
    crate::bytes::lemma_add_assoc(be32(body.len() as u32), body, rest);
    crate::bytes::lemma_split_u32(body.len() as u32, body + rest);
    crate::bytes::lemma_split_bytes(body, rest);
}

/// What is read as a frame is what writing its body gives, and its length is
/// within bounds.
pub proof fn law_frame_is_canonical(s: Seq<u8>, max: int)
    ensures
        split_frame(s, max) matches Ok((body, rest)) ==> s == framed(body) + rest && 1 <= body.len()
            <= max,
{
    crate::bytes::lemma_join_u32(s);
    if let Some((n, rest)) = split_u32(s) {
        crate::bytes::lemma_join_bytes(rest, n as int);
        if let Some((body, tail)) = split_bytes(rest, n as int) {
            crate::bytes::lemma_add_assoc(be32(n), body, tail);
        }
    }
}

/// The body length that a frame header announces.
pub fn frame_length(header: [u8; 4], max: usize) -> (r: Result<usize, FrameError>)
    ensures
        ({
            let n = crate::bytes::un32(header@);
            match r {
                Ok(length) => length == n && 1 <= n <= max,
                Err(error) => (n == 0 || n > max) && error == FrameError::InvalidData,
            }
        }),
{
    let mut reader = Reader::new(&header);
    let ghost all = reader@;
    assert(all.subrange(0, 4) =~= header@);
    match reader.u32() {
        Some(n) => {
            let length: usize = n as usize;
            if length == 0 || length > max {
                Err(FrameError::InvalidData)
            } else {
                Ok(length)
            }
        },
        None => Err(FrameError::InvalidData),
    }
}

/// Reads a frame whose body has at most `max` bytes.
pub fn read_frame_within(reader: &mut Reader<'_>, max: usize) -> (r: Result<Vec<u8>, FrameError>)
    ensures
        match split_frame(old(reader)@, max as int) {
            Ok((body, rest)) => r matches Ok(b) && b@ == body && final(reader)@ == rest,
            Err(error) => r == Err::<Vec<u8>, FrameError>(error),
        },
{
    match reader.u32() {
        None => Err(FrameError::UnexpectedEof),
        Some(n) => {
            let length: usize = n as usize;
            if length == 0 || length > max {
                return Err(FrameError::InvalidData);
            }
            match reader.take(length) {
                Some(body) => Ok(vstd::slice::slice_to_vec(body)),
                None => Err(FrameError::UnexpectedEof),
            }
        },
    }
}

/// Writes a frame whose body has at most `max` bytes.
pub fn write_frame_within(out: &mut Vec<u8>, body: &[u8], max: usize) -> (r: Result<(), FrameError>)
    requires
        max <= u32::MAX,
    ensures
        match r {
            Ok(()) => 1 <= body@.len() <= max && final(out)@ == old(out)@ + framed(body@),
            Err(error) => (body@.len() == 0 || body@.len() > max) && error == FrameError::InvalidInput
                && final(out)@ == old(out)@,
        },
{
    if body.len() == 0 || body.len() > max {
        return Err(FrameError::InvalidInput);
    }
    let ghost before = out@;
    put_u32(out, body.len() as u32);
    put_bytes(out, body);
    proof {
        crate::bytes::lemma_add_assoc(before, be32(body@.len() as u32), body@);
    }
    Ok(())
}

/// Reads an authentication frame.
pub fn read_frame(reader: &mut Reader<'_>) -> (r: Result<Vec<u8>, FrameError>)
    ensures
        match split_frame(old(reader)@, MAX_AUTH_FRAME as int) {
            Ok((body, rest)) => r matches Ok(b) && b@ == body && final(reader)@ == rest,
            Err(error) => r == Err::<Vec<u8>, FrameError>(error),
        },
{
    read_frame_within(reader, MAX_AUTH_FRAME)
}

/// Writes an authentication frame.
pub fn write_frame(out: &mut Vec<u8>, body: &[u8]) -> (r: Result<(), FrameError>)
    ensures
        match r {
            Ok(()) => 1 <= body@.len() <= MAX_AUTH_FRAME && final(out)@ == old(out)@ + framed(body@),
            Err(error) => (body@.len() == 0 || body@.len() > MAX_AUTH_FRAME) && error
                == FrameError::InvalidInput && final(out)@ == old(out)@,
        },
{
    write_frame_within(out, body, MAX_AUTH_FRAME)
}

/// What is wrong with a frame, told apart.
#[derive(Clone, Copy, Debug, PartialEq, Eq, Structural)]
pub enum FrameFault {
    /// The announced length is zero.
    Empty,
    /// The announced length is too long.
    TooLong,
    /// The bytes end before the frame does.
    Short,
}

/// The length that a frame header announces, if it is one of at most `max`.
pub open spec fn announced(n: u32, max: int) -> Result<int, FrameFault> {
    if n == 0 {
        Err(FrameFault::Empty)
    } else if n > max {
        Err(FrameFault::TooLong)
    } else {
        Ok(n as int)
    }
}

/// What becomes of bytes that should start with a frame of at most `max` bytes.
pub open spec fn unframed(s: Seq<u8>, max: int) -> Result<(Seq<u8>, Seq<u8>), FrameFault> {
    match split_u32(s) {
        None => Err(FrameFault::Short),
        Some((n, rest)) => match announced(n, max) {
            Err(fault) => Err(fault),
            Ok(length) => match split_bytes(rest, length) {
                Some((body, rest)) => Ok((body, rest)),
                None => Err(FrameFault::Short),
            },
        },
    }
}

/// A frame that was written is read back, whatever follows it.
pub proof fn law_unframed_round_trip(body: Seq<u8>, rest: Seq<u8>, max: int)
    requires
        1 <= body.len() <= max,
        max <= u32::MAX,
    ensures
        unframed(framed(body) + rest, max) == Ok::<(Seq<u8>, Seq<u8>), FrameFault>((body, rest)),
{
    law_frame_round_trip(body, rest, max);
}

fn check_announced(n: u32, max: usize) -> (r: Result<usize, FrameFault>)
    ensures
        match announced(n, max as int) {
            Ok(length) => r matches Ok(v) && v == length,
            Err(fault) => r == Err::<usize, FrameFault>(fault),
        },
{
    if n == 0 {
        return Err(FrameFault::Empty);
    }
    if n as usize > max {
        return Err(FrameFault::TooLong);
    }
    Ok(n as usize)
}

/// The length of the body that a frame header announces.
pub(crate) fn announced_length(header: [u8; 4], max: usize) -> (r: Result<usize, FrameFault>)
    ensures
        match announced(crate::bytes::un32(header@), max as int) {
            Ok(length) => r matches Ok(v) && v == length,
            Err(fault) => r == Err::<usize, FrameFault>(fault),
        },
{
    let mut reader = Reader::new(&header);
    assert(header@.subrange(0, 4) =~= header@);
    match reader.u32() {
        Some(n) => check_announced(n, max),
        None => Err(FrameFault::Short),
    }
}

/// Reads a frame whose body has at most `max` bytes, and tells faults apart.
pub(crate) fn unframe(reader: &mut Reader<'_>, max: usize) -> (r: Result<Vec<u8>, FrameFault>)
    ensures
        match unframed(old(reader)@, max as int) {
            Ok((body, rest)) => r matches Ok(b) && b@ == body && final(reader)@ == rest,
            Err(fault) => r == Err::<Vec<u8>, FrameFault>(fault),
        },
{
    let n: u32 = match reader.u32() {
        Some(n) => n,
        None => return Err(FrameFault::Short),
    };
    let length: usize = match check_announced(n, max) {
        Ok(length) => length,
        Err(fault) => return Err(fault),
    };
    match reader.take(length) {
        Some(body) => Ok(vstd::slice::slice_to_vec(body)),
        None => Err(FrameFault::Short),
    }
}

/// A frame is four bytes of length and so many bytes: they are read as far as the
/// length goes, unless it is zero or too long, or the bytes end before.
pub proof fn law_frames_are_read_as_announced(s: Seq<u8>, max: int)
    ensures
        s.len() < 4 ==> split_frame(s, max) == Err::<(Seq<u8>, Seq<u8>), FrameError>(FrameError::UnexpectedEof)
            && unframed(s, max) == Err::<(Seq<u8>, Seq<u8>), FrameFault>(FrameFault::Short),
        s.len() >= 4 ==> ({
            let n = s[0] * 0x100_0000 + s[1] * 0x1_0000 + s[2] * 0x100 + s[3];
            let body = s.subrange(4, 4 + n);
            let rest = s.subrange(4 + n, s.len() as int);
            &&& n == 0 || n > max ==> split_frame(s, max) == Err::<(Seq<u8>, Seq<u8>), FrameError>(
                FrameError::InvalidData,
            )
            &&& n == 0 ==> unframed(s, max) == Err::<(Seq<u8>, Seq<u8>), FrameFault>(FrameFault::Empty)
            &&& n > 0 && n > max ==> unframed(s, max) == Err::<(Seq<u8>, Seq<u8>), FrameFault>(
                FrameFault::TooLong,
            )
            &&& 0 < n <= max && s.len() < 4 + n ==> split_frame(s, max) == Err::<
                (Seq<u8>, Seq<u8>),
                FrameError,
            >(FrameError::UnexpectedEof) && unframed(s, max) == Err::<(Seq<u8>, Seq<u8>), FrameFault>(
                FrameFault::Short,
            )
            &&& 0 < n <= max && s.len() >= 4 + n ==> split_frame(s, max) == Ok::<
                (Seq<u8>, Seq<u8>),
                FrameError,
            >((body, rest)) && unframed(s, max) == Ok::<(Seq<u8>, Seq<u8>), FrameFault>((body, rest))
        }),
{
    crate::bytes::law_numbers_are_read_from_the_top(s);
    if s.len() >= 4 {
        let n = s[0] * 0x100_0000 + s[1] * 0x1_0000 + s[2] * 0x100 + s[3];
        let tail = s.subrange(4, s.len() as int);
        if s.len() >= 4 + n {
            assert(tail.subrange(0, n) =~= s.subrange(4, 4 + n));
            assert(tail.subrange(n, tail.len() as int) =~= s.subrange(4 + n, s.len() as int));
        }
    }
}

/// A header announces the length in its four bytes, if that is neither zero nor too
/// long; authentication frames hold four kibibytes at most.
pub proof fn law_headers_announce_their_length(header: [u8; 4], max: usize, r: Result<usize, FrameError>)
    requires
        call_ensures(frame_length, (header, max), r),
    ensures
        ({
            let n = header@[0] * 0x100_0000 + header@[1] * 0x1_0000 + header@[2] * 0x100 + header@[3];
            &&& 0 < n <= max ==> r is Ok && r->Ok_0 == n
            &&& n == 0 || n > max ==> r is Err && r->Err_0 == FrameError::InvalidData
        }),
        MAX_AUTH_FRAME == 4 * 1024,
{
    let s = header@;
    assert(s.len() == 4);
    crate::bytes::law_numbers_are_read_from_the_top(s);
    assert(s.subrange(0, 4) =~= s);
    assert(split_u32(s) == Some((crate::bytes::un32(s), s.subrange(4, 4))));
}

/// A body is written as a frame behind what was there, if it is not empty and no
/// longer than four kibibytes; another one is refused and nothing is written.
pub proof fn law_frames_are_written_within_bounds(out: &mut Vec<u8>, body: &[u8], r: Result<(), FrameError>)
    requires
        call_ensures(write_frame, (out, body), r),
    ensures
        r is Ok <==> 1 <= body@.len() <= 4096,
        r is Err ==> r->Err_0 == FrameError::InvalidInput && final(out)@ == old(out)@,
        r is Ok ==> {
            let n = body@.len();
            let s = final(out)@;
            &&& s.len() == old(out)@.len() + 4 + n
            &&& s.subrange(0, old(out)@.len() as int) == old(out)@
            &&& s.subrange(old(out)@.len() as int + 4, s.len() as int) == body@
        },
{
    crate::bytes::law_numbers_are_written_from_the_top(0, body@.len() as u32, 0);
    if r is Ok {
        let s = final(out)@;
        assert(s.subrange(0, old(out)@.len() as int) =~= old(out)@);
        assert(s.subrange(old(out)@.len() as int + 4, s.len() as int) =~= body@);
    }
}

} // verus!
