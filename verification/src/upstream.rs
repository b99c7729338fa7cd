//! Connecting an upstream. Times are nanoseconds.
use crate::error::PublicErrorCode;
use crate::service_config::LocalUpstream;
use vstd::prelude::*;

verus! {

#[derive(Clone, Copy, Debug, PartialEq, Eq, Structural)]
pub enum ConnectError {
    Timeout,
    Failed,
}

/// The code that is shown to the other side.
pub open spec fn connect_code(error: ConnectError) -> PublicErrorCode {
    match error {
        ConnectError::Timeout => PublicErrorCode::UpstreamConnectTimeout,
        ConnectError::Failed => PublicErrorCode::UpstreamConnectFailed,
    }
}

impl ConnectError {
    /// The code that is shown to the other side.
    pub fn code(self) -> (r: PublicErrorCode)
        ensures
            r == connect_code(self),
    {
        match self {
            ConnectError::Timeout => PublicErrorCode::UpstreamConnectTimeout,
            ConnectError::Failed => PublicErrorCode::UpstreamConnectFailed,
        }
    }
}

/// How long connecting may take: as long as the upstream allows, but not longer
/// than there is time.
pub open spec fn connect_budget(connect_timeout: u64, remaining: u64) -> u64 {
    if connect_timeout < remaining {
        connect_timeout
    } else {
        remaining
    }
}

/// How long connecting an upstream may take.
pub fn timeout_for(upstream: &LocalUpstream, remaining: u64) -> (r: u64)
    ensures
        r == connect_budget(upstream.connect_timeout, remaining),
{
    if upstream.connect_timeout < remaining {
        upstream.connect_timeout
    } else {
        remaining
    }
}

/// The time for which an upstream is to be connected; without any there is no
/// attempt.
pub fn connect_time(upstream: &LocalUpstream, remaining: u64) -> (r: Result<u64, ConnectError>)
    ensures
        r == if connect_budget(upstream.connect_timeout, remaining) == 0 {
            Err::<u64, ConnectError>(ConnectError::Timeout)
        } else {
            Ok(connect_budget(upstream.connect_timeout, remaining))
        },
{
    let budget: u64 = timeout_for(upstream, remaining);
    if budget == 0 {
        return Err(ConnectError::Timeout);
    }
    Ok(budget)
}

/// How an attempt to connect ended.
#[derive(Clone, Copy, Debug, PartialEq, Eq, Structural)]
pub enum ConnectOutcome {
    Connected,
    Refused,
    TimedOut,
    Cancelled,
}

/// What an attempt to connect amounts to.
pub fn classify(outcome: ConnectOutcome) -> (r: Result<(), ConnectError>)
    ensures
        r == match outcome {
            ConnectOutcome::Connected => Ok::<(), ConnectError>(()),
            ConnectOutcome::Refused => Err(ConnectError::Failed),
            ConnectOutcome::TimedOut => Err(ConnectError::Timeout),
            ConnectOutcome::Cancelled => Err(ConnectError::Timeout),
        },
{
    match outcome {
        ConnectOutcome::Connected => Ok(()),
        ConnectOutcome::Refused => Err(ConnectError::Failed),
        ConnectOutcome::TimedOut => Err(ConnectError::Timeout),
        ConnectOutcome::Cancelled => Err(ConnectError::Timeout),
    }
}

/// Whether a pause fits into the time that is left.
pub fn hold_fits(delay: u64, remaining: u64) -> (r: Result<(), ConnectError>)
    ensures
        r == if delay > remaining {
            Err::<(), ConnectError>(ConnectError::Timeout)
        } else {
            Ok(())
        },
{
    if delay > remaining {
        return Err(ConnectError::Timeout);
    }
    Ok(())
}

/// Connecting never takes longer than there is time.
pub proof fn law_connecting_fits_the_budget(connect_timeout: u64, remaining: u64)
    ensures
        connect_budget(connect_timeout, remaining) <= remaining,
        connect_budget(connect_timeout, remaining) <= connect_timeout,
{
}

/// An upstream is connected for the shorter of the time it allows and the time
/// that is left, and not at all if that is none.
pub proof fn law_connecting_takes_the_shorter_time(
    upstream: &LocalUpstream,
    remaining: u64,
    r: Result<u64, ConnectError>,
)
    requires
        call_ensures(connect_time, (upstream, remaining), r),
    ensures
        upstream.connect_timeout == 0 || remaining == 0 <==> r == Err::<u64, ConnectError>(
            ConnectError::Timeout,
        ),
        r matches Ok(time) ==> time <= upstream.connect_timeout && time <= remaining && (time
            == upstream.connect_timeout || time == remaining),
        !(r matches Err(ConnectError::Failed)),
{
}

/// An upstream counts as connected only if it is; one that refuses has failed,
/// and one that does not answer in time, or is not waited for, is late. The
/// other side is told these two apart.
pub proof fn law_connecting_fails_in_two_ways(outcome: ConnectOutcome, r: Result<(), ConnectError>)
    requires
        call_ensures(classify, (outcome,), r),
    ensures
        r is Ok <==> outcome == ConnectOutcome::Connected,
        r == Err::<(), ConnectError>(ConnectError::Failed) <==> outcome == ConnectOutcome::Refused,
        r == Err::<(), ConnectError>(ConnectError::Timeout) <==> outcome == ConnectOutcome::TimedOut
            || outcome == ConnectOutcome::Cancelled,
        connect_code(ConnectError::Timeout) == PublicErrorCode::UpstreamConnectTimeout,
        connect_code(ConnectError::Failed) == PublicErrorCode::UpstreamConnectFailed,
{
}

/// A pause is made only if it ends within the time that is left.
pub proof fn law_pauses_fit_or_are_late(delay: u64, remaining: u64, r: Result<(), ConnectError>)
    requires
        call_ensures(hold_fits, (delay, remaining), r),
    ensures
        r is Ok <==> delay <= remaining,
        r is Err ==> r == Err::<(), ConnectError>(ConnectError::Timeout),
{
}

} // verus!
