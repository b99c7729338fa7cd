//! What is known of a tunnel when its data has stopped.
use crate::lifecycle::TunnelTerminalClass;
use vstd::prelude::*;

verus! {

/// Why data stopped.
#[derive(Clone, Copy, Debug, PartialEq, Eq, Structural)]
pub enum Terminal {
    Complete,
    IdleTimeout,
    Cancelled,
    LocalIo,
    RemoteIo,
}

/// What went through a tunnel. The duration is in nanoseconds.
#[derive(Clone, Copy, Debug, PartialEq, Eq, Structural)]
pub struct PumpResult {
    pub terminal: Terminal,
    pub local_to_remote_bytes: u64,
    pub remote_to_local_bytes: u64,
    pub local_eof: bool,
    pub remote_eof: bool,
    pub duration: u64,
}

/// How the end of a tunnel is reported.
pub open spec fn class_of(terminal: Terminal) -> TunnelTerminalClass {
    match terminal {
        Terminal::Complete => TunnelTerminalClass::Complete,
        Terminal::IdleTimeout => TunnelTerminalClass::IdleTimeout,
        Terminal::Cancelled => TunnelTerminalClass::Cancelled,
        Terminal::LocalIo => TunnelTerminalClass::LocalIo,
        Terminal::RemoteIo => TunnelTerminalClass::RemoteIo,
    }
}

/// How the end of a tunnel is reported.
pub fn proxy_terminal_class(terminal: Terminal) -> (r: TunnelTerminalClass)
    ensures
        r == class_of(terminal),
{
    match terminal {
        Terminal::Complete => TunnelTerminalClass::Complete,
        Terminal::IdleTimeout => TunnelTerminalClass::IdleTimeout,
        Terminal::Cancelled => TunnelTerminalClass::Cancelled,
        Terminal::LocalIo => TunnelTerminalClass::LocalIo,
        Terminal::RemoteIo => TunnelTerminalClass::RemoteIo,
    }
}

/// The end of a tunnel is reported for what it was: each cause under its own
/// name.
pub proof fn law_ends_are_told_apart(a: Terminal, b: Terminal)
    ensures
        class_of(a) == class_of(b) ==> a == b,
        a == Terminal::Complete <==> class_of(a) == TunnelTerminalClass::Complete,
        a == Terminal::IdleTimeout <==> class_of(a) == TunnelTerminalClass::IdleTimeout,
        a == Terminal::Cancelled <==> class_of(a) == TunnelTerminalClass::Cancelled,
        a == Terminal::LocalIo <==> class_of(a) == TunnelTerminalClass::LocalIo,
        a == Terminal::RemoteIo <==> class_of(a) == TunnelTerminalClass::RemoteIo,
{
}

} // verus!
