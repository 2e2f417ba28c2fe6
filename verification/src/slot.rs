//! The two deployment slots and their fixed directory and port.

use vstd::prelude::*;

verus! {

/// One of the two slots a child process can run in.
#[derive(Clone, Copy, Debug, PartialEq, Eq, Structural)]
pub enum Deploy {
    Blue,
    Green,
}

impl Deploy {
    /// The port a slot's child listens on.
    pub open spec fn spec_listen_port(self) -> u16 {
        match self {
            Deploy::Blue => 3001,
            Deploy::Green => 3002,
        }
    }

    /// The directory a slot's files are written to.
    pub open spec fn spec_temp_path(self) -> Seq<char> {
        match self {
            Deploy::Blue => "/tmp/refresh-blue"@,
            Deploy::Green => "/tmp/refresh-green"@,
        }
    }

    /// The slot that is not `self`.
    pub open spec fn spec_other(self) -> Deploy {
        match self {
            Deploy::Blue => Deploy::Green,
            Deploy::Green => Deploy::Blue,
        }
    }

    /// The port a slot's child listens on.
    pub fn listen_port(&self) -> (port: u16)
        ensures
            port == self.spec_listen_port(),
    {
        match self {
            Deploy::Blue => 3001,
            Deploy::Green => 3002,
        }
    }

    /// The directory a slot's files are written to.
    pub fn temp_path(&self) -> (dir: &str)
        ensures
            dir@ == self.spec_temp_path(),
    {
        match self {
            Deploy::Blue => "/tmp/refresh-blue",
            Deploy::Green => "/tmp/refresh-green",
        }
    }

    /// The slot that is not `self`.
    pub fn other(&self) -> (next: Deploy)
        ensures
            next == self.spec_other(),
    {
        match self {
            Deploy::Blue => Deploy::Green,
            Deploy::Green => Deploy::Blue,
        }
    }
}

} // verus!
