use vstd::prelude::*;

verus! {

/// How long to wait for reports of the hardware layer.
#[derive(Debug, Clone, Copy, PartialEq, Eq, Structural)]
pub enum PollMode {
    /// Take what is pending.
    NoWait,
    /// Wait until a report comes.
    WaitInfinite,
    /// Wait until a report comes, for so many milliseconds at most.
    WaitTimeout(u64),
}

impl PollMode {
    /// The timeout as `poll` takes it: milliseconds, zero for no wait, minus
    /// one for no end.
    pub open spec fn spec_raw_timeout_millis(self) -> int {
        match self {
            PollMode::NoWait => 0,
            PollMode::WaitInfinite => -1,
            PollMode::WaitTimeout(millis) => millis as int,
        }
    }

    /// The timeout as `poll` takes it.
    pub fn raw_timeout_millis(self) -> (timeout: i32)
        requires
            self matches PollMode::WaitTimeout(millis) ==> millis <= i32::MAX,
        ensures
            timeout == self.spec_raw_timeout_millis(),
    {
        match self {
            PollMode::NoWait => 0,
            PollMode::WaitInfinite => -1,
            PollMode::WaitTimeout(millis) => millis as i32,
        }
    }
}

} // verus!
