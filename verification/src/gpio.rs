//! GPIO button abstraction for Raspberry Pi appliance deployments.
use vstd::prelude::*;

verus! {

/// A button press read from GPIO.
#[derive(Debug, Clone, Copy, PartialEq, Eq, Structural)]
pub enum GpioEvent {
    Mark,
    Replay,
    ReplayLast,
    ReturnLive,
}

/// A source of GPIO button presses, polled by the engine.
pub trait GpioButtonSource {
    fn poll(&mut self) -> Option<GpioEvent>;
}

/// Placeholder source for boards without wired buttons: never reports a press.
pub struct StubGpio;

impl GpioButtonSource for StubGpio {
    fn poll(&mut self) -> (r: Option<GpioEvent>)
        ensures
            r is None,
    {
        None
    }
}

} // verus!
