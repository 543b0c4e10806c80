//! The capability interface between host and guest: one binary output line
//! that can be switched on and off, and a blocking delay in milliseconds.
//!
//! The interface comes in two shapes. In the flat shape the capability state
//! itself serves the calls ([`BlinkyCtx`]). In the contextual shape a larger
//! store payload hands out its capability state through [`BlinkyView`], and
//! the calls are implemented once for every such payload.

use vstd::prelude::*;

verus! {

/// Electrical level of the output line.
#[derive(Clone, Copy, Debug, PartialEq, Eq, Structural)]
pub enum Level {
    /// Inactive.
    Low,
    /// Active.
    High,
}

/// One call made through the capability interface.
#[derive(Clone, Copy, Debug, PartialEq, Eq, Structural)]
pub enum CapabilityCall {
    /// Drive the output to its active level.
    Activate,
    /// Drive the output to its inactive level.
    Deactivate,
    /// Block the caller for the given number of milliseconds.
    Delay(u32),
}

/// The level of the output line once `call` has been served on a line that
/// was at `level`. Switching is idempotent; a delay leaves the line alone.
pub open spec fn level_after(level: Level, call: CapabilityCall) -> Level {
    match call {
        CapabilityCall::Activate => Level::High,
        CapabilityCall::Deactivate => Level::Low,
        CapabilityCall::Delay(_) => level,
    }
}

/// What a guest may call.
///
/// The abstract state of an implementation is the history of the calls it has
/// served. Each call appends exactly one entry and changes nothing else of
/// the history, so calls are neither reordered nor coalesced, and every call
/// succeeds.
pub trait Blinky {
    /// Calls served so far, oldest first.
    spec fn history(&self) -> Seq<CapabilityCall>;

    /// Drives the output to its active level.
    fn activate(&mut self)
        ensures
            final(self).history() == old(self).history().push(CapabilityCall::Activate),
    ;

    /// Drives the output to its inactive level.
    fn deactivate(&mut self)
        ensures
            final(self).history() == old(self).history().push(CapabilityCall::Deactivate),
    ;

    /// Blocks the caller for `milliseconds`.
    fn delay(&mut self, milliseconds: u32)
        ensures
            final(self).history() == old(self).history().push(
                CapabilityCall::Delay(milliseconds),
            ),
    ;
}

/// Capability state owned by the host: the level of the output line, and the
/// calls that were served on it.
pub struct BlinkyCtx {
    /// Level the output line is driven to.
    pub led: Level,
    /// Calls served so far, oldest first.
    pub served: Ghost<Seq<CapabilityCall>>,
}

impl BlinkyCtx {
    /// Capability state for a line that is driven to `led`, with no call
    /// served yet.
    pub fn new(led: Level) -> (ctx: BlinkyCtx)
        ensures
            ctx.led == led,
            ctx.served@ == Seq::<CapabilityCall>::empty(),
    {
        BlinkyCtx { led, served: Ghost(Seq::empty()) }
    }

    /// Level the output line is driven to.
    pub fn level(&self) -> (level: Level)
        ensures
            level == self.led,
    {
        self.led
    }

    /// Whether the output line is at its active level.
    pub fn is_active(&self) -> (active: bool)
        ensures
            active == (self.led == Level::High),
    {
        match self.led {
            Level::High => true,
            Level::Low => false,
        }
    }
}

/// The flat shape: the capability state serves the calls itself.
impl Blinky for BlinkyCtx {
    open spec fn history(&self) -> Seq<CapabilityCall> {
        self.served@
    }

    fn activate(&mut self)
        ensures
            final(self).led == Level::High,
    {
        self.led = Level::High;
        self.served = Ghost(self.served@.push(CapabilityCall::Activate));
    }

    fn deactivate(&mut self)
        ensures
            final(self).led == Level::Low,
    {
        self.led = Level::Low;
        self.served = Ghost(self.served@.push(CapabilityCall::Deactivate));
    }

    fn delay(&mut self, milliseconds: u32)
        ensures
            final(self).led == old(self).led,
    {
        self.served = Ghost(self.served@.push(CapabilityCall::Delay(milliseconds)));
    }
}

/// Access to the capability state inside a store payload.
pub trait BlinkyView {
    /// The capability state this payload holds.
    spec fn ctx(&self) -> BlinkyCtx;

    /// Hands out the capability state for one call. Whatever the caller does
    /// to it is what the payload holds afterwards.
    fn blinky_ctx(&mut self) -> (ctx: &mut BlinkyCtx)
        ensures
            *ctx == old(self).ctx(),
            final(self).ctx() == *final(ctx),
    ;
}

/// The contextual shape: any payload that hands out its capability state
/// serves the calls through it.
impl<T: BlinkyView> Blinky for T {
    open spec fn history(&self) -> Seq<CapabilityCall> {
        self.ctx().served@
    }

    fn activate(&mut self)
        ensures
            final(self).ctx().led == Level::High,
    {
        self.blinky_ctx().activate();
    }

    fn deactivate(&mut self)
        ensures
            final(self).ctx().led == Level::Low,
    {
        self.blinky_ctx().deactivate();
    }

    fn delay(&mut self, milliseconds: u32)
        ensures
            final(self).ctx().led == old(self).ctx().led,
    {
        self.blinky_ctx().delay(milliseconds);
    }
}

/// Payload of the execution store.
pub struct HostState {
    /// Capability state reachable by the guest's calls.
    pub blinky_ctx: BlinkyCtx,
}

impl HostState {
    /// Store payload around a line that is driven to `led`, with no call
    /// served yet.
    pub fn new(led: Level) -> (state: HostState)
        ensures
            state.blinky_ctx.led == led,
            state.blinky_ctx.served@ == Seq::<CapabilityCall>::empty(),
    {
        HostState { blinky_ctx: BlinkyCtx::new(led) }
    }
}

impl BlinkyView for HostState {
    open spec fn ctx(&self) -> BlinkyCtx {
        self.blinky_ctx
    }

    fn blinky_ctx(&mut self) -> (ctx: &mut BlinkyCtx) {
        &mut self.blinky_ctx
    }
}

} // verus!
