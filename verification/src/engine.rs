//! Engine configuration and bootstrap.
//!
//! An [`EngineProfile`] is the value that describes how guest bytecode is run
//! on a target without an operating system, without virtual memory and with
//! little physical memory. A profile is checked against the constraints of
//! such a target before an engine is built from it.

use vstd::prelude::*;

verus! {

/// How guest code is executed.
#[derive(Clone, Copy, Debug, PartialEq, Eq, Structural)]
pub enum ExecutionStrategy {
    /// Portable bytecode, interpreted, with 32-bit pointers.
    Pulley32,
    /// Portable bytecode, interpreted, with 64-bit pointers.
    Pulley64,
    /// Machine code of the processor the host runs on.
    Native,
}

impl ExecutionStrategy {
    /// Whether guest code is interpreted rather than run as machine code.
    pub open spec fn interpreted(self) -> bool {
        self != ExecutionStrategy::Native
    }

    /// Whether guest code is interpreted rather than run as machine code.
    pub fn is_interpreted(self) -> (interpreted: bool)
        ensures
            interpreted == self.interpreted(),
    {
        match self {
            ExecutionStrategy::Pulley32 => true,
            ExecutionStrategy::Pulley64 => true,
            ExecutionStrategy::Native => false,
        }
    }

    /// Name of the compilation target of an interpreted strategy. Machine
    /// code has no portable target.
    pub fn target(self) -> (target: Option<&'static str>)
        ensures
            target is Some <==> self.interpreted(),
            self == ExecutionStrategy::Pulley32 ==> target == Some("pulley32"),
            self == ExecutionStrategy::Pulley64 ==> target == Some("pulley64"),
    {
        match self {
            ExecutionStrategy::Pulley32 => Some("pulley32"),
            ExecutionStrategy::Pulley64 => Some("pulley64"),
            ExecutionStrategy::Native => None,
        }
    }
}

/// The constraint of the target that a profile breaks.
#[derive(Clone, Copy, Debug, PartialEq, Eq, Structural)]
pub enum ProfileError {
    /// Guest code would run as machine code.
    NativeExecution,
    /// Components are switched off, so no component artifact could be loaded.
    ComponentModelDisabled,
    /// Garbage collection is switched on.
    GarbageCollection,
    /// Traps would be detected through signals of an operating system.
    SignalBasedTraps,
    /// Memory would be initialised by copy-on-write mappings.
    CopyOnWriteInit,
    /// Guard regions are asked for.
    GuardRegion,
    /// Memory beyond the declared size of a linear memory is asked for.
    MemoryReservation,
    /// The guest's call stack has no bound.
    StackUnbounded,
    /// The bound of the guest's call stack is not below the stack of the
    /// host thread.
    StackTooLarge,
}

/// Execution profile of the engine.
#[derive(Clone, Copy, Debug, PartialEq, Eq, Structural)]
pub struct EngineProfile {
    /// How guest code is executed.
    pub strategy: ExecutionStrategy,
    /// Whether components can be loaded.
    pub component_model: bool,
    /// Whether garbage collection is available to guests.
    pub gc_support: bool,
    /// Whether traps are detected through signals instead of explicit checks.
    pub signals_based_traps: bool,
    /// Whether linear memory is initialised by copy-on-write mappings.
    pub memory_init_cow: bool,
    /// Bytes of guard region after each linear memory.
    pub memory_guard_size: u64,
    /// Bytes set aside for each linear memory at the least.
    pub memory_reservation: u64,
    /// Bytes set aside after each linear memory for it to grow into.
    pub memory_reservation_for_growth: u64,
    /// Largest size of the guest's call stack, in bytes.
    pub max_wasm_stack: usize,
}

/// Largest size of the guest's call stack on the constrained target.
pub const CONSTRAINED_STACK_BYTES: usize = 32768;

impl EngineProfile {
    /// The first constraint of the target that the profile breaks on a host
    /// thread with `host_stack_bytes` of stack, if it breaks any.
    pub open spec fn violation(self, host_stack_bytes: usize) -> Option<ProfileError> {
        if !self.strategy.interpreted() {
            Some(ProfileError::NativeExecution)
        } else if !self.component_model {
            Some(ProfileError::ComponentModelDisabled)
        } else if self.gc_support {
            Some(ProfileError::GarbageCollection)
        } else if self.signals_based_traps {
            Some(ProfileError::SignalBasedTraps)
        } else if self.memory_init_cow {
            Some(ProfileError::CopyOnWriteInit)
        } else if self.memory_guard_size != 0 {
            Some(ProfileError::GuardRegion)
        } else if self.memory_reservation != 0 || self.memory_reservation_for_growth != 0 {
            Some(ProfileError::MemoryReservation)
        } else if self.max_wasm_stack == 0 {
            Some(ProfileError::StackUnbounded)
        } else if self.max_wasm_stack >= host_stack_bytes {
            Some(ProfileError::StackTooLarge)
        } else {
            None
        }
    }

    /// Whether the profile fits the constrained target: interpreted
    /// execution, no garbage collection, explicit trap checks, no
    /// copy-on-write, no guard region, no memory beyond the declared size,
    /// and a bounded guest stack below the stack of the host thread.
    pub open spec fn constrained(self, host_stack_bytes: usize) -> bool {
        self.violation(host_stack_bytes) is None
    }

    /// Bytes up to which one linear memory of `declared` bytes can grow
    /// without more memory being taken for it.
    pub open spec fn memory_capacity(self, declared: nat) -> nat {
        (if declared >= self.memory_reservation {
            declared
        } else {
            self.memory_reservation as nat
        }) + self.memory_reservation_for_growth as nat
    }

    /// Bytes set aside for one linear memory of `declared` bytes, guard
    /// region included.
    pub open spec fn memory_footprint(self, declared: nat) -> nat {
        self.memory_capacity(declared) + self.memory_guard_size as nat
    }

    /// The profile of the constrained target: portable interpretation with
    /// 32-bit pointers, components on, and a guest stack of
    /// [`CONSTRAINED_STACK_BYTES`].
    pub fn constrained_target() -> (profile: EngineProfile)
        ensures
            profile == (EngineProfile {
                strategy: ExecutionStrategy::Pulley32,
                component_model: true,
                gc_support: false,
                signals_based_traps: false,
                memory_init_cow: false,
                memory_guard_size: 0,
                memory_reservation: 0,
                memory_reservation_for_growth: 0,
                max_wasm_stack: CONSTRAINED_STACK_BYTES,
            }),
            forall|host_stack_bytes: usize|
                host_stack_bytes > CONSTRAINED_STACK_BYTES ==> #[trigger] profile.constrained(
                    host_stack_bytes,
                ),
    {
        EngineProfile {
            strategy: ExecutionStrategy::Pulley32,
            component_model: true,
            gc_support: false,
            signals_based_traps: false,
            memory_init_cow: false,
            memory_guard_size: 0,
            memory_reservation: 0,
            memory_reservation_for_growth: 0,
            max_wasm_stack: CONSTRAINED_STACK_BYTES,
        }
    }

    /// Checks the profile against the constraints of the target, for a host
    /// thread with `host_stack_bytes` of stack.
    pub fn check(&self, host_stack_bytes: usize) -> (checked: Result<(), ProfileError>)
        ensures
            checked == match self.violation(host_stack_bytes) {
                Some(error) => Err::<(), ProfileError>(error),
                None => Ok(()),
            },
            checked is Ok <==> self.constrained(host_stack_bytes),
    {
        if !self.strategy.is_interpreted() {
            Err(ProfileError::NativeExecution)
        } else if !self.component_model {
            Err(ProfileError::ComponentModelDisabled)
        } else if self.gc_support {
            Err(ProfileError::GarbageCollection)
        } else if self.signals_based_traps {
            Err(ProfileError::SignalBasedTraps)
        } else if self.memory_init_cow {
            Err(ProfileError::CopyOnWriteInit)
        } else if self.memory_guard_size != 0 {
            Err(ProfileError::GuardRegion)
        } else if self.memory_reservation != 0 || self.memory_reservation_for_growth != 0 {
            Err(ProfileError::MemoryReservation)
        } else if self.max_wasm_stack == 0 {
            Err(ProfileError::StackUnbounded)
        } else if self.max_wasm_stack >= host_stack_bytes {
            Err(ProfileError::StackTooLarge)
        } else {
            Ok(())
        }
    }

    /// Decides a request to grow a linear memory that was declared with
    /// `declared_bytes` to `desired_bytes`: the request is granted only if
    /// the memory stays within what the profile sets aside for it. Under a
    /// profile without any reservation no memory grows beyond its declared
    /// size.
    pub fn permits_growth(&self, declared_bytes: u64, desired_bytes: u64) -> (granted: bool)
        ensures
            granted == (desired_bytes <= self.memory_capacity(declared_bytes as nat)),
            self.memory_reservation == 0 && self.memory_reservation_for_growth == 0 ==> (granted
                <==> desired_bytes <= declared_bytes),
    {
        let base: u64 = if declared_bytes >= self.memory_reservation {
            declared_bytes
        } else {
            self.memory_reservation
        };
        match base.checked_add(self.memory_reservation_for_growth) {
            Some(capacity) => desired_bytes <= capacity,
            None => true,
        }
    }
}

/// Under a profile that fits the constrained target, what is set aside for a
/// linear memory is exactly its declared size, and every request to grow a
/// memory beyond its declared size is refused.
pub proof fn lemma_constrained_memory_is_exact(
    profile: EngineProfile,
    host_stack_bytes: usize,
    declared: nat,
    desired: nat,
)
    requires
        profile.constrained(host_stack_bytes),
    ensures
        profile.memory_footprint(declared) == declared,
        profile.memory_capacity(declared) == declared,
        desired > declared ==> !(desired <= profile.memory_capacity(declared)),
{
}

/// Why no engine came up.
#[derive(Debug)]
pub enum BootError {
    /// The profile breaks a constraint of the target; no engine was asked for.
    Profile(ProfileError),
    /// The profile fits the target, but the engine refused it. The text is
    /// the engine's own account.
    EngineRejected(String),
}

/// `wasmtime::Engine`, carried through as it is: nothing is known of what
/// is inside.
#[verifier::external_type_specification]
#[verifier::external_body]
pub struct ExEngine(wasmtime::Engine);

/// `wasmtime::Error`, carried through as it is: nothing is known of what is
/// inside.
#[verifier::external_type_specification]
#[verifier::external_body]
pub struct ExEngineError(wasmtime::Error);

/// Hands the settings of `profile` and the target name to a fresh
/// `wasmtime::Config`, through `Config::target`, `wasm_component_model`,
/// `gc_support`, `signals_based_traps`, `memory_init_cow`,
/// `memory_guard_size`, `memory_reservation`, `max_wasm_stack` and
/// `memory_reservation_for_growth`, and calls `wasmtime::Engine::new` on it.
///
/// Nothing is claimed of the result: whether wasmtime takes a configuration
/// depends on how wasmtime was built and on the machine it runs on.
#[verifier::external_body]
fn build_engine(target: &str, profile: &EngineProfile) -> (built: Result<
    wasmtime::Engine,
    wasmtime::Error,
>) {
    let mut config = wasmtime::Config::new();
    config.target(target)?;
    config.wasm_component_model(profile.component_model);
    config.gc_support(profile.gc_support);
    config.signals_based_traps(profile.signals_based_traps);
    config.memory_init_cow(profile.memory_init_cow);
    config.memory_guard_size(profile.memory_guard_size);
    config.memory_reservation(profile.memory_reservation);
    config.max_wasm_stack(profile.max_wasm_stack);
    config.memory_reservation_for_growth(profile.memory_reservation_for_growth);
    wasmtime::Engine::new(&config)
}

/// Renders a `wasmtime::Error` with its `Debug` implementation.
///
/// Nothing is claimed of the text.
#[verifier::external_body]
fn rejection_text(error: &wasmtime::Error) -> (text: String) {
    format!("{:?}", error)
}

/// What the bootstrap returns for each answer of the engine: the engine if
/// one was built, and else the engine's account of its refusal.
pub fn engine_outcome(built: Result<wasmtime::Engine, wasmtime::Error>) -> (outcome: Result<
    wasmtime::Engine,
    BootError,
>)
    ensures
        built matches Ok(engine) ==> outcome matches Ok(same) && same == engine,
        built is Err ==> outcome matches Err(BootError::EngineRejected(_)),
{
    match built {
        Ok(engine) => Ok(engine),
        Err(error) => Err(BootError::EngineRejected(rejection_text(&error))),
    }
}

/// Builds the engine for `profile` on a host thread with `host_stack_bytes`
/// of stack.
///
/// A profile that breaks a constraint of the target is turned down with the
/// first constraint it breaks, and no engine is asked for. For a profile that
/// fits, wasmtime is asked for an engine under the target name of the
/// profile's strategy, and the answer is what [`engine_outcome`] makes of
/// wasmtime's. Whether wasmtime builds the engine is not decided here.
pub fn bootstrap_engine(profile: &EngineProfile, host_stack_bytes: usize) -> (outcome: Result<
    wasmtime::Engine,
    BootError,
>)
    ensures
        match profile.violation(host_stack_bytes) {
            Some(error) => outcome matches Err(BootError::Profile(found)) && found == error,
            None => outcome is Ok || outcome matches Err(BootError::EngineRejected(_)),
        },
{
    match profile.check(host_stack_bytes) {
        Err(error) => Err(BootError::Profile(error)),
        Ok(()) => {
            match profile.strategy.target() {
                Some(target) => engine_outcome(build_engine(target, profile)),
                None => Err(BootError::Profile(ProfileError::NativeExecution)),
            }
        },
    }
}

} // verus!
