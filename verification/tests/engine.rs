use pico2_quick::engine::{
    bootstrap_engine, engine_outcome, BootError, EngineProfile, ExecutionStrategy, ProfileError,
    CONSTRAINED_STACK_BYTES,
};

const HOST_STACK: usize = 80 * 1024;

#[test]
fn the_constrained_target_has_the_documented_settings() {
    let profile = EngineProfile::constrained_target();
    assert_eq!(profile.strategy, ExecutionStrategy::Pulley32);
    assert!(profile.component_model);
    assert!(!profile.gc_support);
    assert!(!profile.signals_based_traps);
    assert!(!profile.memory_init_cow);
    assert_eq!(profile.memory_guard_size, 0);
    assert_eq!(profile.memory_reservation, 0);
    assert_eq!(profile.memory_reservation_for_growth, 0);
    assert_eq!(profile.max_wasm_stack, 32 * 1024);
    assert_eq!(CONSTRAINED_STACK_BYTES, 32 * 1024);
    assert_eq!(profile.check(HOST_STACK), Ok(()));
}

#[test]
fn every_constraint_has_its_error() {
    let good = EngineProfile::constrained_target();
    let cases = [
        (EngineProfile { strategy: ExecutionStrategy::Native, ..good }, ProfileError::NativeExecution),
        (EngineProfile { component_model: false, ..good }, ProfileError::ComponentModelDisabled),
        (EngineProfile { gc_support: true, ..good }, ProfileError::GarbageCollection),
        (EngineProfile { signals_based_traps: true, ..good }, ProfileError::SignalBasedTraps),
        (EngineProfile { memory_init_cow: true, ..good }, ProfileError::CopyOnWriteInit),
        (EngineProfile { memory_guard_size: 1, ..good }, ProfileError::GuardRegion),
        (EngineProfile { memory_reservation: 65536, ..good }, ProfileError::MemoryReservation),
        (
            EngineProfile { memory_reservation_for_growth: 1, ..good },
            ProfileError::MemoryReservation,
        ),
        (EngineProfile { max_wasm_stack: 0, ..good }, ProfileError::StackUnbounded),
        (EngineProfile { max_wasm_stack: HOST_STACK, ..good }, ProfileError::StackTooLarge),
        (EngineProfile { max_wasm_stack: HOST_STACK + 1, ..good }, ProfileError::StackTooLarge),
    ];
    for (profile, error) in cases.iter() {
        assert_eq!(profile.check(HOST_STACK), Err(*error));
    }
}

#[test]
fn the_first_broken_constraint_is_reported() {
    let profile = EngineProfile {
        strategy: ExecutionStrategy::Native,
        component_model: false,
        gc_support: true,
        signals_based_traps: true,
        memory_init_cow: true,
        memory_guard_size: 7,
        memory_reservation: 7,
        memory_reservation_for_growth: 7,
        max_wasm_stack: 0,
    };
    assert_eq!(profile.check(HOST_STACK), Err(ProfileError::NativeExecution));
    let profile = EngineProfile { strategy: ExecutionStrategy::Pulley64, ..profile };
    assert_eq!(profile.check(HOST_STACK), Err(ProfileError::ComponentModelDisabled));
    let profile = EngineProfile { component_model: true, gc_support: false, ..profile };
    assert_eq!(profile.check(HOST_STACK), Err(ProfileError::SignalBasedTraps));
}

#[test]
fn the_stack_bound_stays_below_the_host_stack() {
    let profile = EngineProfile::constrained_target();
    assert_eq!(profile.check(32 * 1024 + 1), Ok(()));
    assert_eq!(profile.check(32 * 1024), Err(ProfileError::StackTooLarge));
    assert_eq!(profile.check(0), Err(ProfileError::StackTooLarge));
}

#[test]
fn strategies_name_their_targets() {
    assert_eq!(ExecutionStrategy::Pulley32.target(), Some("pulley32"));
    assert_eq!(ExecutionStrategy::Pulley64.target(), Some("pulley64"));
    assert_eq!(ExecutionStrategy::Native.target(), None);
    assert!(ExecutionStrategy::Pulley32.is_interpreted());
    assert!(ExecutionStrategy::Pulley64.is_interpreted());
    assert!(!ExecutionStrategy::Native.is_interpreted());
}

#[test]
fn growth_beyond_the_declared_size_fails_closed() {
    let profile = EngineProfile::constrained_target();
    let page: u64 = 65536;
    assert!(profile.permits_growth(page, page));
    assert!(profile.permits_growth(page, 0));
    assert!(!profile.permits_growth(page, page + 1));
    assert!(!profile.permits_growth(page, 2 * page));
    assert!(!profile.permits_growth(0, 1));
    assert!(!profile.permits_growth(u64::MAX - 1, u64::MAX));
    assert!(profile.permits_growth(u64::MAX, u64::MAX));
}

#[test]
fn growth_stays_within_what_is_set_aside() {
    let page: u64 = 65536;
    let roomy = EngineProfile {
        memory_reservation: 4 * page,
        memory_reservation_for_growth: page,
        ..EngineProfile::constrained_target()
    };
    assert!(roomy.permits_growth(page, 5 * page));
    assert!(!roomy.permits_growth(page, 5 * page + 1));
    assert!(roomy.permits_growth(8 * page, 9 * page));
    assert!(!roomy.permits_growth(8 * page, 9 * page + 1));
    let boundless = EngineProfile {
        memory_reservation: u64::MAX,
        memory_reservation_for_growth: 1,
        ..EngineProfile::constrained_target()
    };
    assert!(boundless.permits_growth(0, u64::MAX));
}

#[test]
fn a_broken_profile_is_turned_down_before_the_engine_is_asked() {
    let profile = EngineProfile { max_wasm_stack: 0, ..EngineProfile::constrained_target() };
    match bootstrap_engine(&profile, HOST_STACK) {
        Err(BootError::Profile(ProfileError::StackUnbounded)) => {}
        other => panic!("unexpected outcome: {:?}", other.map(|_| "engine")),
    }
    let profile = EngineProfile {
        strategy: ExecutionStrategy::Native,
        ..EngineProfile::constrained_target()
    };
    assert!(matches!(
        bootstrap_engine(&profile, HOST_STACK),
        Err(BootError::Profile(ProfileError::NativeExecution))
    ));
    let profile = EngineProfile::constrained_target();
    assert!(matches!(
        bootstrap_engine(&profile, 1024),
        Err(BootError::Profile(ProfileError::StackTooLarge))
    ));
}

#[test]
fn the_constrained_target_brings_up_an_engine() {
    let profile = EngineProfile::constrained_target();
    let outcome = bootstrap_engine(&profile, HOST_STACK);
    assert!(!matches!(outcome, Err(BootError::Profile(_))));
    assert!(outcome.is_ok(), "{:?}", outcome.err());
}

#[test]
fn the_wider_interpreter_brings_up_an_engine_too() {
    let profile = EngineProfile {
        strategy: ExecutionStrategy::Pulley64,
        ..EngineProfile::constrained_target()
    };
    let outcome = bootstrap_engine(&profile, HOST_STACK);
    assert!(!matches!(outcome, Err(BootError::Profile(_))));
    assert!(outcome.is_ok(), "{:?}", outcome.err());
}

#[test]
fn the_engine_s_answer_is_passed_on() {
    let engine = wasmtime::Engine::new(&wasmtime::Config::new());
    assert!(engine.is_ok());
    assert!(engine_outcome(engine).is_ok());

    let mut config = wasmtime::Config::new();
    config.max_wasm_stack(0);
    let refused = wasmtime::Engine::new(&config);
    assert!(refused.is_err());
    match engine_outcome(refused) {
        Err(BootError::EngineRejected(text)) => assert!(text.contains("max_wasm_stack")),
        other => panic!("unexpected outcome: {:?}", other.map(|_| "engine")),
    }
}
