use pico2_quick::arena::ArenaError;
use pico2_quick::driver::{Driver, Event, Fault, FaultClass, Stage};
use pico2_quick::engine::{BootError, ProfileError};
use pico2_quick::linker::{blinky_interface, ArtifactInterface, Capability, CapabilityInterface};

fn artifact(imports: &[&str], entry_points: &[&str]) -> ArtifactInterface {
    ArtifactInterface {
        imports: imports.iter().map(|name| name.to_string()).collect(),
        entry_points: entry_points.iter().map(|name| name.to_string()).collect(),
    }
}

fn sos_artifact() -> ArtifactInterface {
    artifact(&["activate", "deactivate", "delay"], &["run"])
}

fn loaded() -> Driver {
    Driver::new()
        .advance(Event::HeapInitialized)
        .advance(Event::EngineBuilt)
        .advance(Event::CapabilitiesBound(blinky_interface()))
}

#[test]
fn the_stages_follow_one_another() {
    let driver = Driver::new();
    assert_eq!(driver.current_stage(), Stage::HeapInit);
    assert!(driver.current_fault().is_none());
    assert!(driver.current_launch().is_none());
    let driver = driver.advance(Event::HeapInitialized);
    assert_eq!(driver.current_stage(), Stage::EngineBuild);
    let driver = driver.advance(Event::EngineBuilt);
    assert_eq!(driver.current_stage(), Stage::CapabilityBinding);
    let driver = driver.advance(Event::CapabilitiesBound(blinky_interface()));
    assert_eq!(driver.current_stage(), Stage::ArtifactLoad);
    assert!(driver.current_launch().is_none());
    let driver = driver.advance(Event::ArtifactLoaded(sos_artifact()));
    assert_eq!(driver.current_stage(), Stage::Instantiation);
    {
        let launch = driver.current_launch().expect("linked");
        assert_eq!(launch.entry_point, "run");
        assert_eq!(launch.table.len(), 3);
        assert_eq!(launch.table.resolve(&"delay".to_string()), Some(Capability::Delay));
    }
    let driver = driver.advance(Event::Instantiated);
    assert_eq!(driver.current_stage(), Stage::GuestCall);
    assert!(driver.current_launch().is_some());
    let driver = driver.advance(Event::GuestReturned);
    assert_eq!(driver.current_stage(), Stage::Finished);
    assert!(driver.current_fault().is_none());
    let driver = driver.advance(Event::GuestTrapped);
    assert_eq!(driver.current_stage(), Stage::Finished);
    assert!(driver.current_fault().is_none());
}

#[test]
fn a_refused_heap_halts() {
    let driver = Driver::new().advance(Event::HeapRefused(ArenaError::EmptyRegion));
    assert_eq!(driver.current_stage(), Stage::Halted);
    match driver.current_fault() {
        Some(Fault::Heap(ArenaError::EmptyRegion)) => {}
        other => panic!("unexpected fault: {:?}", other),
    }
    assert_eq!(driver.current_fault().map(|fault| fault.class()), Some(FaultClass::Configuration));
}

#[test]
fn a_refused_engine_halts() {
    let driver = Driver::new()
        .advance(Event::HeapInitialized)
        .advance(Event::EngineRefused(BootError::Profile(ProfileError::GuardRegion)));
    assert_eq!(driver.current_stage(), Stage::Halted);
    match driver.current_fault() {
        Some(Fault::Engine(BootError::Profile(ProfileError::GuardRegion))) => {}
        other => panic!("unexpected fault: {:?}", other),
    }
    assert_eq!(driver.current_fault().map(|fault| fault.class()), Some(FaultClass::Configuration));
}

#[test]
fn an_incompatible_artifact_halts_before_the_guest_runs() {
    let mut driver = loaded().advance(Event::ArtifactRejected);
    assert_eq!(driver.current_stage(), Stage::Halted);
    assert!(matches!(driver.current_fault(), Some(Fault::IncompatibleArtifact)));
    assert_eq!(driver.current_fault().map(|fault| fault.class()), Some(FaultClass::Configuration));
    assert!(driver.current_launch().is_none());
    let later = vec![
        Event::CapabilitiesBound(blinky_interface()),
        Event::ArtifactLoaded(sos_artifact()),
        Event::Instantiated,
        Event::GuestReturned,
        Event::HeapInitialized,
        Event::EngineBuilt,
        Event::ArtifactLoaded(sos_artifact()),
        Event::Instantiated,
    ];
    for event in later {
        driver = driver.advance(event);
        assert_eq!(driver.current_stage(), Stage::Halted);
        assert!(matches!(driver.current_fault(), Some(Fault::IncompatibleArtifact)));
        assert!(driver.current_launch().is_none());
    }
}

#[test]
fn an_unresolved_import_halts_before_instantiation() {
    for position in 0..3 {
        let mut declared = sos_artifact();
        declared.imports[position] = format!("missing{}", position);
        let driver = loaded().advance(Event::ArtifactLoaded(declared));
        assert_eq!(driver.current_stage(), Stage::Halted);
        match driver.current_fault() {
            Some(Fault::UnresolvedImport(name)) => assert_eq!(*name, format!("missing{}", position)),
            other => panic!("unexpected fault: {:?}", other),
        }
        assert_eq!(driver.current_fault().map(|fault| fault.class()), Some(FaultClass::Linkage));
        assert!(driver.current_launch().is_none());
        let driver = driver.advance(Event::Instantiated);
        assert_eq!(driver.current_stage(), Stage::Halted);
    }
}

#[test]
fn the_artifact_needs_exactly_one_entry_point() {
    let driver = loaded().advance(Event::ArtifactLoaded(artifact(&["delay"], &[])));
    assert_eq!(driver.current_stage(), Stage::Halted);
    assert!(matches!(driver.current_fault(), Some(Fault::EntryPoints)));
    assert_eq!(driver.current_fault().map(|fault| fault.class()), Some(FaultClass::Linkage));

    let driver = loaded().advance(Event::ArtifactLoaded(artifact(&["delay"], &["run", "stop"])));
    assert_eq!(driver.current_stage(), Stage::Halted);
    assert!(matches!(driver.current_fault(), Some(Fault::EntryPoints)));

    let driver = loaded().advance(Event::ArtifactLoaded(artifact(&[], &["main"])));
    assert_eq!(driver.current_stage(), Stage::Instantiation);
    assert_eq!(driver.current_launch().map(|launch| launch.entry_point.as_str()), Some("main"));
    assert_eq!(driver.current_launch().map(|launch| launch.table.len()), Some(0));
}

#[test]
fn an_unresolved_import_is_reported_before_the_entry_points() {
    let driver = loaded().advance(Event::ArtifactLoaded(artifact(&["delay", "reset"], &[])));
    match driver.current_fault() {
        Some(Fault::UnresolvedImport(name)) => assert_eq!(name, "reset"),
        other => panic!("unexpected fault: {:?}", other),
    }
}

#[test]
fn a_failed_instantiation_halts() {
    let driver = loaded()
        .advance(Event::ArtifactLoaded(sos_artifact()))
        .advance(Event::InstantiationFailed);
    assert_eq!(driver.current_stage(), Stage::Halted);
    assert!(matches!(driver.current_fault(), Some(Fault::Instantiation)));
    assert_eq!(driver.current_fault().map(|fault| fault.class()), Some(FaultClass::Configuration));
    assert!(driver.current_launch().is_none());
}

#[test]
fn a_trap_halts_for_good() {
    let driver = loaded()
        .advance(Event::ArtifactLoaded(sos_artifact()))
        .advance(Event::Instantiated)
        .advance(Event::GuestTrapped);
    assert_eq!(driver.current_stage(), Stage::Halted);
    assert!(matches!(driver.current_fault(), Some(Fault::Trap)));
    assert_eq!(driver.current_fault().map(|fault| fault.class()), Some(FaultClass::Trap));
    let driver = driver.advance(Event::GuestReturned);
    assert_eq!(driver.current_stage(), Stage::Halted);
    assert!(matches!(driver.current_fault(), Some(Fault::Trap)));
}

#[test]
fn a_report_out_of_order_halts() {
    let driver = Driver::new().advance(Event::EngineBuilt);
    assert_eq!(driver.current_stage(), Stage::Halted);
    assert!(matches!(driver.current_fault(), Some(Fault::UnexpectedEvent)));
    assert_eq!(driver.current_fault().map(|fault| fault.class()), Some(FaultClass::Sequence));

    let driver = Driver::new().advance(Event::HeapInitialized).advance(Event::HeapInitialized);
    assert!(matches!(driver.current_fault(), Some(Fault::UnexpectedEvent)));

    let driver = Driver::new()
        .advance(Event::HeapInitialized)
        .advance(Event::EngineBuilt)
        .advance(Event::ArtifactLoaded(sos_artifact()));
    assert_eq!(driver.current_stage(), Stage::Halted);
    assert!(matches!(driver.current_fault(), Some(Fault::UnexpectedEvent)));

    let driver = loaded().advance(Event::Instantiated);
    assert!(matches!(driver.current_fault(), Some(Fault::UnexpectedEvent)));

    let driver = loaded().advance(Event::ArtifactLoaded(sos_artifact())).advance(Event::GuestReturned);
    assert_eq!(driver.current_stage(), Stage::Halted);
    assert!(matches!(driver.current_fault(), Some(Fault::UnexpectedEvent)));
}

#[test]
fn the_guest_is_called_once() {
    let driver = loaded()
        .advance(Event::ArtifactLoaded(sos_artifact()))
        .advance(Event::Instantiated);
    assert_eq!(driver.current_stage(), Stage::GuestCall);
    let driver = driver.advance(Event::Instantiated);
    assert_eq!(driver.current_stage(), Stage::Halted);
    let driver = driver.advance(Event::Instantiated);
    assert_ne!(driver.current_stage(), Stage::GuestCall);
}

#[test]
fn the_artifact_is_linked_against_what_the_host_bound() {
    let mut interface = CapabilityInterface::new();
    assert!(interface.define("on".to_string(), Capability::Activate).is_ok());
    assert!(interface.define("off".to_string(), Capability::Deactivate).is_ok());
    let bound = Driver::new()
        .advance(Event::HeapInitialized)
        .advance(Event::EngineBuilt)
        .advance(Event::CapabilitiesBound(interface));
    assert_eq!(bound.current_stage(), Stage::ArtifactLoad);
    let driver = bound.advance(Event::ArtifactLoaded(artifact(&["off", "on"], &["run"])));
    assert_eq!(driver.current_stage(), Stage::Instantiation);
    assert_eq!(
        driver.current_launch().map(|launch| launch.table.resolve(&"off".to_string())),
        Some(Some(Capability::Deactivate))
    );

    let nothing = Driver::new()
        .advance(Event::HeapInitialized)
        .advance(Event::EngineBuilt)
        .advance(Event::CapabilitiesBound(CapabilityInterface::new()))
        .advance(Event::ArtifactLoaded(sos_artifact()));
    match nothing.current_fault() {
        Some(Fault::UnresolvedImport(name)) => assert_eq!(name, "activate"),
        other => panic!("unexpected fault: {:?}", other),
    }
}
