//! The instantiation and execution driver: the order in which the host
//! brings up the heap, the engine, the artifact and the guest, and what it
//! does when a step fails.
//!
//! The driver decides; the host carries out. At every stage the host has one
//! thing to do, reports how it went, and is told the next stage. A failure at
//! any stage halts the driver for good: nothing is retried.

use vstd::prelude::*;
use crate::arena::ArenaError;
use crate::engine::BootError;
use crate::linker::{
    all_resolve, binds, first_unresolved, import_names, link, ArtifactInterface, Capability,
    CapabilityInterface, LinkageTable,
};

verus! {

/// What the host has to do next.
#[derive(Clone, Copy, Debug, PartialEq, Eq, Structural)]
pub enum Stage {
    /// Hand the heap arena its region.
    HeapInit,
    /// Build the engine from its profile.
    EngineBuild,
    /// Say which capability functions the host implements.
    CapabilityBinding,
    /// Deserialize the embedded artifact against the engine.
    ArtifactLoad,
    /// Instantiate the artifact against the linkage table and a fresh store.
    Instantiation,
    /// Call the guest's entry point.
    GuestCall,
    /// Nothing: the guest's entry point has returned.
    Finished,
    /// Nothing: a step has failed.
    Halted,
}

/// How the step of a stage went.
#[derive(Debug)]
pub enum Event {
    /// The heap arena has its region.
    HeapInitialized,
    /// The heap arena turned the region down.
    HeapRefused(ArenaError),
    /// The engine is built.
    EngineBuilt,
    /// No engine came up.
    EngineRefused(BootError),
    /// The host implements these capability functions.
    CapabilitiesBound(CapabilityInterface),
    /// The artifact is deserialized; this is what it declares.
    ArtifactLoaded(ArtifactInterface),
    /// The artifact does not fit the engine.
    ArtifactRejected,
    /// The artifact is instantiated.
    Instantiated,
    /// The artifact could not be instantiated.
    InstantiationFailed,
    /// The guest's entry point returned.
    GuestReturned,
    /// The guest trapped.
    GuestTrapped,
}

/// Why the driver halted.
#[derive(Debug)]
pub enum Fault {
    /// The heap arena turned its region down.
    Heap(ArenaError),
    /// No engine came up.
    Engine(BootError),
    /// The artifact does not fit the engine.
    IncompatibleArtifact,
    /// The artifact imports a name that the host does not implement.
    UnresolvedImport(String),
    /// The artifact does not export exactly one entry point.
    EntryPoints,
    /// The artifact could not be instantiated.
    Instantiation,
    /// The guest trapped.
    Trap,
    /// The host reported something that does not belong to the stage.
    UnexpectedEvent,
}

/// The kinds of fatal errors.
#[derive(Clone, Copy, Debug, PartialEq, Eq, Structural)]
pub enum FaultClass {
    /// The configuration cannot work: heap, engine profile or artifact.
    Configuration,
    /// The artifact and the host do not fit together: an import has no
    /// implementation, or there is not exactly one entry point.
    Linkage,
    /// The guest failed while it ran.
    Trap,
    /// The host left the order of the stages.
    Sequence,
}

impl Fault {
    /// The kind of fatal error this fault is.
    pub open spec fn class_of(self) -> FaultClass {
        match self {
            Fault::Heap(_) => FaultClass::Configuration,
            Fault::Engine(_) => FaultClass::Configuration,
            Fault::IncompatibleArtifact => FaultClass::Configuration,
            Fault::UnresolvedImport(_) => FaultClass::Linkage,
            Fault::EntryPoints => FaultClass::Linkage,
            Fault::Instantiation => FaultClass::Configuration,
            Fault::Trap => FaultClass::Trap,
            Fault::UnexpectedEvent => FaultClass::Sequence,
        }
    }

    /// The kind of fatal error this fault is.
    pub fn class(&self) -> (class: FaultClass)
        ensures
            class == self.class_of(),
    {
        match self {
            Fault::Heap(_) => FaultClass::Configuration,
            Fault::Engine(_) => FaultClass::Configuration,
            Fault::IncompatibleArtifact => FaultClass::Configuration,
            Fault::UnresolvedImport(_) => FaultClass::Linkage,
            Fault::EntryPoints => FaultClass::Linkage,
            Fault::Instantiation => FaultClass::Configuration,
            Fault::Trap => FaultClass::Trap,
            Fault::UnexpectedEvent => FaultClass::Sequence,
        }
    }
}

/// Whether a host that offers `offered` can run `artifact`: every import of
/// the artifact resolves, and the artifact exports exactly one entry point.
pub open spec fn accepts(offered: Map<Seq<char>, Capability>, artifact: ArtifactInterface) -> bool {
    &&& all_resolve(offered, import_names(artifact.imports@))
    &&& artifact.entry_points@.len() == 1
}

/// The stage that follows `stage` when the host reports `event`, for a host
/// that offers `offered`.
///
/// The stages follow one another in one order only, each on the report that
/// its step went well. The artifact is linked when it is loaded:
/// instantiation follows only if the host can run it. `Finished` and `Halted`
/// are never left, and everything else halts.
pub open spec fn next_stage(
    offered: Map<Seq<char>, Capability>,
    stage: Stage,
    event: Event,
) -> Stage {
    match (stage, event) {
        (Stage::HeapInit, Event::HeapInitialized) => Stage::EngineBuild,
        (Stage::EngineBuild, Event::EngineBuilt) => Stage::CapabilityBinding,
        (Stage::CapabilityBinding, Event::CapabilitiesBound(_)) => Stage::ArtifactLoad,
        (Stage::ArtifactLoad, Event::ArtifactLoaded(artifact)) => if accepts(offered, artifact) {
            Stage::Instantiation
        } else {
            Stage::Halted
        },
        (Stage::Instantiation, Event::Instantiated) => Stage::GuestCall,
        (Stage::GuestCall, Event::GuestReturned) => Stage::Finished,
        (Stage::Finished, _) => Stage::Finished,
        _ => Stage::Halted,
    }
}

/// What the host offers to guests according to `events`: what it said when
/// it bound its capabilities, which is its third report, and nothing before
/// that.
pub open spec fn offered_after(events: Seq<Event>) -> Map<Seq<char>, Capability> {
    if events.len() >= 3 {
        match events[2] {
            Event::CapabilitiesBound(interface) => interface.offered(),
            _ => Map::empty(),
        }
    } else {
        Map::empty()
    }
}

/// The stage the host is in after it reported `events`, one after the other
/// from power-on.
pub open spec fn stage_after(events: Seq<Event>) -> Stage
    decreases events.len(),
{
    if events.len() == 0 {
        Stage::HeapInit
    } else {
        next_stage(
            offered_after(events.drop_last()),
            stage_after(events.drop_last()),
            events.last(),
        )
    }
}

/// Whether the guest's entry point has been called by the time the host is
/// in `stage`. Only then can the guest have made a capability call.
pub open spec fn guest_started(stage: Stage) -> bool {
    stage == Stage::GuestCall || stage == Stage::Finished
}

/// Whether the artifact is being, or has been, instantiated in `stage`.
pub open spec fn instantiation_reached(stage: Stage) -> bool {
    stage == Stage::Instantiation || guest_started(stage)
}

/// Whether `fault` is the reason for which `event` halts a host that is in
/// `stage` and offers `offered`.
pub open spec fn halts_with(
    offered: Map<Seq<char>, Capability>,
    stage: Stage,
    event: Event,
    fault: Fault,
) -> bool {
    match (stage, event) {
        (Stage::HeapInit, Event::HeapRefused(error)) => fault == Fault::Heap(error),
        (Stage::EngineBuild, Event::EngineRefused(error)) => fault == Fault::Engine(error),
        (Stage::ArtifactLoad, Event::ArtifactRejected) => fault == Fault::IncompatibleArtifact,
        (Stage::ArtifactLoad, Event::ArtifactLoaded(artifact)) => if all_resolve(
            offered,
            import_names(artifact.imports@),
        ) {
            fault == Fault::EntryPoints
        } else {
            &&& fault matches Fault::UnresolvedImport(name)
            &&& exists|index: int|
                #![trigger artifact.imports@[index]]
                first_unresolved(offered, import_names(artifact.imports@), index) && name@
                    == artifact.imports@[index]@
        },
        (Stage::Instantiation, Event::InstantiationFailed) => fault == Fault::Instantiation,
        (Stage::GuestCall, Event::GuestTrapped) => fault == Fault::Trap,
        _ => fault == Fault::UnexpectedEvent,
    }
}

/// What instantiation and the guest call work with: the linkage table and
/// the name of the entry point.
#[derive(Debug)]
pub struct Launch {
    /// Binds every import of the artifact to a host function.
    pub table: LinkageTable,
    /// Name of the one entry point of the artifact.
    pub entry_point: String,
}

/// Whether `launch` is what linking `artifact` against `offered` yields.
pub open spec fn launches(
    launch: Launch,
    offered: Map<Seq<char>, Capability>,
    artifact: ArtifactInterface,
) -> bool {
    &&& binds(launch.table.bindings(), offered, import_names(artifact.imports@))
    &&& artifact.entry_points@.len() == 1
    &&& launch.entry_point@ == artifact.entry_points@[0]@
}

/// The driver: the stage the host is in, what the host offers to guests, and
/// what came of linking and of failing.
pub struct Driver {
    stage: Stage,
    interface: Option<CapabilityInterface>,
    launch: Option<Launch>,
    fault: Option<Fault>,
    seen: Ghost<Seq<Event>>,
}

impl Driver {
    #[verifier::type_invariant]
    spec fn well_formed(self) -> bool {
        &&& self.stage == stage_after(self.seen@)
        &&& self.stage == Stage::Halted <==> self.fault is Some
        &&& instantiation_reached(self.stage) <==> self.launch is Some
        &&& (self.stage == Stage::ArtifactLoad || instantiation_reached(self.stage))
            <==> self.interface is Some
        &&& self.interface matches Some(interface) ==> interface.offered() == offered_after(
            self.seen@,
        )
        &&& self.launch matches Some(launch) ==> {
            &&& self.seen@.len() >= 4
            &&& self.seen@[3] matches Event::ArtifactLoaded(artifact)
            &&& launches(launch, offered_after(self.seen@), artifact)
        }
    }

    /// What the host has to do next.
    pub closed spec fn stage(&self) -> Stage {
        self.stage
    }

    /// Everything the host reported so far, oldest first.
    pub closed spec fn seen(&self) -> Seq<Event> {
        self.seen@
    }

    /// Why the driver halted, if it did.
    pub closed spec fn fault(&self) -> Option<Fault> {
        self.fault
    }

    /// What instantiation and the guest call work with, once the artifact is
    /// linked.
    pub closed spec fn launch(&self) -> Option<Launch> {
        self.launch
    }

    /// A driver at power-on. Nothing has been reported, and nothing is taken
    /// from the heap.
    pub fn new() -> (driver: Driver)
        ensures
            driver.stage() == Stage::HeapInit,
            driver.seen() == Seq::<Event>::empty(),
            driver.fault() is None,
            driver.launch() is None,
    {
        Driver {
            stage: Stage::HeapInit,
            interface: None,
            launch: None,
            fault: None,
            seen: Ghost(Seq::empty()),
        }
    }

    /// What the host has to do next. It is what the reports so far amount
    /// to, and nothing else.
    pub fn current_stage(&self) -> (stage: Stage)
        ensures
            stage == self.stage(),
            stage == stage_after(self.seen()),
            stage == Stage::Halted <==> self.fault() is Some,
            instantiation_reached(stage) <==> self.launch() is Some,
    {
        proof {
            use_type_invariant(self);
        }
        self.stage
    }

    /// Why the driver halted, if it did.
    pub fn current_fault(&self) -> (fault: Option<&Fault>)
        ensures
            fault is Some <==> self.stage() == Stage::Halted,
            match fault {
                Some(fault) => self.fault() == Some(*fault),
                None => self.fault() is None,
            },
    {
        proof {
            use_type_invariant(self);
        }
        self.fault.as_ref()
    }

    /// What instantiation and the guest call work with. It is there from
    /// instantiation on; its table binds every import the loaded artifact
    /// declared to what the host offers, and its entry point is the one the
    /// artifact exports.
    pub fn current_launch(&self) -> (launch: Option<&Launch>)
        ensures
            launch is Some <==> instantiation_reached(self.stage()),
            match launch {
                Some(launch) => {
                    &&& self.launch() == Some(*launch)
                    &&& self.seen().len() >= 4
                    &&& self.seen()[3] matches Event::ArtifactLoaded(artifact)
                    &&& launches(*launch, offered_after(self.seen()), artifact)
                },
                None => self.launch() is None,
            },
    {
        proof {
            use_type_invariant(self);
        }
        self.launch.as_ref()
    }

    /// Takes the host's report on the step of the present stage and moves to
    /// the stage that follows.
    pub fn advance(self, event: Event) -> (next: Driver)
        ensures
            next.seen() == self.seen().push(event),
            next.stage() == next_stage(offered_after(self.seen()), self.stage(), event),
            next.stage() == stage_after(next.seen()),
            self.stage() == Stage::Halted ==> next.fault() == self.fault(),
            self.stage() != Stage::Halted && next.stage() == Stage::Halted ==> (
            next.fault() matches Some(fault) && halts_with(
                offered_after(self.seen()),
                self.stage(),
                event,
                fault,
            )),
            next.stage() != Stage::Halted ==> next.fault() is None,
            next.launch() is Some <==> instantiation_reached(next.stage()),
            self.stage() == Stage::ArtifactLoad ==> (next.launch() matches Some(launch)
                ==> event matches Event::ArtifactLoaded(artifact) && launches(
                launch,
                offered_after(self.seen()),
                artifact,
            )),
            instantiation_reached(self.stage()) && instantiation_reached(next.stage())
                ==> next.launch() == self.launch(),
    {
        proof {
            use_type_invariant(&self);
            assert(self.seen@.push(event).drop_last() =~= self.seen@);
            lemma_one_way(self.seen@);
        }
        let ghost seen = self.seen@.push(event);
        let Driver { stage, interface, launch, fault, seen: _ } = self;
        match (stage, event) {
            (Stage::HeapInit, Event::HeapInitialized) => Driver {
                stage: Stage::EngineBuild,
                interface: None,
                launch: None,
                fault: None,
                seen: Ghost(seen),
            },
            (Stage::HeapInit, Event::HeapRefused(error)) => Driver {
                stage: Stage::Halted,
                interface: None,
                launch: None,
                fault: Some(Fault::Heap(error)),
                seen: Ghost(seen),
            },
            (Stage::EngineBuild, Event::EngineBuilt) => Driver {
                stage: Stage::CapabilityBinding,
                interface: None,
                launch: None,
                fault: None,
                seen: Ghost(seen),
            },
            (Stage::EngineBuild, Event::EngineRefused(error)) => Driver {
                stage: Stage::Halted,
                interface: None,
                launch: None,
                fault: Some(Fault::Engine(error)),
                seen: Ghost(seen),
            },
            (Stage::CapabilityBinding, Event::CapabilitiesBound(bound)) => Driver {
                stage: Stage::ArtifactLoad,
                interface: Some(bound),
                launch: None,
                fault: None,
                seen: Ghost(seen),
            },
            (Stage::ArtifactLoad, Event::ArtifactLoaded(artifact)) => {
                let offers = interface.unwrap();
                match link(&offers, &artifact.imports) {
                    Ok(table) => {
                        if artifact.entry_points.len() == 1 {
                            let entry_point = artifact.entry_points[0].clone();
                            Driver {
                                stage: Stage::Instantiation,
                                interface: Some(offers),
                                launch: Some(Launch { table, entry_point }),
                                fault: None,
                                seen: Ghost(seen),
                            }
                        } else {
                            Driver {
                                stage: Stage::Halted,
                                interface: None,
                                launch: None,
                                fault: Some(Fault::EntryPoints),
                                seen: Ghost(seen),
                            }
                        }
                    },
                    Err(unresolved) => Driver {
                        stage: Stage::Halted,
                        interface: None,
                        launch: None,
                        fault: Some(Fault::UnresolvedImport(unresolved.name)),
                        seen: Ghost(seen),
                    },
                }
            },
            (Stage::ArtifactLoad, Event::ArtifactRejected) => Driver {
                stage: Stage::Halted,
                interface: None,
                launch: None,
                fault: Some(Fault::IncompatibleArtifact),
                seen: Ghost(seen),
            },
            (Stage::Instantiation, Event::Instantiated) => Driver {
                stage: Stage::GuestCall,
                interface,
                launch,
                fault: None,
                seen: Ghost(seen),
            },
            (Stage::Instantiation, Event::InstantiationFailed) => Driver {
                stage: Stage::Halted,
                interface: None,
                launch: None,
                fault: Some(Fault::Instantiation),
                seen: Ghost(seen),
            },
            (Stage::GuestCall, Event::GuestReturned) => Driver {
                stage: Stage::Finished,
                interface,
                launch,
                fault: None,
                seen: Ghost(seen),
            },
            (Stage::GuestCall, Event::GuestTrapped) => Driver {
                stage: Stage::Halted,
                interface: None,
                launch: None,
                fault: Some(Fault::Trap),
                seen: Ghost(seen),
            },
            (Stage::Finished, _) => Driver {
                stage: Stage::Finished,
                interface,
                launch,
                fault: None,
                seen: Ghost(seen),
            },
            (Stage::Halted, _) => Driver {
                stage: Stage::Halted,
                interface: None,
                launch: None,
                fault,
                seen: Ghost(seen),
            },
            _ => Driver {
                stage: Stage::Halted,
                interface: None,
                launch: None,
                fault: Some(Fault::UnexpectedEvent),
                seen: Ghost(seen),
            },
        }
    }
}

/// Once halted, always halted: whatever the host reports after a failure,
/// the driver stays where it is.
pub proof fn lemma_halted_is_final(events: Seq<Event>, more: Seq<Event>)
    requires
        stage_after(events) == Stage::Halted,
    ensures
        stage_after(events + more) == Stage::Halted,
    decreases more.len(),
{
    if more.len() > 0 {
        lemma_halted_is_final(events, more.drop_last());
        assert((events + more).drop_last() =~= events + more.drop_last());
    }
}

/// There is one way through the stages. Whatever stage the host is in, the
/// reports that brought it there are the good reports of the stages before,
/// in order, and the artifact it loaded is one that the host can run with
/// what it offers.
pub proof fn lemma_one_way(events: Seq<Event>)
    ensures
        match stage_after(events) {
            Stage::HeapInit => events.len() == 0,
            Stage::EngineBuild => events.len() == 1,
            Stage::CapabilityBinding => events.len() == 2,
            Stage::ArtifactLoad => events.len() == 3,
            Stage::Instantiation => events.len() == 4,
            Stage::GuestCall => events.len() == 5,
            Stage::Finished => events.len() >= 6,
            Stage::Halted => events.len() >= 1,
        },
        stage_after(events) != Stage::Halted ==> {
            &&& events.len() >= 1 ==> events[0] == Event::HeapInitialized
            &&& events.len() >= 2 ==> events[1] == Event::EngineBuilt
            &&& events.len() >= 3 ==> events[2] is CapabilitiesBound
            &&& events.len() >= 4 ==> (events[3] matches Event::ArtifactLoaded(artifact)
                && accepts(offered_after(events), artifact))
            &&& events.len() >= 5 ==> events[4] == Event::Instantiated
            &&& events.len() >= 6 ==> events[5] == Event::GuestReturned
        },
    decreases events.len(),
{
    if events.len() > 0 {
        lemma_one_way(events.drop_last());
    }
}

/// Linking is exhaustive: the artifact is instantiated only if every import
/// it declares resolves. In every run that reaches instantiation, the fourth
/// report is that of an artifact whose imports the host all offers.
pub proof fn lemma_instantiation_needs_linkage(events: Seq<Event>)
    requires
        instantiation_reached(stage_after(events)),
    ensures
        events.len() >= 4,
        events[3] matches Event::ArtifactLoaded(artifact) && all_resolve(
            offered_after(events),
            import_names(artifact.imports@),
        ),
{
    lemma_one_way(events);
}

/// A run in which the artifact is loaded with an import that does not
/// resolve halts at that report and never reaches instantiation, at no
/// moment of the run.
pub proof fn lemma_partial_linkage_never_instantiates(events: Seq<Event>, at: int, moment: int)
    requires
        0 <= at < events.len(),
        0 <= moment <= events.len(),
        stage_after(events.take(at)) == Stage::ArtifactLoad,
        events[at] matches Event::ArtifactLoaded(artifact) && !all_resolve(
            offered_after(events),
            import_names(artifact.imports@),
        ),
    ensures
        stage_after(events.take(at + 1)) == Stage::Halted,
        !instantiation_reached(stage_after(events.take(moment))),
{
    lemma_one_way(events.take(at));
    lemma_run_stops_at(events, at, moment);
}

/// A run in which the artifact does not fit the engine halts at that report,
/// and the guest's entry point is never called, at no moment of the run: no
/// capability call is ever made.
pub proof fn lemma_rejected_artifact_never_runs(events: Seq<Event>, at: int, moment: int)
    requires
        0 <= at < events.len(),
        0 <= moment <= events.len(),
        stage_after(events.take(at)) == Stage::ArtifactLoad,
        events[at] == Event::ArtifactRejected,
    ensures
        stage_after(events.take(at + 1)) == Stage::Halted,
        !instantiation_reached(stage_after(events.take(moment))),
        !guest_started(stage_after(events.take(moment))),
{
    lemma_run_stops_at(events, at, moment);
}

/// A run that halts at the report number `at`, made while the artifact was
/// to be loaded, has not reached instantiation before and does not reach it
/// after.
proof fn lemma_run_stops_at(events: Seq<Event>, at: int, moment: int)
    requires
        0 <= at < events.len(),
        0 <= moment <= events.len(),
        stage_after(events.take(at)) == Stage::ArtifactLoad,
        next_stage(offered_after(events.take(at)), Stage::ArtifactLoad, events[at])
            == Stage::Halted,
    ensures
        stage_after(events.take(at + 1)) == Stage::Halted,
        !instantiation_reached(stage_after(events.take(moment))),
{
    let halted = events.take(at + 1);
    assert(halted.drop_last() =~= events.take(at));
    if moment <= at {
        lemma_one_way(events.take(at));
        lemma_one_way(events.take(moment));
    } else {
        let rest = events.subrange(at + 1, moment);
        assert(events.take(moment) =~= halted + rest);
        lemma_halted_is_final(halted, rest);
    }
}

/// The guest runs only after every step before it went well: the heap has
/// its region, the engine is built, the capabilities are bound, the artifact
/// is loaded, every import resolves and there is one entry point, and the
/// artifact is instantiated.
pub proof fn lemma_guest_runs_last(events: Seq<Event>)
    requires
        guest_started(stage_after(events)),
    ensures
        events.len() >= 5,
        events[0] == Event::HeapInitialized,
        events[1] == Event::EngineBuilt,
        events[2] is CapabilitiesBound,
        events[3] matches Event::ArtifactLoaded(artifact) && accepts(
            offered_after(events),
            artifact,
        ),
        events[4] == Event::Instantiated,
{
    lemma_one_way(events);
}

} // verus!
