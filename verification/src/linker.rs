//! The component linker: binds the names a guest artifact imports to the
//! capability functions the host implements.
//!
//! Linking is exhaustive. Either every declared import resolves, and the
//! linkage table has one entry for each of them, or linking fails with the
//! name of the first import that does not resolve.

use vstd::prelude::*;

verus! {

/// A capability function implemented by the host.
#[derive(Clone, Copy, Debug, PartialEq, Eq, Structural)]
pub enum Capability {
    /// Drives the output to its active level.
    Activate,
    /// Drives the output to its inactive level.
    Deactivate,
    /// Blocks the caller for a number of milliseconds.
    Delay,
}

/// Linking failed: the host implements no function of this name.
#[derive(Debug)]
pub struct UnresolvedImport {
    /// The import that does not resolve.
    pub name: String,
}

/// A definition was turned down: the host already implements a function of
/// this name.
#[derive(Debug)]
pub struct DuplicateDefinition {
    /// The name that is taken.
    pub name: String,
}

/// What a loaded artifact declares towards the host: the names it imports,
/// and the entry points it exports.
#[derive(Debug)]
pub struct ArtifactInterface {
    /// Names of the functions the artifact imports.
    pub imports: Vec<String>,
    /// Names of the functions the artifact exports for the host to call.
    pub entry_points: Vec<String>,
}

/// A capability function under the name by which guests import it.
#[derive(Debug)]
pub struct HostFunction {
    /// Name on the wire between host and guest.
    pub name: String,
    /// The function behind the name.
    pub capability: Capability,
}

/// The names of `functions`, in order.
pub open spec fn function_names(functions: Seq<HostFunction>) -> Seq<Seq<char>> {
    functions.map_values(|function: HostFunction| function.name@)
}

/// The names in `imports`, in order.
pub open spec fn import_names(imports: Seq<String>) -> Seq<Seq<char>> {
    imports.map_values(|import: String| import@)
}

/// Whether `index` is the first of `imports` that `offered` does not hold.
pub open spec fn first_unresolved(
    offered: Map<Seq<char>, Capability>,
    imports: Seq<Seq<char>>,
    index: int,
) -> bool {
    &&& 0 <= index < imports.len()
    &&& !offered.contains_key(imports[index])
    &&& forall|earlier: int|
        0 <= earlier < index ==> offered.contains_key(#[trigger] imports[earlier])
}

/// Whether `offered` holds every one of `imports`.
pub open spec fn all_resolve(
    offered: Map<Seq<char>, Capability>,
    imports: Seq<Seq<char>>,
) -> bool {
    forall|index: int|
        0 <= index < imports.len() ==> offered.contains_key(#[trigger] imports[index])
}

/// The function behind each name among `functions`.
pub open spec fn offered_by(functions: Seq<HostFunction>) -> Map<Seq<char>, Capability> {
    Map::new(
        |name: Seq<char>| function_names(functions).contains(name),
        |name: Seq<char>| functions[function_names(functions).index_of(name)].capability,
    )
}

/// What the host offers to guests: capability functions under distinct
/// names.
#[derive(Debug)]
pub struct CapabilityInterface {
    functions: Vec<HostFunction>,
}

impl CapabilityInterface {
    #[verifier::type_invariant]
    spec fn well_formed(self) -> bool {
        function_names(self.functions@).no_duplicates()
    }

    /// The functions offered, in the order in which they were defined.
    pub closed spec fn functions(&self) -> Seq<HostFunction> {
        self.functions@
    }

    /// The function behind each name that is offered.
    pub open spec fn offered(&self) -> Map<Seq<char>, Capability> {
        offered_by(self.functions())
    }

    /// An interface that offers nothing.
    pub fn new() -> (interface: CapabilityInterface)
        ensures
            interface.functions() == Seq::<HostFunction>::empty(),
            interface.offered() == Map::<Seq<char>, Capability>::empty(),
    {
        CapabilityInterface { functions: Vec::new() }
    }

    /// Number of functions offered.
    pub fn len(&self) -> (len: usize)
        ensures
            len == self.functions().len(),
    {
        self.functions.len()
    }

    /// The function offered under `name`, if there is one.
    pub fn lookup(&self, name: &String) -> (found: Option<Capability>)
        ensures
            found == if self.offered().contains_key(name@) {
                Some(self.offered()[name@])
            } else {
                None
            },
    {
        proof {
            use_type_invariant(self);
        }
        let ghost names = function_names(self.functions@);
        let mut index: usize = 0;
        while index < self.functions.len()
            invariant
                index <= self.functions@.len(),
                names == function_names(self.functions@),
                names.no_duplicates(),
                forall|earlier: int| 0 <= earlier < index ==> names[earlier] != name@,
            decreases self.functions@.len() - index,
        {
            if self.functions[index].name == *name {
                proof {
                    // No name occurs twice, so this is where the name is found.
                    assert(names[index as int] == name@);
                    assert(names.index_of(name@) == index);
                }
                return Some(self.functions[index].capability);
            }
            index += 1;
        }
        proof {
            if names.contains(name@) {
                assert(names[names.index_of(name@)] == name@);
            }
        }
        None
    }

    /// Offers `capability` under `name`. A name can be given to one function
    /// only: the second definition of a name is turned down and changes
    /// nothing.
    pub fn define(&mut self, name: String, capability: Capability) -> (defined: Result<
        (),
        DuplicateDefinition,
    >)
        ensures
            defined is Ok <==> !old(self).offered().contains_key(name@),
            match defined {
                Ok(()) => {
                    &&& final(self).functions() == old(self).functions().push(
                        HostFunction { name, capability },
                    )
                    &&& final(self).offered() == old(self).offered().insert(name@, capability)
                },
                Err(refused) => {
                    &&& refused.name@ == name@
                    &&& final(self).functions() == old(self).functions()
                },
            },
    {
        if self.lookup(&name).is_some() {
            return Err(DuplicateDefinition { name });
        }
        proof {
            use_type_invariant(&*self);
            let before = self.functions@;
            let added = HostFunction { name, capability };
            let after = before.push(added);
            let names = function_names(before);
            assert(function_names(after) =~= names.push(name@));
            lemma_offered_push(before, added);
        }
        let mut functions: Vec<HostFunction> = Vec::new();
        core::mem::swap(&mut self.functions, &mut functions);
        functions.push(HostFunction { name, capability });
        core::mem::swap(&mut self.functions, &mut functions);
        Ok(())
    }
}

/// Defining one more function under a new name offers what was offered
/// before, and the new function under its name.
proof fn lemma_offered_push(functions: Seq<HostFunction>, added: HostFunction)
    requires
        function_names(functions).no_duplicates(),
        !function_names(functions).contains(added.name@),
    ensures
        offered_by(functions.push(added)) == offered_by(functions).insert(
            added.name@,
            added.capability,
        ),
{
    let before = function_names(functions);
    let after = function_names(functions.push(added));
    assert forall|name: Seq<char>| after.contains(name) <==> (before.contains(name) || name
        == added.name@) by {
        if before.contains(name) {
            let at = before.index_of(name);
            assert(after[at] == name);
        }
        if name == added.name@ {
            assert(after[before.len() as int] == name);
        }
        if after.contains(name) {
            let at = after.index_of(name);
            if at < before.len() {
                assert(before[at] == name);
            }
        }
    }
    assert forall|name: Seq<char>| after.contains(name) implies #[trigger] offered_by(
        functions.push(added),
    )[name] == offered_by(functions).insert(added.name@, added.capability)[name] by {
        let at = after.index_of(name);
        if name == added.name@ {
            if at < before.len() {
                assert(before[at] == name);
            }
        } else {
            assert(before[at] == name);
            assert(before.index_of(name) == at);
        }
    }
}

/// The resolved linkage: for every import of the artifact, in the order of
/// the imports, the host function it is bound to.
#[derive(Debug)]
pub struct LinkageTable {
    bindings: Vec<HostFunction>,
}

impl LinkageTable {
    /// The bindings, one for each import, in the order of the imports.
    pub closed spec fn bindings(&self) -> Seq<HostFunction> {
        self.bindings@
    }

    /// Number of imports bound.
    pub fn len(&self) -> (len: usize)
        ensures
            len == self.bindings().len(),
    {
        self.bindings.len()
    }

    /// The binding of import number `index`, if there are that many.
    pub fn binding(&self, index: usize) -> (binding: Option<&HostFunction>)
        ensures
            binding == if index < self.bindings().len() {
                Some(&self.bindings()[index as int])
            } else {
                None
            },
    {
        if index < self.bindings.len() {
            Some(&self.bindings[index])
        } else {
            None
        }
    }

    /// The function the first import of this name is bound to, if an import
    /// of this name was bound.
    pub fn resolve(&self, name: &String) -> (found: Option<Capability>)
        ensures
            match found {
                Some(capability) => exists|index: int|
                    {
                        &&& 0 <= index < self.bindings().len()
                        &&& (#[trigger] self.bindings()[index]).name@ == name@
                        &&& self.bindings()[index].capability == capability
                        &&& forall|earlier: int|
                            0 <= earlier < index ==> (#[trigger] self.bindings()[earlier]).name@
                                != name@
                    },
                None => forall|index: int|
                    0 <= index < self.bindings().len() ==> (#[trigger] self.bindings()[index]).name@
                        != name@,
            },
    {
        let mut index: usize = 0;
        while index < self.bindings.len()
            invariant
                index <= self.bindings@.len(),
                forall|earlier: int|
                    0 <= earlier < index ==> (#[trigger] self.bindings@[earlier]).name@ != name@,
            decreases self.bindings@.len() - index,
        {
            if self.bindings[index].name == *name {
                return Some(self.bindings[index].capability);
            }
            index += 1;
        }
        None
    }
}

/// Whether `bindings` bind every one of `imports`, in order, to what
/// `offered` holds under its name.
pub open spec fn binds(
    bindings: Seq<HostFunction>,
    offered: Map<Seq<char>, Capability>,
    imports: Seq<Seq<char>>,
) -> bool {
    &&& bindings.len() == imports.len()
    &&& forall|index: int|
        0 <= index < imports.len() ==> {
            &&& (#[trigger] bindings[index]).name@ == imports[index]
            &&& offered.contains_key(imports[index])
            &&& bindings[index].capability == offered[imports[index]]
        }
}

/// Binds every import to the host function of its name.
///
/// Linking succeeds exactly when the interface offers every import, and then
/// the table binds all of them. Otherwise it fails with the name of the first
/// import that the interface does not offer, and there is no table.
pub fn link(interface: &CapabilityInterface, imports: &Vec<String>) -> (linked: Result<
    LinkageTable,
    UnresolvedImport,
>)
    ensures
        linked is Ok <==> all_resolve(interface.offered(), import_names(imports@)),
        match linked {
            Ok(table) => binds(table.bindings(), interface.offered(), import_names(imports@)),
            Err(unresolved) => exists|index: int|
                #![trigger imports@[index]]
                first_unresolved(interface.offered(), import_names(imports@), index)
                    && unresolved.name@ == imports@[index]@,
        },
{
    let ghost names = import_names(imports@);
    let mut bindings: Vec<HostFunction> = Vec::new();
    let mut index: usize = 0;
    while index < imports.len()
        invariant
            index <= imports@.len(),
            names == import_names(imports@),
            binds(bindings@, interface.offered(), names.take(index as int)),
        decreases imports@.len() - index,
    {
        let name = &imports[index];
        match interface.lookup(name) {
            Some(capability) => {
                bindings.push(HostFunction { name: name.clone(), capability });
            },
            None => {
                proof {
                    let offered = interface.offered();
                    assert forall|earlier: int| 0 <= earlier < index implies offered.contains_key(
                        #[trigger] names[earlier],
                    ) by {
                        assert(bindings@[earlier].name@ == names.take(index as int)[earlier]);
                    }
                    assert(first_unresolved(interface.offered(), names, index as int));
                }
                return Err(UnresolvedImport { name: name.clone() });
            },
        }
        index += 1;
    }
    proof {
        assert forall|at: int| 0 <= at < names.len() implies interface.offered().contains_key(
            #[trigger] names[at],
        ) by {
            assert(bindings@[at].name@ == names[at]);
        }
    }
    Ok(LinkageTable { bindings })
}

/// The interface of the output line and the delay: `activate`, `deactivate`
/// and `delay`.
pub fn blinky_interface() -> (interface: CapabilityInterface)
    ensures
        interface.offered() == Map::<Seq<char>, Capability>::empty().insert(
            "activate"@,
            Capability::Activate,
        ).insert("deactivate"@, Capability::Deactivate).insert("delay"@, Capability::Delay),
        interface.functions().len() == 3,
{
    let activate = HostFunction { name: "activate".to_owned(), capability: Capability::Activate };
    let deactivate = HostFunction {
        name: "deactivate".to_owned(),
        capability: Capability::Deactivate,
    };
    let delay = HostFunction { name: "delay".to_owned(), capability: Capability::Delay };
    proof {
        reveal_strlit("activate");
        reveal_strlit("deactivate");
        reveal_strlit("delay");
        // The three names differ in length, so no two of them are the same.
        assert("activate"@.len() == 8 && "deactivate"@.len() == 10 && "delay"@.len() == 5);
        let none = Seq::<HostFunction>::empty();
        assert(function_names(none.push(activate).push(deactivate).push(delay)) =~= seq![
            "activate"@,
            "deactivate"@,
            "delay"@,
        ]);
    }
    let mut functions: Vec<HostFunction> = Vec::new();
    functions.push(activate);
    functions.push(deactivate);
    functions.push(delay);
    CapabilityInterface { functions }
}

} // verus!
