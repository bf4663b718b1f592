//! One occurrence of a design unit: its name and where it was seen.

use vstd::prelude::*;

verus! {

/// An occurrence of a design unit, declared or instantiated.
///
/// The `name` identifies the unit. `file` and `line` say where the occurrence
/// was found and play no part in the unit's identity. An occurrence whose
/// origin could not be resolved has an empty `file` and line 0.
#[derive(Debug)]
pub struct ModuleInfo {
    pub name: String,
    pub file: String,
    pub line: u32,
}

/// The mathematical value of a [`ModuleInfo`].
pub ghost struct UnitView {
    pub name: Seq<char>,
    pub file: Seq<char>,
    pub line: nat,
}

impl View for ModuleInfo {
    type V = UnitView;

    open spec fn view(&self) -> UnitView {
        UnitView { name: self.name@, file: self.file@, line: self.line as nat }
    }
}

impl DeepView for ModuleInfo {
    type V = UnitView;

    open spec fn deep_view(&self) -> UnitView {
        self@
    }
}

impl Clone for ModuleInfo {
    fn clone(&self) -> (copy: ModuleInfo)
        ensures
            copy@ == self@,
    {
        ModuleInfo { name: self.name.clone(), file: self.file.clone(), line: self.line }
    }
}

/// Copies a list of occurrences, keeping their order.
pub fn clone_units(units: &Vec<ModuleInfo>) -> (copy: Vec<ModuleInfo>)
    ensures
        copy.deep_view() == units.deep_view(),
{
    let mut copy: Vec<ModuleInfo> = Vec::new();
    let mut i: usize = 0;
    while i < units.len()
        invariant
            i <= units.len(),
            copy.len() == i,
            forall|k: int| 0 <= k < i ==> copy[k]@ == units[k]@,
        decreases units.len() - i,
    {
        copy.push(units[i].clone());
        i += 1;
    }
    assert(copy.deep_view() =~= units.deep_view());
    copy
}

} // verus!
