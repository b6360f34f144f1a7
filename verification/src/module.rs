use vstd::prelude::*;

verus! {

/// The kind of a module: a closed enumeration with a labelled escape for
/// caller-defined kinds.
#[derive(Debug, PartialEq, Eq)]
pub enum ModuleType {
    Brain,
    Interface,
    Vision,
    Audio,
    Memory,
    Reasoning,
    Custom(String),
}

/// The mathematical image of a `ModuleType`: the custom label is a
/// character sequence.
pub ghost enum ModuleTypeView {
    Brain,
    Interface,
    Vision,
    Audio,
    Memory,
    Reasoning,
    Custom(Seq<char>),
}

impl View for ModuleType {
    type V = ModuleTypeView;

    open spec fn view(&self) -> ModuleTypeView {
        match self {
            ModuleType::Brain => ModuleTypeView::Brain,
            ModuleType::Interface => ModuleTypeView::Interface,
            ModuleType::Vision => ModuleTypeView::Vision,
            ModuleType::Audio => ModuleTypeView::Audio,
            ModuleType::Memory => ModuleTypeView::Memory,
            ModuleType::Reasoning => ModuleTypeView::Reasoning,
            ModuleType::Custom(label) => ModuleTypeView::Custom(label@),
        }
    }
}

impl Clone for ModuleType {
    fn clone(&self) -> (r: Self)
        ensures
            r@ == self@,
    {
        match self {
            ModuleType::Brain => ModuleType::Brain,
            ModuleType::Interface => ModuleType::Interface,
            ModuleType::Vision => ModuleType::Vision,
            ModuleType::Audio => ModuleType::Audio,
            ModuleType::Memory => ModuleType::Memory,
            ModuleType::Reasoning => ModuleType::Reasoning,
            ModuleType::Custom(label) => ModuleType::Custom(label.clone()),
        }
    }
}

/// The lifecycle status of a module. Modules start Running at spawn;
/// Idle models a non-immediate-start path; Failed is reachable only
/// through fault reports from outside the core.
#[derive(Clone, Copy, Debug, PartialEq, Eq, Structural)]
pub enum ModuleStatus {
    Idle,
    Running,
    Paused,
    Failed,
}

/// One registered module: a globally unique id assigned at spawn, a
/// caller-supplied (not necessarily unique) name, a kind and a status.
#[derive(Debug)]
pub struct ModuleInfo {
    pub id: u64,
    pub name: String,
    pub module_type: ModuleType,
    pub status: ModuleStatus,
}

/// The mathematical image of a `ModuleInfo`.
pub ghost struct ModuleInfoView {
    pub id: u64,
    pub name: Seq<char>,
    pub module_type: ModuleTypeView,
    pub status: ModuleStatus,
}

impl View for ModuleInfo {
    type V = ModuleInfoView;

    open spec fn view(&self) -> ModuleInfoView {
        ModuleInfoView {
            id: self.id,
            name: self.name@,
            module_type: self.module_type@,
            status: self.status,
        }
    }
}

impl Clone for ModuleInfo {
    fn clone(&self) -> (r: Self)
        ensures
            r@ == self@,
    {
        ModuleInfo {
            id: self.id,
            name: self.name.clone(),
            module_type: self.module_type.clone(),
            status: self.status,
        }
    }
}

} // verus!
