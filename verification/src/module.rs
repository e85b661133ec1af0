use vstd::prelude::*;

use crate::settings::{SettingView, Settings};

verus! {

#[derive(Debug)]
/// A module, as the session records it: the plug-in that does the work of
/// the elements and locations that use it is kept beside the session.
pub struct Module {
    pub name: String,
    pub desc: String,
    pub proxy: u32,
    /// The number that the module gives as its identity.
    pub id: u64,
    pub element_settings: Settings,
    pub location_settings: Settings,
}

/// What a [`Module`] stands for.
pub struct ModuleView {
    pub name: Seq<char>,
    pub desc: Seq<char>,
    pub proxy: u32,
    pub id: u64,
    pub element_settings: Seq<(Seq<char>, SettingView)>,
    pub location_settings: Seq<(Seq<char>, SettingView)>,
}

impl View for Module {
    type V = ModuleView;

    open spec fn view(&self) -> ModuleView {
        ModuleView {
            name: self.name@,
            desc: self.desc@,
            proxy: self.proxy,
            id: self.id,
            element_settings: self.element_settings.entries_view(),
            location_settings: self.location_settings.entries_view(),
        }
    }
}

} // verus!
