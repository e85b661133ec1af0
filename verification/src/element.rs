use vstd::prelude::*;

use crate::helper::{ElementId, LocationId, ModuleId};
use crate::settings::{atom_entries, Atom, SettingView, Settings};
use crate::strmap::StrMap;

verus! {

#[derive(Debug)]
/// A download (or upload): what it is, where it goes and how far it got.
pub struct Element {
    pub name: String,
    pub desc: String,
    pub data: StrMap<Atom>,
    pub settings: Settings,
    pub path: String,
    pub module: Option<ModuleId>,
    pub id: ElementId,
    pub url: String,
    pub parent: LocationId,
    /// Bytes waiting to be read from the element.
    pub buffer: Vec<u8>,
    pub status: usize,
    pub statuses: Vec<String>,
    /// Updated once per second from `download_speed_counter`.
    pub download_speed: usize,
    /// Updated once per second from `upload_speed_counter`.
    pub upload_speed: usize,
    pub download_speed_counter: usize,
    pub upload_speed_counter: usize,
    pub total_download: usize,
    pub total_upload: usize,
    pub enabled: bool,
    pub is_error: bool,
    pub is_completed: bool,
}

/// What an [`Element`] stands for.
pub struct ElementView {
    pub name: Seq<char>,
    pub desc: Seq<char>,
    pub data: Seq<(Seq<char>, crate::settings::AtomView)>,
    pub settings: Seq<(Seq<char>, SettingView)>,
    pub path: Seq<char>,
    pub module: Option<ModuleId>,
    pub id: ElementId,
    pub url: Seq<char>,
    pub parent: LocationId,
    pub buffer: Seq<u8>,
    pub status: usize,
    pub statuses: Seq<Seq<char>>,
    pub download_speed: usize,
    pub upload_speed: usize,
    pub download_speed_counter: usize,
    pub upload_speed_counter: usize,
    pub total_download: usize,
    pub total_upload: usize,
    pub enabled: bool,
    pub is_error: bool,
    pub is_completed: bool,
}

impl View for Element {
    type V = ElementView;

    open spec fn view(&self) -> ElementView {
        ElementView {
            name: self.name@,
            desc: self.desc@,
            data: atom_entries(self.data),
            settings: self.settings.entries_view(),
            path: self.path@,
            module: self.module,
            id: self.id,
            url: self.url@,
            parent: self.parent,
            buffer: self.buffer@,
            status: self.status,
            statuses: self.statuses@.map_values(|s: String| s@),
            download_speed: self.download_speed,
            upload_speed: self.upload_speed,
            download_speed_counter: self.download_speed_counter,
            upload_speed_counter: self.upload_speed_counter,
            total_download: self.total_download,
            total_upload: self.total_upload,
            enabled: self.enabled,
            is_error: self.is_error,
            is_completed: self.is_completed,
        }
    }
}

/// A new element: named, at `path`, with nothing done yet.
pub open spec fn fresh_element(
    name: Seq<char>,
    path: Seq<char>,
    id: ElementId,
    parent: LocationId,
) -> ElementView {
    ElementView {
        name,
        desc: Seq::empty(),
        data: Seq::empty(),
        settings: Seq::empty(),
        path,
        module: None,
        id,
        url: Seq::empty(),
        parent,
        buffer: Seq::empty(),
        status: 0,
        statuses: Seq::empty(),
        download_speed: 0,
        upload_speed: 0,
        download_speed_counter: 0,
        upload_speed_counter: 0,
        total_download: 0,
        total_upload: 0,
        enabled: false,
        is_error: false,
        is_completed: false,
    }
}

impl Element {
    /// A new element: named, at `path`, with nothing done yet.
    pub fn fresh(name: String, path: String, id: ElementId, parent: LocationId) -> (e: Self)
        ensures
            e@ == fresh_element(name@, path@, id, parent),
            e.settings.wf(),
            e.data.wf(),
    {
        let e = Element {
            name,
            desc: String::new(),
            data: StrMap::new(),
            settings: Settings::new(),
            path,
            module: None,
            id,
            url: String::new(),
            parent,
            buffer: Vec::new(),
            status: 0,
            statuses: Vec::new(),
            download_speed: 0,
            upload_speed: 0,
            download_speed_counter: 0,
            upload_speed_counter: 0,
            total_download: 0,
            total_upload: 0,
            enabled: false,
            is_error: false,
            is_completed: false,
        };
        assert(atom_entries(e.data) =~= Seq::empty());
        assert(e.settings.entries_view() =~= Seq::empty());
        assert(e.statuses@.map_values(|s: String| s@) =~= Seq::empty());
        assert(e@ == fresh_element(name@, path@, id, parent));
        e
    }
}

} // verus!
