//! The state of the applet and the messages that change it.

use vstd::prelude::*;

use crate::backend::{state_text, DnsState, StateView};
use crate::servers::{entries, DnsEntry, EntryView};
use crate::text::{opt_text, texts};

verus! {

/// Seconds between two readings of the DNS state, so the badge stays truthful when the network
/// changes underneath us (reconnects, VPNs, nmtui edits…).
pub const STATUS_INTERVAL_SECS: u64 = 120;

/// Seconds between two checks for a newer release. Infrequent since releases are rare.
pub const RELEASE_INTERVAL_SECS: u64 = 21600;

/// Where the applet's own version sits relative to the latest GitHub release.
#[derive(Debug)]
pub enum ReleaseStatus {
    /// No check has completed yet.
    Unknown,
    Checking,
    UpToDate,
    /// A newer release exists; holds its tag (e.g. "v0.2.0").
    Available(String),
    Error(String),
}

/// What a [`ReleaseStatus`] holds, as text.
pub enum ReleaseView {
    Unknown,
    Checking,
    UpToDate,
    Available(Seq<char>),
    Error(Seq<char>),
}

impl View for ReleaseStatus {
    type V = ReleaseView;

    open spec fn view(&self) -> ReleaseView {
        match self {
            ReleaseStatus::Unknown => ReleaseView::Unknown,
            ReleaseStatus::Checking => ReleaseView::Checking,
            ReleaseStatus::UpToDate => ReleaseView::UpToDate,
            ReleaseStatus::Available(tag) => ReleaseView::Available(tag@),
            ReleaseStatus::Error(e) => ReleaseView::Error(e@),
        }
    }
}

/// A DNS override: the connection that carries it and its servers.
#[derive(Debug)]
pub struct Override {
    pub connection: String,
    pub servers: Vec<String>,
}

/// What an [`Override`] holds, as text.
pub struct OverrideView {
    pub connection: Seq<char>,
    pub servers: Seq<Seq<char>>,
}

impl View for Override {
    type V = OverrideView;

    open spec fn view(&self) -> OverrideView {
        OverrideView { connection: self.connection@, servers: texts(self.servers@) }
    }
}

/// The state of the applet.
#[derive(Debug)]
pub struct Window {
    /// The applet's own version.
    pub version: String,
    /// Number of the open popup.
    pub popup: Option<u64>,
    /// Saved DNS server entries (persisted).
    pub servers: Vec<DnsEntry>,
    /// Last state read from NetworkManager (None until the first check lands).
    pub current: Option<DnsState>,
    /// The override that follows the device from network to network, on the connection where
    /// it was last seen.
    pub followed: Option<Override>,
    /// Set while a switch is being applied to the device.
    pub applying: bool,
    /// Set while a manual cache flush runs.
    pub flushing: bool,
    /// Outcome caption of the last action ("DNS cache flushed", errors, …), and whether it is
    /// an error.
    pub notice: Option<(bool, String)>,
    /// Name of the entry last applied: what the on/off toggle turns back on.
    pub last_custom: Option<String>,
    /// Whether we already imported the device's pre-existing custom DNS.
    pub imported_initial: bool,
    /// True while the settings panel is showing instead of the server list.
    pub show_settings: bool,
    /// Settings form fields for adding a new entry, or, when `editing` is set, for modifying
    /// that existing one.
    pub edit_name: String,
    pub edit_addresses: String,
    /// Index of the entry loaded into the form for editing.
    pub editing: Option<usize>,
    /// Index of the entry currently being drag-reordered (follows the row as it moves: the list
    /// is reordered live while the mouse is held down).
    pub dragging: Option<usize>,
    /// Whether to auto-install newer releases of the applet itself.
    pub auto_update: bool,
    /// Latest-release status for the applet's own version.
    pub release: ReleaseStatus,
    /// True while a self-update download is in progress.
    pub self_updating: bool,
    /// The release tag we've already auto-installed (persisted), so a mis-versioned release
    /// can't loop us into re-applying it forever.
    pub last_auto_update: Option<String>,
}

/// What a [`Window`] holds, as text.
pub struct WindowView {
    pub version: Seq<char>,
    pub popup: Option<u64>,
    pub servers: Seq<EntryView>,
    pub current: Option<StateView>,
    pub followed: Option<OverrideView>,
    pub applying: bool,
    pub flushing: bool,
    pub notice: Option<(bool, Seq<char>)>,
    pub last_custom: Option<Seq<char>>,
    pub imported_initial: bool,
    pub show_settings: bool,
    pub edit_name: Seq<char>,
    pub edit_addresses: Seq<char>,
    pub editing: Option<usize>,
    pub dragging: Option<usize>,
    pub auto_update: bool,
    pub release: ReleaseView,
    pub self_updating: bool,
    pub last_auto_update: Option<Seq<char>>,
}

/// An optional state, as text.
pub open spec fn opt_state(o: Option<DnsState>) -> Option<StateView> {
    match o {
        Some(state) => Some(state@),
        None => None,
    }
}

/// An optional override, as text.
pub open spec fn opt_override(o: Option<Override>) -> Option<OverrideView> {
    match o {
        Some(f) => Some(f@),
        None => None,
    }
}

/// An optional notice, as text.
pub open spec fn opt_notice(o: Option<(bool, String)>) -> Option<(bool, Seq<char>)> {
    match o {
        Some((is_error, note)) => Some((is_error, note@)),
        None => None,
    }
}

impl View for Window {
    type V = WindowView;

    open spec fn view(&self) -> WindowView {
        WindowView {
            version: self.version@,
            popup: self.popup,
            servers: entries(self.servers@),
            current: opt_state(self.current),
            followed: opt_override(self.followed),
            applying: self.applying,
            flushing: self.flushing,
            notice: opt_notice(self.notice),
            last_custom: opt_text(self.last_custom),
            imported_initial: self.imported_initial,
            show_settings: self.show_settings,
            edit_name: self.edit_name@,
            edit_addresses: self.edit_addresses@,
            editing: self.editing,
            dragging: self.dragging,
            auto_update: self.auto_update,
            release: self.release@,
            self_updating: self.self_updating,
            last_auto_update: opt_text(self.last_auto_update),
        }
    }
}

impl WindowView {
    /// The entry in the form and the entry being dragged are entries of the list.
    pub open spec fn wf(self) -> bool {
        &&& self.editing matches Some(i) ==> i < self.servers.len()
        &&& self.dragging matches Some(i) ==> i < self.servers.len()
    }

    /// Whether no two saved entries have the same name.
    pub open spec fn unique_names(self) -> bool {
        forall|i: int, j: int|
            0 <= i < j < self.servers.len() ==> (#[trigger] self.servers[i]).name != (
            #[trigger] self.servers[j]).name
    }
}

/// How the applet was launched, which decides how a new version of it takes over.
#[derive(Debug, Clone, Copy)]
pub enum Launch {
    /// By the panel, which respawns it when it dies.
    Panel,
    /// By hand.
    Standalone,
}

/// What happened to the applet.
#[derive(Debug)]
pub enum Message {
    /// Open the popup under this fresh number, or close the open one.
    TogglePopup(u64),
    CloseRequested(u64),
    /// Re-read the DNS state from NetworkManager.
    RefreshStatus,
    StatusChecked(Result<DnsState, String>),
    /// Switch to the saved entry at this index.
    SelectEntry(usize),
    /// The on/off switch: on re-applies the last used entry, off returns to the router/DHCP
    /// default.
    SetCustom(bool),
    /// A switch (either direction) finished.
    Applied(Result<DnsState, String>),
    /// Moving the override to the network the device is now on finished.
    Followed(Result<DnsState, String>),
    /// Flush the resolver cache without changing servers.
    FlushCache,
    Flushed(Result<(), String>),
    /// Show/hide the settings panel.
    ToggleSettings,
    EditName(String),
    EditAddresses(String),
    /// Create a new entry from the form, or save it over the entry being edited when one is
    /// loaded.
    AddEntry,
    RemoveEntry(usize),
    /// Load an existing entry into the form for editing.
    EditEntry(usize),
    CancelEdit,
    /// Drag-reorder: press on a row, live-move while hovering others, commit on release (or
    /// when the pointer leaves the list).
    DragStart(usize),
    DragOver(usize),
    DragEnd,
    /// Check GitHub for a newer release of the applet.
    CheckRelease,
    ReleaseChecked(Result<String, String>),
    SetAutoUpdate(bool),
    /// Download and install the given release tag of the applet, then relaunch.
    SelfUpdate(String),
    /// Carries the tag that was installed, and how the new version is to take over.
    SelfUpdated(String, Result<Launch, String>),
    /// The installed version could not be run in place of this one.
    RelaunchFailed(String),
}

/// A setting to persist.
#[derive(Debug)]
pub enum Save {
    Servers(Vec<DnsEntry>),
    LastCustom(String),
    ImportedInitial(bool),
    AutoUpdate(bool),
    LastAutoUpdate(String),
}

/// What a [`Save`] holds, as text.
pub enum SaveView {
    Servers(Seq<EntryView>),
    LastCustom(Seq<char>),
    ImportedInitial(bool),
    AutoUpdate(bool),
    LastAutoUpdate(Seq<char>),
}

impl View for Save {
    type V = SaveView;

    open spec fn view(&self) -> SaveView {
        match self {
            Save::Servers(list) => SaveView::Servers(entries(list@)),
            Save::LastCustom(name) => SaveView::LastCustom(name@),
            Save::ImportedInitial(on) => SaveView::ImportedInitial(*on),
            Save::AutoUpdate(on) => SaveView::AutoUpdate(*on),
            Save::LastAutoUpdate(tag) => SaveView::LastAutoUpdate(tag@),
        }
    }
}

/// Work to do outside the applet's state.
#[derive(Debug)]
pub enum Task {
    OpenPopup(u64),
    ClosePopup(u64),
    /// Read the DNS state; ends in `StatusChecked`.
    RefreshStatus,
    /// Force these servers; ends in `Applied`.
    Apply(Vec<String>),
    /// Return to the router's servers; ends in `Applied`.
    Reset,
    /// Force these servers unless the network is a tunnel; ends in `Followed`.
    Follow(Vec<String>),
    /// Remove the override from this connection profile.
    ClearProfile(String),
    /// Flush the cache; ends in `Flushed`.
    Flush,
    /// Ask for the latest release; ends in `ReleaseChecked`.
    CheckRelease,
    /// Install this release; ends in `SelfUpdated`.
    SelfUpdate(String),
    /// End the process with this code.
    Exit(i32),
    /// Run the installed version in place of this one; ends, if at all, in `RelaunchFailed`.
    Relaunch,
}

/// What a [`Task`] holds, as text.
pub enum TaskView {
    OpenPopup(u64),
    ClosePopup(u64),
    RefreshStatus,
    Apply(Seq<Seq<char>>),
    Reset,
    Follow(Seq<Seq<char>>),
    ClearProfile(Seq<char>),
    Flush,
    CheckRelease,
    SelfUpdate(Seq<char>),
    Exit(i32),
    Relaunch,
}

impl View for Task {
    type V = TaskView;

    open spec fn view(&self) -> TaskView {
        match self {
            Task::OpenPopup(id) => TaskView::OpenPopup(*id),
            Task::ClosePopup(id) => TaskView::ClosePopup(*id),
            Task::RefreshStatus => TaskView::RefreshStatus,
            Task::Apply(servers) => TaskView::Apply(texts(servers@)),
            Task::Reset => TaskView::Reset,
            Task::Follow(servers) => TaskView::Follow(texts(servers@)),
            Task::ClearProfile(connection) => TaskView::ClearProfile(connection@),
            Task::Flush => TaskView::Flush,
            Task::CheckRelease => TaskView::CheckRelease,
            Task::SelfUpdate(tag) => TaskView::SelfUpdate(tag@),
            Task::Exit(code) => TaskView::Exit(*code),
            Task::Relaunch => TaskView::Relaunch,
        }
    }
}

/// What a message calls for besides the change of state: settings to persist, in order, and
/// then work to do.
#[derive(Debug)]
pub struct Reaction {
    pub saves: Vec<Save>,
    pub tasks: Vec<Task>,
}

/// What a [`Reaction`] holds, as text.
pub struct ReactionView {
    pub saves: Seq<SaveView>,
    pub tasks: Seq<TaskView>,
}

impl View for Reaction {
    type V = ReactionView;

    open spec fn view(&self) -> ReactionView {
        ReactionView {
            saves: self.saves@.map_values(|s: Save| s@),
            tasks: self.tasks@.map_values(|t: Task| t@),
        }
    }
}

/// What was persisted before, as far as it could be read.
#[derive(Debug)]
pub struct Saved {
    pub servers: Option<Vec<DnsEntry>>,
    pub last_custom: Option<String>,
    pub imported_initial: Option<bool>,
    pub auto_update: Option<bool>,
    pub last_auto_update: Option<String>,
}

/// What a [`Message`] holds, as text.
pub enum MessageView {
    TogglePopup(u64),
    CloseRequested(u64),
    RefreshStatus,
    StatusChecked(Result<StateView, Seq<char>>),
    SelectEntry(usize),
    SetCustom(bool),
    Applied(Result<StateView, Seq<char>>),
    Followed(Result<StateView, Seq<char>>),
    FlushCache,
    Flushed(Result<(), Seq<char>>),
    ToggleSettings,
    EditName(Seq<char>),
    EditAddresses(Seq<char>),
    AddEntry,
    RemoveEntry(usize),
    EditEntry(usize),
    CancelEdit,
    DragStart(usize),
    DragOver(usize),
    DragEnd,
    CheckRelease,
    ReleaseChecked(Result<Seq<char>, Seq<char>>),
    SetAutoUpdate(bool),
    SelfUpdate(Seq<char>),
    SelfUpdated(Seq<char>, Result<Launch, Seq<char>>),
    RelaunchFailed(Seq<char>),
}

impl View for Message {
    type V = MessageView;

    open spec fn view(&self) -> MessageView {
        match self {
            Message::TogglePopup(id) => MessageView::TogglePopup(*id),
            Message::CloseRequested(id) => MessageView::CloseRequested(*id),
            Message::RefreshStatus => MessageView::RefreshStatus,
            Message::StatusChecked(r) => MessageView::StatusChecked(state_text(*r)),
            Message::SelectEntry(i) => MessageView::SelectEntry(*i),
            Message::SetCustom(on) => MessageView::SetCustom(*on),
            Message::Applied(r) => MessageView::Applied(state_text(*r)),
            Message::Followed(r) => MessageView::Followed(state_text(*r)),
            Message::FlushCache => MessageView::FlushCache,
            Message::Flushed(Ok(_)) => MessageView::Flushed(Ok(())),
            Message::Flushed(Err(e)) => MessageView::Flushed(Err(e@)),
            Message::ToggleSettings => MessageView::ToggleSettings,
            Message::EditName(s) => MessageView::EditName(s@),
            Message::EditAddresses(s) => MessageView::EditAddresses(s@),
            Message::AddEntry => MessageView::AddEntry,
            Message::RemoveEntry(i) => MessageView::RemoveEntry(*i),
            Message::EditEntry(i) => MessageView::EditEntry(*i),
            Message::CancelEdit => MessageView::CancelEdit,
            Message::DragStart(i) => MessageView::DragStart(*i),
            Message::DragOver(i) => MessageView::DragOver(*i),
            Message::DragEnd => MessageView::DragEnd,
            Message::CheckRelease => MessageView::CheckRelease,
            Message::ReleaseChecked(Ok(tag)) => MessageView::ReleaseChecked(Ok(tag@)),
            Message::ReleaseChecked(Err(e)) => MessageView::ReleaseChecked(Err(e@)),
            Message::SetAutoUpdate(on) => MessageView::SetAutoUpdate(*on),
            Message::SelfUpdate(tag) => MessageView::SelfUpdate(tag@),
            Message::SelfUpdated(tag, Ok(launch)) => MessageView::SelfUpdated(tag@, Ok(*launch)),
            Message::SelfUpdated(tag, Err(e)) => MessageView::SelfUpdated(tag@, Err(e@)),
            Message::RelaunchFailed(e) => MessageView::RelaunchFailed(e@),
        }
    }
}

impl Clone for ReleaseStatus {
    fn clone(&self) -> (res: Self)
        ensures
            res@ == self@,
    {
        match self {
            ReleaseStatus::Unknown => ReleaseStatus::Unknown,
            ReleaseStatus::Checking => ReleaseStatus::Checking,
            ReleaseStatus::UpToDate => ReleaseStatus::UpToDate,
            ReleaseStatus::Available(tag) => ReleaseStatus::Available(tag.clone()),
            ReleaseStatus::Error(e) => ReleaseStatus::Error(e.clone()),
        }
    }
}

fn copy_result(r: &Result<DnsState, String>) -> (res: Result<DnsState, String>)
    ensures
        state_text(res) == state_text(*r),
{
    match r {
        Ok(state) => Ok(state.clone()),
        Err(e) => Err(e.clone()),
    }
}

impl Clone for Message {
    fn clone(&self) -> (res: Self)
        ensures
            res@ == self@,
    {
        match self {
            Message::TogglePopup(id) => Message::TogglePopup(*id),
            Message::CloseRequested(id) => Message::CloseRequested(*id),
            Message::RefreshStatus => Message::RefreshStatus,
            Message::StatusChecked(r) => Message::StatusChecked(copy_result(r)),
            Message::SelectEntry(i) => Message::SelectEntry(*i),
            Message::SetCustom(on) => Message::SetCustom(*on),
            Message::Applied(r) => Message::Applied(copy_result(r)),
            Message::Followed(r) => Message::Followed(copy_result(r)),
            Message::FlushCache => Message::FlushCache,
            Message::Flushed(Ok(_)) => Message::Flushed(Ok(())),
            Message::Flushed(Err(e)) => Message::Flushed(Err(e.clone())),
            Message::ToggleSettings => Message::ToggleSettings,
            Message::EditName(s) => Message::EditName(s.clone()),
            Message::EditAddresses(s) => Message::EditAddresses(s.clone()),
            Message::AddEntry => Message::AddEntry,
            Message::RemoveEntry(i) => Message::RemoveEntry(*i),
            Message::EditEntry(i) => Message::EditEntry(*i),
            Message::CancelEdit => Message::CancelEdit,
            Message::DragStart(i) => Message::DragStart(*i),
            Message::DragOver(i) => Message::DragOver(*i),
            Message::DragEnd => Message::DragEnd,
            Message::CheckRelease => Message::CheckRelease,
            Message::ReleaseChecked(Ok(tag)) => Message::ReleaseChecked(Ok(tag.clone())),
            Message::ReleaseChecked(Err(e)) => Message::ReleaseChecked(Err(e.clone())),
            Message::SetAutoUpdate(on) => Message::SetAutoUpdate(*on),
            Message::SelfUpdate(tag) => Message::SelfUpdate(tag.clone()),
            Message::SelfUpdated(tag, Ok(launch)) => Message::SelfUpdated(
                tag.clone(),
                Ok(*launch),
            ),
            Message::SelfUpdated(tag, Err(e)) => Message::SelfUpdated(tag.clone(), Err(e.clone())),
            Message::RelaunchFailed(e) => Message::RelaunchFailed(e.clone()),
        }
    }
}

} // verus!
