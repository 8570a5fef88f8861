//! How the applet reacts to each message.

use vstd::prelude::*;

use crate::backend::{DnsState, StateView};
use crate::laws::applet::law_indices_stay_valid;
use crate::servers;
use crate::servers::{copy_entries, entries, parsed_addresses, same_list, DnsEntry, EntryView};
use crate::text;
use crate::text::{joined, opt_text, texts, trimmed};
use crate::version;
use crate::version::newer_version;
use crate::window::{
    opt_override, Launch, Message, MessageView, Override, OverrideView, Reaction,
    ReactionView, ReleaseStatus, ReleaseView, Save, SaveView, Saved, Task, TaskView, Window,
    WindowView,
};

verus! {

/// The first entry for which `test` holds.
pub open spec fn first_entry(list: Seq<EntryView>, test: spec_fn(EntryView) -> bool) -> Option<int>
    decreases list.len(),
{
    if list.len() == 0 {
        None
    } else {
        match first_entry(list.drop_last(), test) {
            Some(i) => Some(i),
            None => if test(list.last()) {
                Some(list.len() - 1)
            } else {
                None
            },
        }
    }
}

/// The test "has this name".
pub open spec fn named(name: Seq<char>) -> spec_fn(EntryView) -> bool {
    |e: EntryView| e.name == name
}

/// The test "has these servers".
pub open spec fn serving(servers: Seq<Seq<char>>) -> spec_fn(EntryView) -> bool {
    |e: EntryView| same_list(e.addresses, servers)
}

/// Nothing to persist and nothing to do.
pub open spec fn nothing() -> ReactionView {
    ReactionView { saves: Seq::empty(), tasks: Seq::empty() }
}

/// Only this to do.
pub open spec fn only(task: TaskView) -> ReactionView {
    ReactionView { saves: Seq::empty(), tasks: seq![task] }
}

/// Opening or closing the popup. Closing it returns to the main view, so reopening never lands
/// on the settings; opening it re-reads the state, so it never shows a stale toggle.
pub open spec fn popup_toggled(w: WindowView, fresh: u64) -> (WindowView, ReactionView) {
    match w.popup {
        Some(id) => (
            WindowView { popup: None, show_settings: false, ..w },
            only(TaskView::ClosePopup(id)),
        ),
        None => (
            WindowView { popup: Some(fresh), ..w },
            ReactionView {
                saves: Seq::empty(),
                tasks: seq![TaskView::OpenPopup(fresh), TaskView::RefreshStatus],
            },
        ),
    }
}

/// The popup was closed from outside.
pub open spec fn close_requested(w: WindowView, id: u64) -> (WindowView, ReactionView) {
    if w.popup == Some(id) {
        (WindowView { popup: None, show_settings: false, ..w }, nothing())
    } else {
        (w, nothing())
    }
}

/// The entry under which servers found on the device are imported.
pub open spec fn imported_entry(servers: Seq<Seq<char>>) -> EntryView {
    EntryView { name: "Imported ("@ + joined(servers, ", "@) + ")"@, addresses: servers }
}

/// An index into the list, once an entry was put before all others: it points at the same entry.
pub open spec fn behind_new_first(index: Option<usize>) -> Option<usize> {
    match index {
        Some(i) => if i < usize::MAX {
            Some((i + 1) as usize)
        } else {
            Some(i)
        },
        None => None,
    }
}

/// First run on a device that already had a custom DNS forced: import it as an entry, unless
/// one with its servers is there already, so switching back to it stays one click away. It goes
/// before all others; the form and a held row stay with their entries.
pub open spec fn imported(w: WindowView, state: StateView) -> (WindowView, Seq<SaveView>) {
    if w.imported_initial {
        (w, Seq::empty())
    } else {
        let done = WindowView { imported_initial: true, ..w };
        let flag = seq![SaveView::ImportedInitial(true)];
        match state.custom {
            Some(custom) => if first_entry(w.servers, serving(custom)) is None {
                let entry = imported_entry(custom);
                let servers = seq![entry] + w.servers;
                (
                    WindowView {
                        servers,
                        last_custom: Some(entry.name),
                        editing: behind_new_first(w.editing),
                        dragging: behind_new_first(w.dragging),
                        ..done
                    },
                    flag.push(SaveView::Servers(servers)),
                )
            } else {
                (done, flag)
            },
            None => (done, flag),
        }
    }
}

/// The override that a state shows.
pub open spec fn shown_override(state: StateView) -> Option<OverrideView> {
    match state.custom {
        Some(servers) => Some(OverrideView { connection: state.connection, servers }),
        None => None,
    }
}

/// Whether the override is on another network than the one the device is on.
pub open spec fn left_behind(followed: Option<OverrideView>, state: StateView) -> bool {
    followed matches Some(f) && f.connection != state.connection
}

/// The override follows the device: where a state shows that the device moved to another
/// network, the override is to move there too, unless that network is a tunnel or a switch is
/// under way.
pub open spec fn following(w: WindowView, state: StateView) -> (WindowView, Seq<TaskView>) {
    if w.applying || state.tunnel {
        (w, Seq::empty())
    } else if left_behind(w.followed, state) {
        (
            WindowView { applying: true, notice: None, ..w },
            seq![TaskView::Follow(w.followed->0.servers)],
        )
    } else {
        (WindowView { followed: shown_override(state), ..w }, Seq::empty())
    }
}

/// The state of the network was read.
pub open spec fn status_checked(w: WindowView, result: Result<StateView, Seq<char>>) -> (
    WindowView,
    ReactionView,
) {
    match result {
        Ok(state) => {
            let (w1, saves) = imported(w, state);
            let (w2, tasks) = following(WindowView { current: Some(state), ..w1 }, state);
            (w2, ReactionView { saves, tasks })
        },
        Err(e) => (WindowView { current: None, notice: Some((true, e)), ..w }, nothing()),
    }
}

/// Switching to the entry at `i` (which becomes the toggle's "on" state).
pub open spec fn entry_applied(w: WindowView, i: int) -> (WindowView, ReactionView) {
    if 0 <= i < w.servers.len() {
        let entry = w.servers[i];
        (
            WindowView { applying: true, notice: None, last_custom: Some(entry.name), ..w },
            ReactionView {
                saves: seq![SaveView::LastCustom(entry.name)],
                tasks: seq![TaskView::Apply(entry.addresses)],
            },
        )
    } else {
        (w, nothing())
    }
}

/// Returning to the router's servers. There is then no override to follow.
pub open spec fn reset_applied(w: WindowView) -> (WindowView, ReactionView) {
    (WindowView { applying: true, notice: None, followed: None, ..w }, only(TaskView::Reset))
}

/// The user picked the entry at `i`; a switch under way is left alone.
pub open spec fn entry_selected(w: WindowView, i: int) -> (WindowView, ReactionView) {
    if w.applying {
        (w, nothing())
    } else {
        entry_applied(w, i)
    }
}

/// What "on" means: the entry we last used, or the first saved one.
pub open spec fn toggle_target(w: WindowView) -> Option<int> {
    let last = match w.last_custom {
        Some(name) => first_entry(w.servers, named(name)),
        None => None,
    };
    if last is Some {
        last
    } else if w.servers.len() > 0 {
        Some(0)
    } else {
        None
    }
}

/// The on/off switch was flipped; a switch under way is left alone.
pub open spec fn custom_set(w: WindowView, on: bool) -> (WindowView, ReactionView) {
    if w.applying {
        (w, nothing())
    } else if !on {
        reset_applied(w)
    } else {
        match toggle_target(w) {
            Some(i) => entry_applied(w, i),
            None => (
                WindowView {
                    notice: Some((true, "Add a DNS server in Settings first"@)),
                    ..w
                },
                nothing(),
            ),
        }
    }
}

/// A switch landed: its outcome is shown, the override is where the state shows it, and is to
/// be cleaned off the network it came from. A tunnel carries no override to follow.
pub open spec fn landed(w: WindowView, state: StateView) -> (WindowView, ReactionView) {
    let what = if state.custom is Some {
        "Switched — DNS cache flushed"@
    } else {
        "Back to router DNS — cache flushed"@
    };
    let shown = WindowView { notice: Some((false, what)), current: Some(state), ..w };
    if state.tunnel {
        (shown, nothing())
    } else {
        (
            WindowView { followed: shown_override(state), ..shown },
            if left_behind(w.followed, state) && state.custom is Some {
                only(TaskView::ClearProfile(w.followed->0.connection))
            } else {
                nothing()
            },
        )
    }
}

/// A switch by the user ended. After a failure the state is read again: the modification may
/// have half-landed.
pub open spec fn applied(w: WindowView, result: Result<StateView, Seq<char>>) -> (
    WindowView,
    ReactionView,
) {
    let idle = WindowView { applying: false, ..w };
    match result {
        Ok(state) => landed(idle, state),
        Err(e) => (WindowView { notice: Some((true, e)), ..idle }, only(TaskView::RefreshStatus)),
    }
}

/// Moving the override ended. A failure gives the override up, so that it is not tried again
/// without end.
pub open spec fn followed_ended(w: WindowView, result: Result<StateView, Seq<char>>) -> (
    WindowView,
    ReactionView,
) {
    let idle = WindowView { applying: false, ..w };
    match result {
        Ok(state) => if state.tunnel {
            (WindowView { current: Some(state), ..idle }, nothing())
        } else {
            landed(idle, state)
        },
        Err(e) => (
            WindowView { notice: Some((true, e)), followed: None, ..idle },
            only(TaskView::RefreshStatus),
        ),
    }
}

/// The user asked for a flush; one under way is left alone.
pub open spec fn flush_started(w: WindowView) -> (WindowView, ReactionView) {
    if w.flushing {
        (w, nothing())
    } else {
        (WindowView { flushing: true, notice: None, ..w }, only(TaskView::Flush))
    }
}

/// The flush ended.
pub open spec fn flushed(w: WindowView, result: Result<(), Seq<char>>) -> (
    WindowView,
    ReactionView,
) {
    let notice = match result {
        Ok(_) => (false, "DNS cache flushed"@),
        Err(e) => (true, e),
    };
    (WindowView { flushing: false, notice: Some(notice), ..w }, nothing())
}

/// The form emptied, with no entry in it.
pub open spec fn form_emptied(w: WindowView) -> WindowView {
    WindowView { editing: None, edit_name: Seq::empty(), edit_addresses: Seq::empty(), ..w }
}

/// Showing the settings refreshes the release status; leaving them abandons any edit or drag.
pub open spec fn settings_toggled(w: WindowView) -> (WindowView, ReactionView) {
    if w.show_settings {
        (WindowView { show_settings: false, dragging: None, ..form_emptied(w) }, nothing())
    } else if w.release is Checking {
        (WindowView { show_settings: true, ..w }, nothing())
    } else {
        (
            WindowView { show_settings: true, release: ReleaseView::Checking, ..w },
            only(TaskView::CheckRelease),
        )
    }
}

/// Whether an entry other than the one being edited has this name.
pub open spec fn name_taken(w: WindowView, name: Seq<char>) -> bool {
    exists|i: int|
        0 <= i < w.servers.len() && (#[trigger] w.servers[i]).name == name && w.editing != Some(
            i as usize,
        )
}

/// The entry that the form describes, if it is complete: a name that no other entry has, and
/// addresses.
pub open spec fn form_entry(w: WindowView) -> Option<EntryView> {
    let name = trimmed(w.edit_name);
    match parsed_addresses(w.edit_addresses) {
        Some(addresses) => if name.len() > 0 && !name_taken(w, name) {
            Some(EntryView { name, addresses })
        } else {
            None
        },
        None => None,
    }
}

/// Saving the form, over the entry being edited or as a new one. A rename follows through to
/// what the on/off toggle re-applies.
pub open spec fn entry_added(w: WindowView) -> (WindowView, ReactionView) {
    match form_entry(w) {
        None => (w, nothing()),
        Some(entry) => if w.editing is Some && w.editing->0 < w.servers.len() {
            let i = w.editing->0 as int;
            let servers = w.servers.update(i, entry);
            let renamed = w.last_custom == Some(w.servers[i].name);
            (
                WindowView {
                    servers,
                    last_custom: if renamed {
                        Some(entry.name)
                    } else {
                        w.last_custom
                    },
                    ..form_emptied(w)
                },
                ReactionView {
                    saves: if renamed {
                        seq![SaveView::LastCustom(entry.name), SaveView::Servers(servers)]
                    } else {
                        seq![SaveView::Servers(servers)]
                    },
                    tasks: Seq::empty(),
                },
            )
        } else {
            let servers = w.servers.push(entry);
            (
                WindowView { servers, ..form_emptied(w) },
                ReactionView { saves: seq![SaveView::Servers(servers)], tasks: Seq::empty() },
            )
        },
    }
}

/// Removing the entry at `i`. The toggle forgets it, and so does the form; an entry behind it
/// stays in the form.
pub open spec fn entry_removed(w: WindowView, i: usize) -> (WindowView, ReactionView) {
    if i < w.servers.len() {
        let servers = w.servers.remove(i as int);
        let form = match w.editing {
            Some(e) => if e == i {
                form_emptied(w)
            } else if e > i {
                WindowView { editing: Some((e - 1) as usize), ..w }
            } else {
                w
            },
            None => w,
        };
        (
            WindowView {
                servers,
                last_custom: if w.last_custom == Some(w.servers[i as int].name) {
                    None
                } else {
                    w.last_custom
                },
                dragging: None,
                ..form
            },
            ReactionView { saves: seq![SaveView::Servers(servers)], tasks: Seq::empty() },
        )
    } else {
        (w, nothing())
    }
}

/// Loading the entry at `i` into the form.
pub open spec fn entry_loaded(w: WindowView, i: usize) -> WindowView {
    if i < w.servers.len() {
        WindowView {
            editing: Some(i),
            edit_name: w.servers[i as int].name,
            edit_addresses: joined(w.servers[i as int].addresses, ", "@),
            ..w
        }
    } else {
        w
    }
}

/// Taking hold of the row at `i`.
pub open spec fn drag_started(w: WindowView, i: usize) -> WindowView {
    if i < w.servers.len() {
        WindowView { dragging: Some(i), ..w }
    } else {
        w
    }
}

/// The list with the element at `from` moved to `to`.
pub open spec fn moved<A>(list: Seq<A>, from: int, to: int) -> Seq<A> {
    list.remove(from).insert(to, list[from])
}

/// Where the element at `e` is after that move.
pub open spec fn moved_index(e: usize, from: usize, to: usize) -> usize {
    if e == from {
        to
    } else if from < e && e <= to {
        (e - 1) as usize
    } else if to <= e && e < from {
        (e + 1) as usize
    } else {
        e
    }
}

/// Dragging the held row over the row at `to` moves it there; the form stays pointed at the
/// same entry.
pub open spec fn dragged_over(w: WindowView, to: usize) -> WindowView {
    match w.dragging {
        Some(from) => if from != to && from < w.servers.len() && to < w.servers.len() {
            WindowView {
                servers: moved(w.servers, from as int, to as int),
                editing: match w.editing {
                    Some(e) => Some(moved_index(e, from, to)),
                    None => None,
                },
                dragging: Some(to),
                ..w
            }
        } else {
            w
        },
        None => w,
    }
}

/// Letting go of the held row persists the order.
pub open spec fn drag_ended(w: WindowView) -> (WindowView, ReactionView) {
    if w.dragging is Some {
        (
            WindowView { dragging: None, ..w },
            ReactionView { saves: seq![SaveView::Servers(w.servers)], tasks: Seq::empty() },
        )
    } else {
        (w, nothing())
    }
}

/// Looking for a newer release, unless that or an update is under way.
pub open spec fn release_check_started(w: WindowView) -> (WindowView, ReactionView) {
    if w.release is Checking || w.self_updating {
        (w, nothing())
    } else {
        (WindowView { release: ReleaseView::Checking, ..w }, only(TaskView::CheckRelease))
    }
}

/// The latest release is known, and whether it is newer. A newer one is installed by itself if
/// the user lets it, but only once per tag: one that still looks newer after it was installed
/// is mis-versioned, and applying it again would loop forever.
pub open spec fn release_found(w: WindowView, tag: Seq<char>, newer: bool) -> (
    WindowView,
    ReactionView,
) {
    if !newer {
        (WindowView { release: ReleaseView::UpToDate, ..w }, nothing())
    } else {
        let shown = WindowView { release: ReleaseView::Available(tag), ..w };
        if w.auto_update && !w.self_updating && w.last_auto_update != Some(tag) {
            (WindowView { self_updating: true, ..shown }, only(TaskView::SelfUpdate(tag)))
        } else {
            (shown, nothing())
        }
    }
}

/// The check for a newer release ended.
pub open spec fn release_checked(w: WindowView, result: Result<Seq<char>, Seq<char>>) -> (
    WindowView,
    ReactionView,
) {
    match result {
        Ok(tag) => release_found(w, tag, newer_version(tag, w.version)),
        Err(e) => (WindowView { release: ReleaseView::Error(e), ..w }, nothing()),
    }
}

/// The auto-update toggle was flipped. Switching it on while an update is pending applies it
/// now, unless that tag was already installed by itself.
pub open spec fn auto_update_set(w: WindowView, on: bool) -> (WindowView, ReactionView) {
    let set = WindowView { auto_update: on, ..w };
    let saves = seq![SaveView::AutoUpdate(on)];
    match w.release {
        ReleaseView::Available(tag) => if on && !w.self_updating && w.last_auto_update != Some(
            tag,
        ) {
            (
                WindowView { self_updating: true, ..set },
                ReactionView { saves, tasks: seq![TaskView::SelfUpdate(tag)] },
            )
        } else {
            (set, ReactionView { saves, tasks: Seq::empty() })
        },
        _ => (set, ReactionView { saves, tasks: Seq::empty() }),
    }
}

/// The user asked for this release; an update under way is left alone.
pub open spec fn self_update_started(w: WindowView, tag: Seq<char>) -> (WindowView, ReactionView) {
    if w.self_updating {
        (w, nothing())
    } else {
        (WindowView { self_updating: true, ..w }, only(TaskView::SelfUpdate(tag)))
    }
}

/// The update ended. The installed tag is recorded, so that the next check won't re-apply it;
/// then the new version takes over. The panel respawns an applet that dies abnormally, but
/// takes a clean exit for an intentional quit.
pub open spec fn self_updated(
    w: WindowView,
    tag: Seq<char>,
    result: Result<Launch, Seq<char>>,
) -> (WindowView, ReactionView) {
    match result {
        Ok(launch) => (
            WindowView { last_auto_update: Some(tag), ..w },
            ReactionView {
                saves: seq![SaveView::LastAutoUpdate(tag)],
                tasks: seq![
                    match launch {
                        Launch::Panel => TaskView::Exit(1),
                        Launch::Standalone => TaskView::Relaunch,
                    },
                ],
            },
        ),
        Err(e) => (
            WindowView { self_updating: false, release: ReleaseView::Error(e), ..w },
            nothing(),
        ),
    }
}

/// The new version could not take over.
pub open spec fn relaunch_failed(w: WindowView, e: Seq<char>) -> WindowView {
    WindowView {
        self_updating: false,
        release: ReleaseView::Error("Updated, but relaunch failed: "@ + e),
        ..w
    }
}

/// How the applet reacts to a message: its next state, and what is to be done.
pub open spec fn reacted(w: WindowView, m: MessageView) -> (WindowView, ReactionView) {
    match m {
        MessageView::TogglePopup(fresh) => popup_toggled(w, fresh),
        MessageView::CloseRequested(id) => close_requested(w, id),
        MessageView::RefreshStatus => (w, only(TaskView::RefreshStatus)),
        MessageView::StatusChecked(result) => status_checked(w, result),
        MessageView::SelectEntry(i) => entry_selected(w, i as int),
        MessageView::SetCustom(on) => custom_set(w, on),
        MessageView::Applied(result) => applied(w, result),
        MessageView::Followed(result) => followed_ended(w, result),
        MessageView::FlushCache => flush_started(w),
        MessageView::Flushed(result) => flushed(w, result),
        MessageView::ToggleSettings => settings_toggled(w),
        MessageView::EditName(s) => (WindowView { edit_name: s, ..w }, nothing()),
        MessageView::EditAddresses(s) => (WindowView { edit_addresses: s, ..w }, nothing()),
        MessageView::AddEntry => entry_added(w),
        MessageView::RemoveEntry(i) => entry_removed(w, i),
        MessageView::EditEntry(i) => (entry_loaded(w, i), nothing()),
        MessageView::CancelEdit => (form_emptied(w), nothing()),
        MessageView::DragStart(i) => (drag_started(w, i), nothing()),
        MessageView::DragOver(to) => (dragged_over(w, to), nothing()),
        MessageView::DragEnd => drag_ended(w),
        MessageView::CheckRelease => release_check_started(w),
        MessageView::ReleaseChecked(result) => release_checked(w, result),
        MessageView::SetAutoUpdate(on) => auto_update_set(w, on),
        MessageView::SelfUpdate(tag) => self_update_started(w, tag),
        MessageView::SelfUpdated(tag, result) => self_updated(w, tag, result),
        MessageView::RelaunchFailed(e) => (relaunch_failed(w, e), nothing()),
    }
}

fn no_saves() -> (saves: Vec<Save>)
    ensures
        saves@.map_values(|s: Save| s@) == Seq::<SaveView>::empty(),
{
    let saves: Vec<Save> = Vec::new();
    assert(saves@.map_values(|s: Save| s@) =~= Seq::<SaveView>::empty());
    saves
}

fn no_tasks() -> (tasks: Vec<Task>)
    ensures
        tasks@.map_values(|t: Task| t@) == Seq::<TaskView>::empty(),
{
    let tasks: Vec<Task> = Vec::new();
    assert(tasks@.map_values(|t: Task| t@) =~= Seq::<TaskView>::empty());
    tasks
}

fn one_save(save: Save) -> (saves: Vec<Save>)
    ensures
        saves@.map_values(|s: Save| s@) == seq![save@],
{
    let mut saves: Vec<Save> = Vec::new();
    saves.push(save);
    assert(saves@.map_values(|s: Save| s@) =~= seq![save@]);
    saves
}

fn one_task(task: Task) -> (tasks: Vec<Task>)
    ensures
        tasks@.map_values(|t: Task| t@) == seq![task@],
{
    let mut tasks: Vec<Task> = Vec::new();
    tasks.push(task);
    assert(tasks@.map_values(|t: Task| t@) =~= seq![task@]);
    tasks
}

fn two_tasks(first: Task, second: Task) -> (tasks: Vec<Task>)
    ensures
        tasks@.map_values(|t: Task| t@) == seq![first@, second@],
{
    let mut tasks: Vec<Task> = Vec::new();
    tasks.push(first);
    tasks.push(second);
    assert(tasks@.map_values(|t: Task| t@) =~= seq![first@, second@]);
    tasks
}

fn quiet() -> (res: Reaction)
    ensures
        res@ == nothing(),
{
    Reaction { saves: no_saves(), tasks: no_tasks() }
}

fn just(task: Task) -> (res: Reaction)
    ensures
        res@ == only(task@),
{
    Reaction { saves: no_saves(), tasks: one_task(task) }
}

/// The name, if it is not empty.
fn kept(o: Option<String>) -> (res: Option<String>)
    ensures
        opt_text(res) == non_empty_text(opt_text(o)),
{
    match o {
        Some(s) => if s.as_str().is_empty() {
            None
        } else {
            Some(s)
        },
        None => None,
    }
}

/// A text, if there is one and it is not empty.
pub open spec fn non_empty_text(o: Option<Seq<char>>) -> Option<Seq<char>> {
    match o {
        Some(s) => if s.len() == 0 {
            None
        } else {
            Some(s)
        },
        None => None,
    }
}

/// Whether `o` holds `s`.
fn holds(o: &Option<String>, s: &String) -> (yes: bool)
    ensures
        yes == (opt_text(*o) == Some(s@)),
{
    match o {
        Some(t) => *t == *s,
        None => false,
    }
}

fn override_of(state: &DnsState) -> (res: Option<Override>)
    ensures
        opt_override(res) == shown_override(state@),
{
    match &state.custom {
        Some(servers) => Some(
            Override { connection: state.connection.clone(), servers: servers.clone() },
        ),
        None => None,
    }
}

/// The state the applet starts in: what was persisted, and the presets on the first run.
/// Automatic updates are on unless the user switched them off.
pub open spec fn initial(saved: Saved, version: Seq<char>) -> WindowView {
    WindowView {
        version,
        popup: None,
        servers: match saved.servers {
            Some(list) => entries(list@),
            None => servers::presets(),
        },
        current: None,
        followed: None,
        applying: false,
        flushing: false,
        notice: None,
        last_custom: non_empty_text(opt_text(saved.last_custom)),
        imported_initial: saved.imported_initial == Some(true),
        show_settings: false,
        edit_name: Seq::empty(),
        edit_addresses: Seq::empty(),
        editing: None,
        dragging: None,
        auto_update: saved.auto_update != Some(false),
        release: ReleaseView::Unknown,
        self_updating: false,
        last_auto_update: non_empty_text(opt_text(saved.last_auto_update)),
    }
}

/// What the applet does as it starts.
pub open spec fn started(w: WindowView) -> ReactionView {
    ReactionView {
        saves: seq![SaveView::Servers(w.servers)],
        tasks: seq![TaskView::RefreshStatus, TaskView::CheckRelease],
    }
}

fn shifted(index: Option<usize>) -> (res: Option<usize>)
    ensures
        res == behind_new_first(index),
{
    match index {
        Some(i) => if i < usize::MAX {
            Some(i + 1)
        } else {
            Some(i)
        },
        None => None,
    }
}

impl Window {
    /// The applet as it starts: the list (the seeded presets on the first run) is persisted, the
    /// network read and the latest release looked up.
    pub fn init(saved: Saved, version: &str) -> (res: (Window, Reaction))
        ensures
            res.0@ == initial(saved, version@),
            res.1@ == started(res.0@),
            res.1@ == (ReactionView {
                saves: seq![SaveView::Servers(res.0@.servers)],
                tasks: seq![TaskView::RefreshStatus, TaskView::CheckRelease],
            }),
            res.0@.wf(),
    {
        let servers = match saved.servers {
            Some(list) => list,
            None => servers::preset_entries(),
        };
        let window = Window {
            version: version.to_string(),
            popup: None,
            servers,
            current: None,
            followed: None,
            applying: false,
            flushing: false,
            notice: None,
            last_custom: kept(saved.last_custom),
            imported_initial: match saved.imported_initial {
                Some(done) => done,
                None => false,
            },
            show_settings: false,
            edit_name: String::new(),
            edit_addresses: String::new(),
            editing: None,
            dragging: None,
            auto_update: match saved.auto_update {
                Some(on) => on,
                None => true,
            },
            release: ReleaseStatus::Unknown,
            self_updating: false,
            last_auto_update: kept(saved.last_auto_update),
        };
        let tasks = two_tasks(Task::RefreshStatus, Task::CheckRelease);
        let saves = one_save(window.save_servers());
        (window, Reaction { saves, tasks })
    }

    /// Persist the current server list.
    fn save_servers(&self) -> (save: Save)
        ensures
            save@ == SaveView::Servers(self@.servers),
    {
        Save::Servers(copy_entries(&self.servers))
    }

    fn toggle_popup(&mut self, fresh: u64) -> (res: Reaction)
        ensures
            (final(self)@, res@) == popup_toggled(old(self)@, fresh),
    {
        match self.popup {
            Some(id) => {
                self.popup = None;
                self.show_settings = false;
                just(Task::ClosePopup(id))
            },
            None => {
                self.popup = Some(fresh);
                Reaction {
                    saves: no_saves(),
                    tasks: two_tasks(Task::OpenPopup(fresh), Task::RefreshStatus),
                }
            },
        }
    }

    fn request_close(&mut self, id: u64) -> (res: Reaction)
        ensures
            (final(self)@, res@) == close_requested(old(self)@, id),
    {
        if let Some(open) = self.popup {
            if open == id {
                self.popup = None;
                self.show_settings = false;
            }
        }
        quiet()
    }

    /// The first saved entry with this name.
    fn find_name(&self, name: &String) -> (at: Option<usize>)
        ensures
            match at {
                Some(i) => first_entry(self@.servers, named(name@)) == Some(i as int),
                None => first_entry(self@.servers, named(name@)) is None,
            },
            at matches Some(i) ==> i < self.servers.len(),
    {
        let ghost all = self@.servers;
        let mut i: usize = 0;
        while i < self.servers.len()
            invariant
                i <= self.servers.len(),
                all == entries(self.servers@),
                first_entry(all.take(i as int), named(name@)) is None,
            decreases self.servers.len() - i,
        {
            proof {
                assert(all.take(i + 1).drop_last() == all.take(i as int));
                assert(all.take(i + 1).last() == self.servers@[i as int]@);
            }
            if self.servers[i].name == *name {
                proof {
                    lemma_first_entry_extends(all, named(name@), i + 1);
                }
                return Some(i);
            }
            i += 1;
        }
        assert(all.take(self.servers.len() as int) == all);
        None
    }

    /// The first saved entry with these servers.
    pub(crate) fn find_servers(&self, servers: &Vec<String>) -> (at: Option<usize>)
        ensures
            match at {
                Some(i) => first_entry(self@.servers, serving(texts(servers@))) == Some(i as int),
                None => first_entry(self@.servers, serving(texts(servers@))) is None,
            },
            at matches Some(i) ==> i < self.servers.len(),
    {
        let ghost all = self@.servers;
        let ghost test = serving(texts(servers@));
        let mut i: usize = 0;
        while i < self.servers.len()
            invariant
                i <= self.servers.len(),
                all == entries(self.servers@),
                test == serving(texts(servers@)),
                first_entry(all.take(i as int), test) is None,
            decreases self.servers.len() - i,
        {
            proof {
                assert(all.take(i + 1).drop_last() == all.take(i as int));
                assert(all.take(i + 1).last() == self.servers@[i as int]@);
            }
            if servers::same_servers(self.servers[i].addresses.as_slice(), servers.as_slice()) {
                proof {
                    lemma_first_entry_extends(all, test, i + 1);
                }
                return Some(i);
            }
            i += 1;
        }
        assert(all.take(self.servers.len() as int) == all);
        None
    }

    fn import(&mut self, state: &DnsState) -> (saves: Vec<Save>)
        ensures
            (final(self)@, saves@.map_values(|s: Save| s@)) == imported(old(self)@, state@),
    {
        if self.imported_initial {
            return no_saves();
        }
        self.imported_initial = true;
        let mut saves = one_save(Save::ImportedInitial(true));
        if let Some(custom) = &state.custom {
            if self.find_servers(custom).is_none() {
                let mut name = "Imported (".to_string();
                name.append(text::join(custom.as_slice(), ", ").as_str());
                name.append(")");
                let entry = DnsEntry { name: name.clone(), addresses: custom.clone() };
                let ghost before = self@.servers;
                let ghost done = saves@.map_values(|s: Save| s@);
                self.last_custom = Some(name);
                self.servers.insert(0, entry);
                assert(self@.servers =~= seq![entry@] + before);
                self.editing = shifted(self.editing);
                self.dragging = shifted(self.dragging);
                saves.push(self.save_servers());
                assert(saves@.map_values(|s: Save| s@) =~= done.push(
                    SaveView::Servers(self@.servers),
                ));
            }
        }
        saves
    }

    /// Whether the override is on another network than the one the device is on.
    fn is_left_behind(&self, state: &DnsState) -> (yes: bool)
        ensures
            yes == left_behind(self@.followed, state@),
    {
        match &self.followed {
            Some(f) => f.connection != state.connection,
            None => false,
        }
    }

    fn follow(&mut self, state: &DnsState) -> (tasks: Vec<Task>)
        ensures
            (final(self)@, tasks@.map_values(|t: Task| t@)) == following(old(self)@, state@),
    {
        if self.applying || state.tunnel {
            return no_tasks();
        }
        if self.is_left_behind(state) {
            if let Some(f) = &self.followed {
                let servers = text::copy_list(f.servers.as_slice());
                self.applying = true;
                self.notice = None;
                return one_task(Task::Follow(servers));
            }
        }
        self.followed = override_of(state);
        no_tasks()
    }

    fn check_status(&mut self, result: Result<DnsState, String>) -> (res: Reaction)
        ensures
            (final(self)@, res@) == status_checked(
                old(self)@,
                crate::backend::state_text(result),
            ),
    {
        match result {
            Ok(state) => {
                let saves = self.import(&state);
                self.current = Some(state.clone());
                let tasks = self.follow(&state);
                Reaction { saves, tasks }
            },
            Err(e) => {
                self.current = None;
                self.notice = Some((true, e));
                quiet()
            },
        }
    }

    /// Switch the device to the entry at `index` (records it as the toggle's "on" state).
    fn apply_entry(&mut self, index: usize) -> (res: Reaction)
        ensures
            (final(self)@, res@) == entry_applied(old(self)@, index as int),
    {
        if index >= self.servers.len() {
            return quiet();
        }
        let name = self.servers[index].name.clone();
        let addresses = text::copy_list(self.servers[index].addresses.as_slice());
        self.applying = true;
        self.notice = None;
        self.last_custom = Some(name.clone());
        Reaction {
            saves: one_save(Save::LastCustom(name)),
            tasks: one_task(Task::Apply(addresses)),
        }
    }

    /// Return the device to the router/DHCP-provided DNS.
    fn apply_reset(&mut self) -> (res: Reaction)
        ensures
            (final(self)@, res@) == reset_applied(old(self)@),
    {
        self.applying = true;
        self.notice = None;
        self.followed = None;
        just(Task::Reset)
    }

    fn select_entry(&mut self, i: usize) -> (res: Reaction)
        ensures
            (final(self)@, res@) == entry_selected(old(self)@, i as int),
    {
        if self.applying {
            return quiet();
        }
        self.apply_entry(i)
    }

    /// What "on" means: the entry we last used, or the first saved one.
    fn find_target(&self) -> (at: Option<usize>)
        ensures
            match at {
                Some(i) => toggle_target(self@) == Some(i as int),
                None => toggle_target(self@) is None,
            },
    {
        if let Some(name) = &self.last_custom {
            if let Some(i) = self.find_name(name) {
                return Some(i);
            }
        }
        if self.servers.len() > 0 {
            Some(0)
        } else {
            None
        }
    }

    fn set_custom(&mut self, on: bool) -> (res: Reaction)
        ensures
            (final(self)@, res@) == custom_set(old(self)@, on),
    {
        if self.applying {
            return quiet();
        }
        if !on {
            return self.apply_reset();
        }
        match self.find_target() {
            Some(i) => self.apply_entry(i),
            None => {
                self.notice = Some((true, "Add a DNS server in Settings first".to_string()));
                quiet()
            },
        }
    }

    fn land(&mut self, state: DnsState) -> (res: Reaction)
        ensures
            (final(self)@, res@) == landed(old(self)@, state@),
    {
        let what = match &state.custom {
            Some(_) => "Switched — DNS cache flushed",
            None => "Back to router DNS — cache flushed",
        };
        self.notice = Some((false, what.to_string()));
        let mut res = quiet();
        if !state.tunnel {
            if self.is_left_behind(&state) && state.custom.is_some() {
                if let Some(f) = &self.followed {
                    res = just(Task::ClearProfile(f.connection.clone()));
                }
            }
            self.followed = override_of(&state);
        }
        self.current = Some(state);
        res
    }

    fn finish_switch(&mut self, result: Result<DnsState, String>) -> (res: Reaction)
        ensures
            (final(self)@, res@) == applied(old(self)@, crate::backend::state_text(result)),
    {
        self.applying = false;
        match result {
            Ok(state) => self.land(state),
            Err(e) => {
                self.notice = Some((true, e));
                // Re-sync: the modify may have half-landed.
                just(Task::RefreshStatus)
            },
        }
    }

    fn finish_follow(&mut self, result: Result<DnsState, String>) -> (res: Reaction)
        ensures
            (final(self)@, res@) == followed_ended(old(self)@, crate::backend::state_text(result)),
    {
        self.applying = false;
        match result {
            Ok(state) => if state.tunnel {
                self.current = Some(state);
                quiet()
            } else {
                self.land(state)
            },
            Err(e) => {
                self.notice = Some((true, e));
                self.followed = None;
                just(Task::RefreshStatus)
            },
        }
    }

    fn start_flush(&mut self) -> (res: Reaction)
        ensures
            (final(self)@, res@) == flush_started(old(self)@),
    {
        if self.flushing {
            return quiet();
        }
        self.flushing = true;
        self.notice = None;
        just(Task::Flush)
    }

    fn finish_flush(&mut self, result: Result<(), String>) -> (res: Reaction)
        ensures
            (final(self)@, res@) == flushed(
                old(self)@,
                match result {
                    Ok(_) => Ok(()),
                    Err(e) => Err(e@),
                },
            ),
    {
        self.flushing = false;
        self.notice = Some(
            match result {
                Ok(_) => (false, "DNS cache flushed".to_string()),
                Err(e) => (true, e),
            },
        );
        quiet()
    }

    fn empty_form(&mut self)
        ensures
            final(self)@ == form_emptied(old(self)@),
    {
        self.editing = None;
        self.edit_name = String::new();
        self.edit_addresses = String::new();
    }

    fn toggle_settings(&mut self) -> (res: Reaction)
        ensures
            (final(self)@, res@) == settings_toggled(old(self)@),
    {
        self.show_settings = !self.show_settings;
        if !self.show_settings {
            self.empty_form();
            self.dragging = None;
            return quiet();
        }
        if let ReleaseStatus::Checking = &self.release {
            return quiet();
        }
        self.release = ReleaseStatus::Checking;
        just(Task::CheckRelease)
    }

    /// Whether an entry other than the one being edited has this name.
    fn is_name_taken(&self, name: &String) -> (yes: bool)
        ensures
            yes == name_taken(self@, name@),
    {
        let ghost w = self@;
        let mut i: usize = 0;
        while i < self.servers.len()
            invariant
                i <= self.servers.len(),
                w == self@,
                forall|j: int|
                    0 <= j < i ==> !((#[trigger] w.servers[j]).name == name@ && w.editing != Some(
                        j as usize,
                    )),
            decreases self.servers.len() - i,
        {
            let edited = match self.editing {
                Some(e) => e == i,
                None => false,
            };
            if self.servers[i].name == *name && !edited {
                assert(w.servers[i as int].name == name@);
                return true;
            }
            i += 1;
        }
        false
    }

    /// The entry that the form describes, if it is complete.
    pub(crate) fn read_form(&self) -> (res: Option<DnsEntry>)
        ensures
            match res {
                Some(entry) => form_entry(self@) == Some(entry@),
                None => form_entry(self@) is None,
            },
    {
        let name = text::trim(self.edit_name.as_str());
        match servers::parse_addresses(self.edit_addresses.as_str()) {
            Some(addresses) => if name.as_str().is_empty() || self.is_name_taken(&name) {
                None
            } else {
                Some(DnsEntry { name, addresses })
            },
            None => None,
        }
    }

    fn add_entry(&mut self) -> (res: Reaction)
        ensures
            (final(self)@, res@) == entry_added(old(self)@),
    {
        let entry = match self.read_form() {
            Some(entry) => entry,
            None => return quiet(),
        };
        let ghost w = self@;
        let ghost e = entry@;
        let mut saves = no_saves();
        match self.editing {
            // Save over the entry loaded for editing.
            Some(i) if i < self.servers.len() => {
                // A rename must follow through to what the on/off toggle re-applies.
                if holds(&self.last_custom, &self.servers[i].name) {
                    self.last_custom = Some(entry.name.clone());
                    saves = one_save(Save::LastCustom(entry.name.clone()));
                }
                self.servers.set(i, entry);
                assert(self@.servers =~= w.servers.update(i as int, e));
            },
            _ => {
                self.servers.push(entry);
                assert(self@.servers =~= w.servers.push(e));
            },
        }
        let ghost done = saves@.map_values(|s: Save| s@);
        saves.push(self.save_servers());
        assert(saves@.map_values(|s: Save| s@) =~= done.push(SaveView::Servers(self@.servers)));
        self.empty_form();
        let res = Reaction { saves, tasks: no_tasks() };
        assert(res@.saves =~= entry_added(w).1.saves);
        res
    }

    fn remove_entry(&mut self, i: usize) -> (res: Reaction)
        ensures
            (final(self)@, res@) == entry_removed(old(self)@, i),
    {
        if i >= self.servers.len() {
            return quiet();
        }
        let ghost w = self@;
        let removed = self.servers.remove(i);
        assert(self@.servers =~= w.servers.remove(i as int));
        if holds(&self.last_custom, &removed.name) {
            self.last_custom = None;
        }
        if let Some(e) = self.editing {
            if e == i {
                self.empty_form();
            } else if e > i {
                self.editing = Some(e - 1);
            }
        }
        self.dragging = None;
        Reaction { saves: one_save(self.save_servers()), tasks: no_tasks() }
    }

    fn edit_entry(&mut self, i: usize)
        ensures
            final(self)@ == entry_loaded(old(self)@, i),
    {
        if i < self.servers.len() {
            self.editing = Some(i);
            self.edit_name = self.servers[i].name.clone();
            self.edit_addresses = text::join(self.servers[i].addresses.as_slice(), ", ");
        }
    }

    fn start_drag(&mut self, i: usize)
        ensures
            final(self)@ == drag_started(old(self)@, i),
    {
        if i < self.servers.len() {
            self.dragging = Some(i);
        }
    }

    fn drag_over(&mut self, to: usize)
        ensures
            final(self)@ == dragged_over(old(self)@, to),
    {
        if let Some(from) = self.dragging {
            if from != to && from < self.servers.len() && to < self.servers.len() {
                let ghost w = self@;
                let entry = self.servers.remove(from);
                self.servers.insert(to, entry);
                assert(self@.servers =~= moved(w.servers, from as int, to as int));
                // Keep the edit form pointed at the same entry.
                if let Some(e) = self.editing {
                    self.editing = Some(
                        if e == from {
                            to
                        } else if from < e && e <= to {
                            e - 1
                        } else if to <= e && e < from {
                            e + 1
                        } else {
                            e
                        },
                    );
                }
                self.dragging = Some(to);
            }
        }
    }

    fn end_drag(&mut self) -> (res: Reaction)
        ensures
            (final(self)@, res@) == drag_ended(old(self)@),
    {
        if self.dragging.is_none() {
            return quiet();
        }
        self.dragging = None;
        Reaction { saves: one_save(self.save_servers()), tasks: no_tasks() }
    }

    fn check_release(&mut self) -> (res: Reaction)
        ensures
            (final(self)@, res@) == release_check_started(old(self)@),
    {
        let checking = match &self.release {
            ReleaseStatus::Checking => true,
            _ => false,
        };
        if checking || self.self_updating {
            return quiet();
        }
        self.release = ReleaseStatus::Checking;
        just(Task::CheckRelease)
    }

    fn find_release(&mut self, tag: String, newer: bool) -> (res: Reaction)
        ensures
            (final(self)@, res@) == release_found(old(self)@, tag@, newer),
    {
        if !newer {
            self.release = ReleaseStatus::UpToDate;
            return quiet();
        }
        self.release = ReleaseStatus::Available(tag.clone());
        if self.auto_update && !self.self_updating && !holds(&self.last_auto_update, &tag) {
            self.self_updating = true;
            return just(Task::SelfUpdate(tag));
        }
        quiet()
    }

    fn finish_check(&mut self, result: Result<String, String>) -> (res: Reaction)
        ensures
            (final(self)@, res@) == release_checked(
                old(self)@,
                match result {
                    Ok(tag) => Ok(tag@),
                    Err(e) => Err(e@),
                },
            ),
    {
        match result {
            Ok(tag) => {
                let newer = version::is_newer(tag.as_str(), self.version.as_str());
                self.find_release(tag, newer)
            },
            Err(e) => {
                self.release = ReleaseStatus::Error(e);
                quiet()
            },
        }
    }

    fn set_auto_update(&mut self, on: bool) -> (res: Reaction)
        ensures
            (final(self)@, res@) == auto_update_set(old(self)@, on),
    {
        self.auto_update = on;
        let saves = one_save(Save::AutoUpdate(on));
        if on && !self.self_updating {
            if let ReleaseStatus::Available(tag) = &self.release {
                if !holds(&self.last_auto_update, tag) {
                    let tag = tag.clone();
                    self.self_updating = true;
                    return Reaction { saves, tasks: one_task(Task::SelfUpdate(tag)) };
                }
            }
        }
        Reaction { saves, tasks: no_tasks() }
    }

    fn start_self_update(&mut self, tag: String) -> (res: Reaction)
        ensures
            (final(self)@, res@) == self_update_started(old(self)@, tag@),
    {
        if self.self_updating {
            return quiet();
        }
        self.self_updating = true;
        just(Task::SelfUpdate(tag))
    }

    fn finish_self_update(&mut self, tag: String, result: Result<Launch, String>) -> (res:
        Reaction)
        ensures
            (final(self)@, res@) == self_updated(
                old(self)@,
                tag@,
                match result {
                    Ok(launch) => Ok(launch),
                    Err(e) => Err(e@),
                },
            ),
    {
        match result {
            Ok(launch) => {
                self.last_auto_update = Some(tag.clone());
                let task = match launch {
                    Launch::Panel => Task::Exit(1),
                    Launch::Standalone => Task::Relaunch,
                };
                Reaction { saves: one_save(Save::LastAutoUpdate(tag)), tasks: one_task(task) }
            },
            Err(e) => {
                self.self_updating = false;
                self.release = ReleaseStatus::Error(e);
                quiet()
            },
        }
    }

    fn fail_relaunch(&mut self, e: String)
        ensures
            final(self)@ == relaunch_failed(old(self)@, e@),
    {
        self.self_updating = false;
        self.release = ReleaseStatus::Error(
            "Updated, but relaunch failed: ".to_string().concat(e.as_str()),
        );
    }

    /// React to a message: change the state, and say what is to be persisted and done.
    pub fn update(&mut self, message: Message) -> (res: Reaction)
        ensures
            (final(self)@, res@) == reacted(old(self)@, message@),
            old(self)@.wf() ==> final(self)@.wf(),
    {
        proof {
            if self@.wf() {
                law_indices_stay_valid(self@, message@);
            }
        }
        match message {
            Message::TogglePopup(fresh) => self.toggle_popup(fresh),
            Message::CloseRequested(id) => self.request_close(id),
            Message::RefreshStatus => just(Task::RefreshStatus),
            Message::StatusChecked(result) => self.check_status(result),
            Message::SelectEntry(i) => self.select_entry(i),
            Message::SetCustom(on) => self.set_custom(on),
            Message::Applied(result) => self.finish_switch(result),
            Message::Followed(result) => self.finish_follow(result),
            Message::FlushCache => self.start_flush(),
            Message::Flushed(result) => self.finish_flush(result),
            Message::ToggleSettings => self.toggle_settings(),
            Message::EditName(s) => {
                self.edit_name = s;
                quiet()
            },
            Message::EditAddresses(s) => {
                self.edit_addresses = s;
                quiet()
            },
            Message::AddEntry => self.add_entry(),
            Message::RemoveEntry(i) => self.remove_entry(i),
            Message::EditEntry(i) => {
                self.edit_entry(i);
                quiet()
            },
            Message::CancelEdit => {
                self.empty_form();
                quiet()
            },
            Message::DragStart(i) => {
                self.start_drag(i);
                quiet()
            },
            Message::DragOver(to) => {
                self.drag_over(to);
                quiet()
            },
            Message::DragEnd => self.end_drag(),
            Message::CheckRelease => self.check_release(),
            Message::ReleaseChecked(result) => self.finish_check(result),
            Message::SetAutoUpdate(on) => self.set_auto_update(on),
            Message::SelfUpdate(tag) => self.start_self_update(tag),
            Message::SelfUpdated(tag, result) => self.finish_self_update(tag, result),
            Message::RelaunchFailed(e) => {
                self.fail_relaunch(e);
                quiet()
            },
        }
    }
}

/// What is found in a part of a list up to `n` is found in the list.
proof fn lemma_first_entry_extends(
    list: Seq<EntryView>,
    test: spec_fn(EntryView) -> bool,
    n: int,
)
    requires
        0 <= n <= list.len(),
        first_entry(list.take(n), test) is Some,
    ensures
        first_entry(list, test) == first_entry(list.take(n), test),
    decreases list.len() - n,
{
    if n < list.len() {
        assert(list.take(n + 1).drop_last() == list.take(n));
        lemma_first_entry_extends(list, test, n + 1);
    } else {
        assert(list.take(n) == list);
    }
}

} // verus!
