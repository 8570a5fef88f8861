//! What each message does, and what it leaves alone.

use vstd::prelude::*;

use crate::backend::StateView;
use crate::laws::entries::law_first_entry_is_first;
use crate::laws::shown::{forced, law_checkmark_is_on_the_first_match};
use crate::laws::versions::{law_greater_number_is_newer, written};
use crate::servers::{entries, parses_as_ip, same_list, EntryView};
use crate::text::{items, joined, trimmed};
use crate::update::{initial, moved, named, nothing, reacted, serving, started};
use crate::version::newer_version;
use crate::view::popup_of;
use crate::window::{
    Launch, MessageView, OverrideView, ReactionView, ReleaseView, SaveView, Saved, TaskView,
    WindowView,
};

verus! {

/// Picking an entry switches to its servers and makes it what the toggle comes back to; while a
/// switch is under way, or where there is no such entry, nothing happens.
pub proof fn law_picking_switches_to_the_entry(w: WindowView, i: usize)
    ensures
        ({
            let (next, reaction) = reacted(w, MessageView::SelectEntry(i));
            if !w.applying && i < w.servers.len() {
                &&& reaction.tasks == seq![TaskView::Apply(w.servers[i as int].addresses)]
                &&& reaction.saves == seq![SaveView::LastCustom(w.servers[i as int].name)]
                &&& next.last_custom == Some(w.servers[i as int].name)
                &&& next.applying
                &&& next.notice is None
            } else {
                next == w && reaction == nothing()
            }
        }),
{
}

/// Switching off returns to the router's servers.
pub proof fn law_off_returns_to_the_router(w: WindowView)
    requires
        !w.applying,
    ensures
        ({
            let (next, reaction) = reacted(w, MessageView::SetCustom(false));
            &&& reaction.tasks == seq![TaskView::Reset]
            &&& reaction.saves.len() == 0
            &&& next.applying
            &&& next.notice is None
            &&& next.followed is None
            &&& next.last_custom == w.last_custom
        }),
{
}

/// Switching on is picking an entry: the first that has the name of the one used last, or where
/// there is none, the first of all; without entries it asks for one.
pub proof fn law_on_picks_the_last_used_entry(w: WindowView, i: usize)
    requires
        !w.applying,
    ensures
        ({
            let on = reacted(w, MessageView::SetCustom(true));
            let last = |e: EntryView| w.last_custom == Some(e.name);
            &&& i < w.servers.len() && last(w.servers[i as int]) && (forall|j: int|
                0 <= j < i ==> !last(#[trigger] w.servers[j])) ==> on == reacted(
                w,
                MessageView::SelectEntry(i),
            )
            &&& w.servers.len() > 0 && (forall|j: int|
                0 <= j < w.servers.len() ==> !last(#[trigger] w.servers[j])) ==> on == reacted(
                w,
                MessageView::SelectEntry(0),
            )
            &&& w.servers.len() == 0 ==> on.1 == nothing() && on.0.notice == Some(
                (true, "Add a DNS server in Settings first"@),
            ) && !on.0.applying
        }),
{
    if let Some(name) = w.last_custom {
        let test = named(name);
        law_first_entry_is_first(w.servers, test);
        let last = |e: EntryView| w.last_custom == Some(e.name);
        assert forall|j: int| 0 <= j < w.servers.len() implies test(#[trigger] w.servers[j])
            == last(w.servers[j]) by {}
        if i < w.servers.len() && last(w.servers[i as int]) && (forall|j: int|
            0 <= j < i ==> !last(#[trigger] w.servers[j])) {
            assert(test(w.servers[i as int]));
            let k = crate::update::first_entry(w.servers, test)->0;
            assert(test(w.servers[k]));
            if k < i {
                assert(!last(w.servers[k]));
            }
        }
    }
}

/// While a switch is under way, the toggle does nothing.
pub proof fn law_toggle_waits_for_a_switch(w: WindowView, on: bool)
    requires
        w.applying,
    ensures
        reacted(w, MessageView::SetCustom(on)) == (w, nothing()),
{
}

/// A switch that ended is shown: the state that it came to and which way it went, or why it
/// failed, and then the state is read again.
pub proof fn law_outcome_of_a_switch_is_shown(w: WindowView, state: StateView, e: Seq<char>)
    ensures
        ({
            let (next, reaction) = reacted(w, MessageView::Applied(Ok(state)));
            &&& !next.applying
            &&& next.current == Some(state)
            &&& next.notice == Some(
                (
                    false,
                    if state.custom is Some {
                        "Switched — DNS cache flushed"@
                    } else {
                        "Back to router DNS — cache flushed"@
                    },
                ),
            )
            &&& reaction.saves.len() == 0
            &&& forall|k: int|
                0 <= k < reaction.tasks.len() ==> (
                #[trigger] reaction.tasks[k]) is ClearProfile
        }),
        ({
            let (next, reaction) = reacted(w, MessageView::Applied(Err(e)));
            &&& !next.applying
            &&& next.notice == Some((true, e))
            &&& next.current == w.current
            &&& next.followed == w.followed
            &&& reaction == (ReactionView {
                saves: Seq::empty(),
                tasks: seq![TaskView::RefreshStatus],
            })
        }),
{
}

/// What is then followed is what the state shows, on a network that is no tunnel; a profile is
/// cleaned exactly where the override left another connection and arrived.
pub proof fn law_landed_override_is_followed(w: WindowView, state: StateView, moved: bool)
    ensures
        ({
            let m = if moved {
                MessageView::Followed(Ok(state))
            } else {
                MessageView::Applied(Ok(state))
            };
            let (next, reaction) = reacted(w, m);
            &&& state.tunnel ==> next.followed == w.followed && reaction.tasks.len() == 0
            &&& !state.tunnel ==> match state.custom {
                Some(servers) => next.followed == Some(
                    OverrideView { connection: state.connection, servers },
                ) && reaction.tasks == (match w.followed {
                    Some(f) => if f.connection != state.connection {
                        seq![TaskView::ClearProfile(f.connection)]
                    } else {
                        Seq::<TaskView>::empty()
                    },
                    None => Seq::<TaskView>::empty(),
                }),
                None => next.followed is None && reaction.tasks.len() == 0,
            }
        }),
{
}

/// A move that ended is shown as a switch is, but for one that found a tunnel and did nothing;
/// one that failed is given up.
pub proof fn law_outcome_of_a_move_is_shown(w: WindowView, state: StateView, e: Seq<char>)
    ensures
        ({
            let (next, reaction) = reacted(w, MessageView::Followed(Ok(state)));
            &&& !next.applying
            &&& next.current == Some(state)
            &&& state.tunnel ==> next.notice == w.notice
            &&& !state.tunnel ==> (next, reaction) == reacted(w, MessageView::Applied(Ok(state)))
        }),
        ({
            let (next, reaction) = reacted(w, MessageView::Followed(Err(e)));
            &&& !next.applying
            &&& next.followed is None
            &&& next.notice == Some((true, e))
            &&& reaction.tasks == seq![TaskView::RefreshStatus]
        }),
{
}

/// A state that was read is shown; one that could not be is not, but the reason is.
pub proof fn law_read_state_is_shown(w: WindowView, state: StateView, e: Seq<char>)
    ensures
        reacted(w, MessageView::StatusChecked(Ok(state))).0.current == Some(state),
        reacted(w, MessageView::StatusChecked(Err(e))).0.current is None,
        reacted(w, MessageView::StatusChecked(Err(e))).0.notice == Some((true, e)),
        reacted(w, MessageView::StatusChecked(Err(e))).1 == nothing(),
        reacted(w, MessageView::RefreshStatus).0 == w,
        reacted(w, MessageView::RefreshStatus).1.tasks == seq![TaskView::RefreshStatus],
        reacted(w, MessageView::RefreshStatus).1.saves.len() == 0,
{
}

/// What is followed is what the state shows on the network that the device is on, unless the
/// override is on another; while a switch is under way, or on a tunnel, it stays what it was.
/// Nothing but a move clears the notice or starts a switch.
pub proof fn law_shown_override_is_followed(w: WindowView, state: StateView)
    ensures
        ({
            let (next, reaction) = reacted(w, MessageView::StatusChecked(Ok(state)));
            let elsewhere = w.followed matches Some(f) && f.connection != state.connection;
            if w.applying || state.tunnel {
                &&& next.followed == w.followed
                &&& next.applying == w.applying
                &&& next.notice == w.notice
                &&& reaction.tasks.len() == 0
            } else if elsewhere {
                &&& next.followed == w.followed
                &&& next.applying
                &&& next.notice is None
                &&& reaction.tasks == seq![TaskView::Follow(w.followed->0.servers)]
            } else {
                &&& match state.custom {
                    Some(servers) => next.followed == Some(
                        OverrideView { connection: state.connection, servers },
                    ),
                    None => next.followed is None,
                }
                &&& next.applying == w.applying
                &&& next.notice == w.notice
                &&& reaction.tasks.len() == 0
            }
        }),
{
}

/// Servers that are found forced on the first run, and that no entry has, become the first entry,
/// before the others, which stay as they were; it is persisted, checkmarked, and what the toggle
/// comes back to. Where an entry has them, in whatever order, or none are forced, the list stays.
pub proof fn law_found_servers_become_the_first_entry(w: WindowView, state: StateView)
    requires
        !w.imported_initial,
    ensures
        ({
            let (next, reaction) = reacted(w, MessageView::StatusChecked(Ok(state)));
            let known = state.custom matches Some(servers) ==> exists|i: int|
                0 <= i < w.servers.len() && same_list(
                    (#[trigger] w.servers[i]).addresses,
                    servers,
                );
            &&& next.imported_initial
            &&& reaction.saves.len() > 0 && reaction.saves[0] == SaveView::ImportedInitial(true)
            &&& known ==> next.servers == w.servers && next.last_custom == w.last_custom
                && reaction.saves.len() == 1
            &&& !known ==> {
                &&& next.servers.len() == w.servers.len() + 1
                &&& next.servers[0].addresses == state.custom->0
                &&& next.servers[0].name == "Imported ("@ + joined(state.custom->0, ", "@) + ")"@
                &&& forall|i: int|
                    0 <= i < w.servers.len() ==> next.servers[i + 1] == #[trigger] w.servers[i]
                &&& next.last_custom == Some(next.servers[0].name)
                &&& reaction.saves.len() == 2
                &&& reaction.saves[1] == SaveView::Servers(next.servers)
                &&& popup_of(next).rows[0].active
            }
        }),
{
    let next = reacted(w, MessageView::StatusChecked(Ok(state))).0;
    if let Some(servers) = state.custom {
        let test = serving(servers);
        law_first_entry_is_first(w.servers, test);
        assert forall|j: int| 0 <= j < w.servers.len() implies test(#[trigger] w.servers[j])
            == same_list(w.servers[j].addresses, servers) by {}
        if next.servers.len() > w.servers.len() {
            law_checkmark_is_on_the_first_match(next, 0);
        }
    }
}

/// A flush that the user asks for is started, shown and confirmed; one that fails shows why.
pub proof fn law_flush_is_confirmed(w: WindowView, e: Seq<char>)
    ensures
        !w.flushing ==> reacted(w, MessageView::FlushCache).1.tasks == seq![TaskView::Flush]
            && reacted(w, MessageView::FlushCache).0.flushing && reacted(
            w,
            MessageView::FlushCache,
        ).0.notice is None,
        w.flushing ==> reacted(w, MessageView::FlushCache) == (w, nothing()),
        !popup_of(reacted(w, MessageView::FlushCache).0).flush_confirmed || w.flushing,
        popup_of(reacted(w, MessageView::Flushed(Ok(()))).0).flush_confirmed,
        !popup_of(reacted(w, MessageView::Flushed(Err(e))).0).flush_confirmed,
        reacted(w, MessageView::Flushed(Err(e))).0.notice == Some((true, e)),
        !reacted(w, MessageView::Flushed(Ok(()))).0.flushing,
        !reacted(w, MessageView::Flushed(Err(e))).0.flushing,
        reacted(w, MessageView::Flushed(Ok(()))).1 == nothing(),
        reacted(w, MessageView::Flushed(Err(e))).1 == nothing(),
{
}

/// Whether the form can be saved: its name is not blank and no other entry has it, and its
/// addresses are there and every one reads as an address.
pub open spec fn form_is_complete(w: WindowView) -> bool {
    let list = items(w.edit_addresses, seq![',', ' ', ';']);
    &&& trimmed(w.edit_name).len() > 0
    &&& forall|i: int|
        0 <= i < w.servers.len() && (#[trigger] w.servers[i]).name == trimmed(w.edit_name)
            ==> w.editing == Some(i as usize)
    &&& list.len() > 0
    &&& forall|i: int| 0 <= i < list.len() ==> parses_as_ip(#[trigger] list[i])
}

/// Saving a complete form stores what it says, over the entry that is edited or behind all
/// others, leaves every other entry, persists the list and empties the form; one that is not
/// complete is left alone.
pub proof fn law_form_is_saved_as_it_says(w: WindowView)
    requires
        w.wf(),
    ensures
        ({
            let (next, reaction) = reacted(w, MessageView::AddEntry);
            let at = match w.editing {
                Some(i) => i as int,
                None => w.servers.len() as int,
            };
            if form_is_complete(w) {
                &&& next.servers.len() == if w.editing is Some {
                    w.servers.len()
                } else {
                    w.servers.len() + 1
                }
                &&& next.servers[at].name == trimmed(w.edit_name)
                &&& next.servers[at].addresses == items(w.edit_addresses, seq![',', ' ', ';'])
                &&& forall|i: int|
                    0 <= i < w.servers.len() && i != at ==> next.servers[i]
                        == #[trigger] w.servers[i]
                &&& next.editing is None
                &&& next.edit_name.len() == 0
                &&& next.edit_addresses.len() == 0
                &&& reaction.tasks.len() == 0
                &&& reaction.saves.last() == SaveView::Servers(next.servers)
            } else {
                next == w && reaction == nothing()
            }
        }),
{
}

/// The toggle follows a rename of the entry that it comes back to, and is left alone by any other
/// form that is saved.
pub proof fn law_saved_form_and_the_toggle(w: WindowView)
    requires
        w.wf(),
        form_is_complete(w),
    ensures
        ({
            let (next, reaction) = reacted(w, MessageView::AddEntry);
            let renamed = w.editing matches Some(i) && w.last_custom == Some(
                w.servers[i as int].name,
            );
            &&& renamed ==> next.last_custom == Some(trimmed(w.edit_name)) && reaction.saves.len()
                == 2 && reaction.saves[0] == SaveView::LastCustom(trimmed(w.edit_name))
            &&& !renamed ==> next.last_custom == w.last_custom && reaction.saves.len() == 1
        }),
{
}

/// Removing an entry leaves the others, in their order; the toggle forgets it, the form gives it
/// up, and no row is held.
pub proof fn law_removing_leaves_the_others(w: WindowView, k: usize)
    requires
        w.wf(),
    ensures
        ({
            let (next, reaction) = reacted(w, MessageView::RemoveEntry(k));
            if k < w.servers.len() {
                &&& next.servers.len() == w.servers.len() - 1
                &&& forall|i: int| 0 <= i < k ==> next.servers[i] == #[trigger] w.servers[i]
                &&& forall|i: int|
                    k < i < w.servers.len() ==> next.servers[i - 1] == #[trigger] w.servers[i]
                &&& reaction.saves == seq![SaveView::Servers(next.servers)]
                &&& reaction.tasks.len() == 0
                &&& next.dragging is None
                &&& next.last_custom == if w.last_custom == Some(w.servers[k as int].name) {
                    None
                } else {
                    w.last_custom
                }
                &&& w.editing == Some(k) ==> next.editing is None && next.edit_name.len() == 0
                    && next.edit_addresses.len() == 0
                &&& w.editing != Some(k) ==> next.edit_name == w.edit_name && next.edit_addresses
                    == w.edit_addresses && (w.editing is Some <==> next.editing is Some)
            } else {
                next == w && reaction == nothing()
            }
        }),
{
}

/// Loading an entry fills the form with it; typing changes what is typed into; cancelling empties
/// the form. Nothing else is done.
pub proof fn law_form_holds_what_was_put_in(w: WindowView, i: usize, s: Seq<char>)
    ensures
        ({
            let next = reacted(w, MessageView::EditEntry(i)).0;
            if i < w.servers.len() {
                &&& next.editing == Some(i)
                &&& next.edit_name == w.servers[i as int].name
                &&& next.edit_addresses == joined(w.servers[i as int].addresses, ", "@)
            } else {
                next == w
            }
        }),
        reacted(w, MessageView::EditName(s)).0 == (WindowView { edit_name: s, ..w }),
        reacted(w, MessageView::EditAddresses(s)).0 == (WindowView { edit_addresses: s, ..w }),
        ({
            let next = reacted(w, MessageView::CancelEdit).0;
            next.editing is None && next.edit_name.len() == 0 && next.edit_addresses.len() == 0
        }),
        reacted(w, MessageView::EditEntry(i)).1 == nothing(),
        reacted(w, MessageView::EditName(s)).1 == nothing(),
        reacted(w, MessageView::EditAddresses(s)).1 == nothing(),
        reacted(w, MessageView::CancelEdit).1 == nothing(),
{
}

/// A row is taken hold of, goes where it is dragged, with the others in their order, and stays
/// there, persisted, when it is let go.
pub proof fn law_row_goes_where_it_is_dragged(w: WindowView, from: usize, to: usize)
    requires
        from < w.servers.len(),
        to < w.servers.len(),
    ensures
        ({
            let held = reacted(w, MessageView::DragStart(from)).0;
            let over = reacted(held, MessageView::DragOver(to)).0;
            let (next, reaction) = reacted(over, MessageView::DragEnd);
            &&& held == (WindowView { dragging: Some(from), ..w })
            &&& over.dragging == Some(to)
            &&& over.servers.len() == w.servers.len()
            &&& over.servers[to as int] == w.servers[from as int]
            &&& over.servers.remove(to as int) == w.servers.remove(from as int)
            &&& next == (WindowView { dragging: None, ..over })
            &&& reaction.saves == seq![SaveView::Servers(over.servers)]
            &&& reaction.tasks.len() == 0
        }),
        reacted(w, MessageView::DragStart(from)).1 == nothing(),
{
    let held = reacted(w, MessageView::DragStart(from)).0;
    let over = reacted(held, MessageView::DragOver(to)).0;
    if from != to {
        assert(over.servers == moved(w.servers, from as int, to as int));
    }
    assert(over.servers.remove(to as int) =~= w.servers.remove(from as int));
}

/// Where no row is held, dragging and letting go do nothing; a row that is not there cannot be
/// held.
pub proof fn law_nothing_is_dragged_unless_held(w: WindowView, i: usize)
    ensures
        w.dragging is None ==> reacted(w, MessageView::DragOver(i)) == (w, nothing()),
        w.dragging is None ==> reacted(w, MessageView::DragEnd) == (w, nothing()),
        i >= w.servers.len() ==> reacted(w, MessageView::DragStart(i)) == (w, nothing()),
        i >= w.servers.len() ==> reacted(w, MessageView::DragOver(i)) == (w, nothing()),
        reacted(w, MessageView::DragOver(i)).1 == nothing(),
{
}

/// A release that was found is offered exactly if it is newer than the applet, and then installed
/// by itself exactly if the user lets it, none is being installed, and it was not installed by
/// itself before. A check that failed shows why.
pub proof fn law_newer_release_is_offered(w: WindowView, tag: Seq<char>, e: Seq<char>)
    ensures
        ({
            let (next, reaction) = reacted(w, MessageView::ReleaseChecked(Ok(tag)));
            let newer = newer_version(tag, w.version);
            let installs = newer && w.auto_update && !w.self_updating && w.last_auto_update != Some(
                tag,
            );
            &&& next.release == if newer {
                ReleaseView::Available(tag)
            } else {
                ReleaseView::UpToDate
            }
            &&& installs ==> reaction.tasks == seq![TaskView::SelfUpdate(tag)] && next.self_updating
            &&& !installs ==> reaction.tasks.len() == 0 && next.self_updating == w.self_updating
            &&& reaction.saves.len() == 0
        }),
        ({
            let (next, reaction) = reacted(w, MessageView::ReleaseChecked(Err(e)));
            next == (WindowView { release: ReleaseView::Error(e), ..w }) && reaction == nothing()
        }),
{
}

/// A release whose version is greater than that of the applet is offered, one whose version is
/// less or the same is not.
pub proof fn law_greater_release_is_offered(
    w: WindowView,
    greater: Seq<u64>,
    less: Seq<u64>,
    i: int,
)
    requires
        0 <= i < greater.len(),
        i < less.len(),
        greater.take(i) == less.take(i),
        greater[i] > less[i],
    ensures
        w.version == written(less) ==> reacted(
            w,
            MessageView::ReleaseChecked(Ok("v"@ + written(greater))),
        ).0.release == ReleaseView::Available("v"@ + written(greater)),
        w.version == written(greater) ==> reacted(
            w,
            MessageView::ReleaseChecked(Ok("v"@ + written(less))),
        ).0.release is UpToDate,
        w.version == written(greater) ==> reacted(
            w,
            MessageView::ReleaseChecked(Ok("v"@ + written(greater))),
        ).0.release is UpToDate,
{
    law_greater_number_is_newer(greater, less, i, Seq::empty());
}

/// The latest release is looked for when the user asks, unless that or an update is under way.
pub proof fn law_release_is_looked_for(w: WindowView)
    ensures
        ({
            let (next, reaction) = reacted(w, MessageView::CheckRelease);
            if w.release is Checking || w.self_updating {
                next == w && reaction == nothing()
            } else {
                next == (WindowView { release: ReleaseView::Checking, ..w }) && reaction
                    == (ReactionView { saves: Seq::empty(), tasks: seq![TaskView::CheckRelease] })
            }
        }),
{
}

/// The choice about automatic updates is kept and persisted; switching them on installs a release
/// that is on offer, unless one is being installed or it was installed by itself before.
pub proof fn law_auto_update_is_chosen(w: WindowView, on: bool)
    ensures
        ({
            let (next, reaction) = reacted(w, MessageView::SetAutoUpdate(on));
            &&& next.auto_update == on
            &&& reaction.saves == seq![SaveView::AutoUpdate(on)]
            &&& next.release == w.release
            &&& match w.release {
                ReleaseView::Available(tag) => if on && !w.self_updating && w.last_auto_update
                    != Some(tag) {
                    next.self_updating && reaction.tasks == seq![TaskView::SelfUpdate(tag)]
                } else {
                    next.self_updating == w.self_updating && reaction.tasks.len() == 0
                },
                _ => next.self_updating == w.self_updating && reaction.tasks.len() == 0,
            }
        }),
{
}

/// An update that the user asks for is started unless one is under way; one that was installed is
/// recorded and takes over, under the panel by an exit that makes the panel start it again; one
/// that failed shows why and can be tried again.
pub proof fn law_update_takes_over(w: WindowView, tag: Seq<char>, e: Seq<char>)
    ensures
        w.self_updating ==> reacted(w, MessageView::SelfUpdate(tag)) == (w, nothing()),
        !w.self_updating ==> reacted(w, MessageView::SelfUpdate(tag)) == (
            WindowView { self_updating: true, ..w },
            ReactionView { saves: Seq::empty(), tasks: seq![TaskView::SelfUpdate(tag)] },
        ),
        ({
            let panel = reacted(w, MessageView::SelfUpdated(tag, Ok(Launch::Panel)));
            let alone = reacted(w, MessageView::SelfUpdated(tag, Ok(Launch::Standalone)));
            &&& panel.0 == (WindowView { last_auto_update: Some(tag), ..w })
            &&& alone.0 == panel.0
            &&& panel.1.saves == seq![SaveView::LastAutoUpdate(tag)]
            &&& alone.1.saves == panel.1.saves
            &&& panel.1.tasks.len() == 1 && (panel.1.tasks[0] matches TaskView::Exit(code) && code
                != 0)
            &&& alone.1.tasks == seq![TaskView::Relaunch]
        }),
        ({
            let (next, reaction) = reacted(w, MessageView::SelfUpdated(tag, Err(e)));
            next == (WindowView { self_updating: false, release: ReleaseView::Error(e), ..w })
                && reaction == nothing()
        }),
        ({
            let (next, reaction) = reacted(w, MessageView::RelaunchFailed(e));
            &&& !next.self_updating
            &&& next.release == ReleaseView::Error("Updated, but relaunch failed: "@ + e)
            &&& reaction == nothing()
        }),
{
}

/// The popup opens and closes by turns, under the number that it was given, and the state is read
/// each time it opens; closing it from outside closes that popup and no other.
pub proof fn law_popup_opens_and_closes(w: WindowView, fresh: u64)
    ensures
        ({
            let (next, reaction) = reacted(w, MessageView::TogglePopup(fresh));
            match w.popup {
                Some(id) => next.popup is None && reaction.tasks == seq![TaskView::ClosePopup(id)],
                None => next == (WindowView { popup: Some(fresh), ..w }) && reaction.tasks == seq![
                    TaskView::OpenPopup(fresh),
                    TaskView::RefreshStatus,
                ],
            }
        }),
        reacted(w, MessageView::TogglePopup(fresh)).1.saves.len() == 0,
        w.popup == Some(fresh) ==> reacted(w, MessageView::CloseRequested(fresh)).0.popup is None,
        w.popup != Some(fresh) ==> reacted(w, MessageView::CloseRequested(fresh)).0 == w,
        reacted(w, MessageView::CloseRequested(fresh)).1 == nothing(),
{
}

/// The settings open and close by turns. Opening them looks for a release unless that is under
/// way; closing them gives up the form and the held row.
pub proof fn law_settings_open_and_close(w: WindowView)
    ensures
        ({
            let (next, reaction) = reacted(w, MessageView::ToggleSettings);
            &&& next.show_settings == !w.show_settings
            &&& reaction.saves.len() == 0
            &&& w.show_settings ==> next.editing is None && next.edit_name.len() == 0
                && next.edit_addresses.len() == 0 && next.dragging is None && reaction.tasks.len()
                == 0 && next.release == w.release
            &&& !w.show_settings ==> next.release is Checking && reaction.tasks == (
            if w.release is Checking {
                Seq::<TaskView>::empty()
            } else {
                seq![TaskView::CheckRelease]
            }) && next.editing == w.editing && next.edit_name == w.edit_name && next.edit_addresses
                == w.edit_addresses && next.dragging == w.dragging
        }),
{
}

/// Whether the popup, the settings being open, and what is about releases are the same.
spec fn same_rest(a: WindowView, b: WindowView) -> bool {
    &&& a.version == b.version
    &&& a.popup == b.popup
    &&& a.show_settings == b.show_settings
    &&& a.auto_update == b.auto_update
    &&& a.release == b.release
    &&& a.self_updating == b.self_updating
}

/// Whether what is about the network is the same.
spec fn same_network(a: WindowView, b: WindowView) -> bool {
    &&& a.current == b.current
    &&& a.followed == b.followed
    &&& a.applying == b.applying
    &&& a.notice == b.notice
}

/// Whether the list and what the toggle comes back to are the same.
spec fn same_entries(a: WindowView, b: WindowView) -> bool {
    &&& a.servers == b.servers
    &&& a.last_custom == b.last_custom
    &&& a.imported_initial == b.imported_initial
}

/// Whether a message is about the network.
spec fn about_network(m: MessageView) -> bool {
    m is StatusChecked || m is SelectEntry || m is SetCustom || m is Applied || m is Followed
}

/// Whether a message is about the entries.
spec fn about_entries(m: MessageView) -> bool {
    m is AddEntry || m is RemoveEntry || m is EditEntry || m is DragStart || m is DragOver || m
        is DragEnd || m is EditName || m is EditAddresses || m is CancelEdit
}

proof fn lemma_network_frame(w: WindowView, m: MessageView)
    requires
        about_network(m),
    ensures
        same_rest(w, reacted(w, m).0),
        reacted(w, m).0.flushing == w.flushing,
        m is Applied || m is Followed ==> same_entries(w, reacted(w, m).0),
        !(m is StatusChecked) ==> reacted(w, m).0.servers == w.servers && reacted(
            w,
            m,
        ).0.imported_initial == w.imported_initial,
        m is SelectEntry ==> reacted(w, m).0.current == w.current && reacted(w, m).0.followed
            == w.followed,
        m is SetCustom ==> reacted(w, m).0.current == w.current,
{
    match m {
        MessageView::StatusChecked(_) => {},
        MessageView::SelectEntry(_) => {},
        MessageView::SetCustom(_) => {},
        MessageView::Applied(_) => {},
        MessageView::Followed(_) => {},
        _ => {},
    }
}

proof fn lemma_entries_frame(w: WindowView, m: MessageView)
    requires
        about_entries(m),
    ensures
        same_rest(w, reacted(w, m).0),
        same_network(w, reacted(w, m).0),
        reacted(w, m).0.flushing == w.flushing,
        reacted(w, m).0.imported_initial == w.imported_initial,
        !(m is AddEntry || m is RemoveEntry || m is DragOver) ==> same_entries(
            w,
            reacted(w, m).0,
        ),
        m is DragOver ==> reacted(w, m).0.last_custom == w.last_custom,
{
    match m {
        MessageView::AddEntry => {},
        MessageView::RemoveEntry(_) => {},
        MessageView::DragOver(_) => {},
        _ => {},
    }
}

proof fn lemma_other_frame(w: WindowView, m: MessageView)
    requires
        !about_network(m),
        !about_entries(m),
    ensures
        same_entries(w, reacted(w, m).0),
        reacted(w, m).0.version == w.version,
        !(m is FlushCache || m is Flushed) ==> same_network(w, reacted(w, m).0)
            && reacted(w, m).0.flushing == w.flushing,
        m is FlushCache || m is Flushed ==> same_rest(w, reacted(w, m).0) && reacted(w, m).0.current
            == w.current && reacted(w, m).0.followed == w.followed && reacted(w, m).0.applying
            == w.applying,
{
}

/// The list of entries changes only by the form, by removing, by dragging and by the import.
pub proof fn law_only_these_change_the_list(w: WindowView, m: MessageView)
    ensures
        !(m is AddEntry || m is RemoveEntry || m is DragOver || m is StatusChecked) ==> reacted(
            w,
            m,
        ).0.servers == w.servers,
        !(m is SelectEntry || m is SetCustom || m is AddEntry || m is RemoveEntry || m
            is StatusChecked) ==> reacted(w, m).0.last_custom == w.last_custom,
        !(m is StatusChecked) ==> reacted(w, m).0.imported_initial == w.imported_initial,
{
    if about_network(m) {
        lemma_network_frame(w, m);
    } else if about_entries(m) {
        lemma_entries_frame(w, m);
    } else {
        lemma_other_frame(w, m);
    }
}

/// The form and the held row change only by what is done in the settings, and by the import.
pub proof fn law_only_these_change_the_form(w: WindowView, m: MessageView)
    ensures
        !(m is EditName || m is EditEntry || m is CancelEdit || m is AddEntry || m is RemoveEntry || m
            is ToggleSettings) ==> reacted(w, m).0.edit_name == w.edit_name,
        !(m is EditAddresses || m is EditEntry || m is CancelEdit || m is AddEntry || m
            is RemoveEntry || m is ToggleSettings) ==> reacted(w, m).0.edit_addresses
            == w.edit_addresses,
        !(m is EditEntry || m is CancelEdit || m is AddEntry || m is RemoveEntry || m
            is ToggleSettings || m is DragOver || m is StatusChecked) ==> reacted(w, m).0.editing
            == w.editing,
        !(m is DragStart || m is DragOver || m is DragEnd || m is RemoveEntry || m is ToggleSettings
            || m is StatusChecked) ==> reacted(w, m).0.dragging == w.dragging,
{
    match m {
        MessageView::SelectEntry(_) => {},
        MessageView::SetCustom(_) => {},
        MessageView::Applied(_) => {},
        MessageView::Followed(_) => {},
        MessageView::StatusChecked(_) => {},
        _ => {},
    }
}

/// What is known and done about the network changes only by reading it and by switches.
pub proof fn law_only_these_change_the_network(w: WindowView, m: MessageView)
    ensures
        !(m is StatusChecked || m is Applied || m is Followed) ==> reacted(w, m).0.current
            == w.current,
        !(m is StatusChecked || m is Applied || m is Followed || m is SetCustom) ==> reacted(
            w,
            m,
        ).0.followed == w.followed,
        !(m is StatusChecked || m is Applied || m is Followed || m is SetCustom || m is SelectEntry)
            ==> reacted(w, m).0.applying == w.applying,
        !(m is StatusChecked || m is Applied || m is Followed || m is SetCustom || m is SelectEntry
            || m is FlushCache || m is Flushed) ==> reacted(w, m).0.notice == w.notice,
        !(m is FlushCache || m is Flushed) ==> reacted(w, m).0.flushing == w.flushing,
{
    if about_network(m) {
        lemma_network_frame(w, m);
    } else if about_entries(m) {
        lemma_entries_frame(w, m);
    } else {
        lemma_other_frame(w, m);
    }
}

/// The popup and what is known and done about releases change only by their own messages, and the
/// version never does.
pub proof fn law_only_these_change_the_rest(w: WindowView, m: MessageView)
    ensures
        reacted(w, m).0.version == w.version,
        !(m is TogglePopup || m is CloseRequested) ==> reacted(w, m).0.popup == w.popup,
        !(m is TogglePopup || m is CloseRequested || m is ToggleSettings) ==> reacted(
            w,
            m,
        ).0.show_settings == w.show_settings,
        !(m is SetAutoUpdate) ==> reacted(w, m).0.auto_update == w.auto_update,
        !(m is ToggleSettings || m is CheckRelease || m is ReleaseChecked || m is SelfUpdated || m
            is RelaunchFailed) ==> reacted(w, m).0.release == w.release,
        !(m is ReleaseChecked || m is SetAutoUpdate || m is SelfUpdate || m is SelfUpdated || m
            is RelaunchFailed) ==> reacted(w, m).0.self_updating == w.self_updating,
{
    if about_network(m) {
        lemma_network_frame(w, m);
    } else if about_entries(m) {
        lemma_entries_frame(w, m);
    } else {
        lemma_other_frame(w, m);
        match m {
            MessageView::TogglePopup(_) => {},
            MessageView::CloseRequested(_) => {},
            MessageView::ToggleSettings => {},
            MessageView::ReleaseChecked(_) => {},
            MessageView::SetAutoUpdate(_) => {},
            _ => {},
        }
    }
}

/// What was persisted comes back at the next start; what never was starts as on the first run:
/// with three entries, nothing to come back to, the import to be made, and automatic updates on.
/// The list is persisted, the state read and the latest release looked for.
pub proof fn law_start_takes_up_what_was_saved(saved: Saved, version: Seq<char>)
    ensures
        ({
            let reaction = started(initial(saved, version));
            &&& reaction.saves == seq![SaveView::Servers(initial(saved, version).servers)]
            &&& reaction.tasks == seq![TaskView::RefreshStatus, TaskView::CheckRelease]
        }),
        ({
            let w = initial(saved, version);
            &&& w.version == version
            &&& saved.servers matches Some(list) ==> w.servers == entries(list@)
            &&& saved.servers is None ==> w.servers.len() == 3 && w.servers[0].name == "Cloudflare"@
                && w.servers[1].name == "Google"@ && w.servers[2].name == "Quad9"@
                && w.servers[0].addresses == seq!["1.1.1.1"@, "1.0.0.1"@]
                && w.servers[1].addresses == seq!["8.8.8.8"@, "8.8.4.4"@]
                && w.servers[2].addresses == seq!["9.9.9.9"@, "149.112.112.112"@]
            &&& saved.last_custom matches Some(name) ==> (name@.len() > 0 ==> w.last_custom == Some(
                name@,
            ))
            &&& saved.last_custom matches Some(name) ==> (name@.len() == 0 ==> w.last_custom is None)
            &&& saved.last_custom is None ==> w.last_custom is None
            &&& saved.imported_initial matches Some(done) ==> w.imported_initial == done
            &&& saved.imported_initial is None ==> !w.imported_initial
            &&& saved.auto_update matches Some(on) ==> w.auto_update == on
            &&& saved.auto_update is None ==> w.auto_update
            &&& saved.last_auto_update matches Some(tag) ==> (tag@.len() > 0 ==> w.last_auto_update
                == Some(tag@))
            &&& saved.last_auto_update matches Some(tag) ==> (tag@.len() == 0 ==> w.last_auto_update
                is None)
            &&& saved.last_auto_update is None ==> w.last_auto_update is None
        }),
        ({
            let w = initial(saved, version);
            &&& w.popup is None && !w.show_settings && !w.applying && !w.flushing
                && !w.self_updating
            &&& w.current is None && w.followed is None && w.notice is None && forced(w) is None
            &&& w.editing is None && w.dragging is None && w.edit_name.len() == 0
                && w.edit_addresses.len() == 0
            &&& w.release is Unknown
        }),
{
}

} // verus!
