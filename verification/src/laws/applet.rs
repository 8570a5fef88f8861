//! What holds of the applet through every message.

use vstd::prelude::*;

use crate::update::{nothing, reacted};
use crate::view::{popup_of, settings_of};
use crate::window::{MessageView, SaveView, TaskView, WindowView};

verus! {

/// The form and the drag always point into the list.
pub proof fn law_indices_stay_valid(w: WindowView, m: MessageView)
    requires
        w.wf(),
    ensures
        reacted(w, m).0.wf(),
{
    let next = reacted(w, m).0;
    match m {
        MessageView::StatusChecked(_) => {
            assert(next.servers.len() > w.servers.len() || next.editing == w.editing
                && next.dragging == w.dragging && next.servers == w.servers);
        },
        MessageView::AddEntry => {
            assert(next.servers.len() >= w.servers.len());
        },
        MessageView::RemoveEntry(i) => {
            if i < w.servers.len() {
                assert(next.servers.len() == w.servers.len() - 1);
            }
        },
        MessageView::DragOver(to) => {
            assert(next.servers.len() == w.servers.len());
        },
        MessageView::EditEntry(_) => {},
        MessageView::DragStart(_) => {},
        _ => {
            assert(next.servers == w.servers);
            assert(next.editing == w.editing || next.editing is None);
            assert(next.dragging == w.dragging || next.dragging is None);
        },
    }
}

/// Whether a task changes the DNS of the device.
pub open spec fn is_switch(task: TaskView) -> bool {
    task is Apply || task is Reset || task is Follow
}

/// Switches never overlap: one starts only while none is under way, and is then under way
/// until it is reported to have ended.
pub proof fn law_one_switch_at_a_time(w: WindowView, m: MessageView)
    ensures
        ({
            let (next, reaction) = reacted(w, m);
            let starts = exists|i: int|
                0 <= i < reaction.tasks.len() && is_switch(#[trigger] reaction.tasks[i]);
            &&& starts ==> !w.applying && next.applying && reaction.tasks.len() == 1
            &&& !starts ==> (next.applying ==> w.applying)
            &&& w.applying && !next.applying ==> m is Applied || m is Followed
        }),
{
    let tasks = reacted(w, m).1.tasks;
    match m {
        MessageView::StatusChecked(_) => {
            assert(tasks.len() <= 1);
            if tasks.len() == 1 {
                assert(is_switch(tasks[0]));
            }
        },
        MessageView::SelectEntry(_) => {
            if tasks.len() == 1 {
                assert(is_switch(tasks[0]));
            }
        },
        MessageView::SetCustom(on) => {
            if tasks.len() == 1 {
                assert(is_switch(tasks[0]));
            }
        },
        MessageView::Applied(_) => {
            assert(forall|i: int| 0 <= i < tasks.len() ==> !is_switch(#[trigger] tasks[i]));
        },
        MessageView::Followed(_) => {
            assert(forall|i: int| 0 <= i < tasks.len() ==> !is_switch(#[trigger] tasks[i]));
        },
        _ => {
            if about_entries(m) {
                lemma_entries_start_no_switch(w, m);
            } else {
                lemma_others_start_no_switch(w, m);
            }
        },
    }
}

proof fn lemma_entries_start_no_switch(w: WindowView, m: MessageView)
    requires
        about_entries(m),
    ensures
        reacted(w, m).1.tasks.len() == 0,
        reacted(w, m).0.applying == w.applying,
{
}

proof fn lemma_others_start_no_switch(w: WindowView, m: MessageView)
    requires
        !about_network(m),
        !about_entries(m),
    ensures
        forall|i: int|
            0 <= i < reacted(w, m).1.tasks.len() ==> !is_switch(
                #[trigger] reacted(w, m).1.tasks[i],
            ),
        reacted(w, m).0.applying == w.applying,
{
}

/// Flushes never overlap.
pub proof fn law_one_flush_at_a_time(w: WindowView, m: MessageView)
    ensures
        ({
            let (next, reaction) = reacted(w, m);
            &&& reaction.tasks.contains(TaskView::Flush) ==> !w.flushing && next.flushing
            &&& w.flushing && !next.flushing ==> m is Flushed
        }),
{
    if about_network(m) {
        lemma_network_keeps_flush(w, m);
    } else if about_entries(m) {
        lemma_entries_keep_flush(w, m);
    }
}

/// Updates never overlap, and none starts by itself unless the user lets them.
pub proof fn law_one_update_at_a_time(w: WindowView, m: MessageView, tag: Seq<char>)
    requires
        reacted(w, m).1.tasks.contains(TaskView::SelfUpdate(tag)),
    ensures
        !w.self_updating,
        reacted(w, m).0.self_updating,
        m == MessageView::SelfUpdate(tag) || reacted(w, m).0.auto_update,
{
}

/// A release is installed by itself only once: what was recorded as installed is not started
/// again but by the user's own request.
pub proof fn law_no_update_loop(w: WindowView, m: MessageView, tag: Seq<char>)
    requires
        w.last_auto_update == Some(tag),
        m != MessageView::SelfUpdate(tag),
    ensures
        !reacted(w, m).1.tasks.contains(TaskView::SelfUpdate(tag)),
{
}

/// Whether a message is about the network and its servers.
spec fn about_network(m: MessageView) -> bool {
    m is StatusChecked || m is SelectEntry || m is SetCustom || m is Applied || m is Followed
}

/// Whether a message changes the list of entries or the form.
spec fn about_entries(m: MessageView) -> bool {
    m is AddEntry || m is RemoveEntry || m is EditEntry || m is DragOver
}

proof fn lemma_network_keeps_tag(w: WindowView, m: MessageView)
    requires
        about_network(m),
    ensures
        reacted(w, m).0.last_auto_update == w.last_auto_update,
{
}

proof fn lemma_entries_keep_tag(w: WindowView, m: MessageView)
    requires
        about_entries(m),
    ensures
        reacted(w, m).0.last_auto_update == w.last_auto_update,
{
}

proof fn lemma_network_keeps_flush(w: WindowView, m: MessageView)
    requires
        about_network(m),
    ensures
        reacted(w, m).0.flushing == w.flushing,
        !reacted(w, m).1.tasks.contains(TaskView::Flush),
{
}

proof fn lemma_entries_keep_flush(w: WindowView, m: MessageView)
    requires
        about_entries(m),
    ensures
        reacted(w, m).0.flushing == w.flushing,
        !reacted(w, m).1.tasks.contains(TaskView::Flush),
{
}

/// What was recorded as installed stays recorded until another release is installed.
pub proof fn law_installed_tag_is_kept(w: WindowView, m: MessageView)
    ensures
        m matches MessageView::SelfUpdated(tag, Ok(_)) ==> reacted(w, m).0.last_auto_update == Some(
            tag,
        ),
        !(m matches MessageView::SelfUpdated(_, Ok(_))) ==> reacted(w, m).0.last_auto_update
            == w.last_auto_update,
{
    if about_network(m) {
        lemma_network_keeps_tag(w, m);
    } else if about_entries(m) {
        lemma_entries_keep_tag(w, m);
    }
}

/// Every change of the server list is persisted, at once or, while a row is held, when it is
/// let go.
pub proof fn law_list_is_persisted(w: WindowView, m: MessageView)
    ensures
        ({
            let (next, reaction) = reacted(w, m);
            next.servers == w.servers || reaction.saves.contains(SaveView::Servers(next.servers))
                || (m is DragOver && next.dragging is Some)
        }),
        m is DragEnd && w.dragging is Some ==> reacted(w, m).1.saves.contains(
            SaveView::Servers(w.servers),
        ),
{
    let (next, reaction) = reacted(w, m);
    if reaction.saves.len() > 0 {
        assert(reaction.saves.contains(reaction.saves[0]));
        assert(reaction.saves.contains(reaction.saves.last()));
    }
}

/// Servers found on the device are imported once: after that, reading the state never changes
/// the list, so an imported entry that was deleted does not come back.
pub proof fn law_import_happens_once(w: WindowView, m: MessageView)
    ensures
        w.imported_initial ==> reacted(w, m).0.imported_initial,
        w.imported_initial && m is StatusChecked ==> reacted(w, m).0.servers == w.servers,
        m matches MessageView::StatusChecked(Ok(_)) ==> reacted(w, m).0.imported_initial,
{
}

/// Closing the popup, from either side, returns to the main view.
pub proof fn law_popup_reopens_on_main_view(w: WindowView, m: MessageView)
    requires
        w.popup is Some,
        reacted(w, m).0.popup is None,
    ensures
        !reacted(w, m).0.show_settings,
{
    match m {
        MessageView::TogglePopup(_) => {},
        MessageView::CloseRequested(_) => {},
        MessageView::StatusChecked(_) => {},
        MessageView::AddEntry => {},
        MessageView::RemoveEntry(_) => {},
        _ => {},
    }
}

/// The settings show nowhere but in the open popup, as long as they are only opened there.
pub proof fn law_settings_show_only_in_popup(w: WindowView, m: MessageView)
    requires
        w.popup is None ==> !w.show_settings,
        m is ToggleSettings ==> w.popup is Some,
    ensures
        reacted(w, m).0.popup is None ==> !reacted(w, m).0.show_settings,
{
    let next = reacted(w, m).0;
    match m {
        MessageView::TogglePopup(_) => {},
        MessageView::CloseRequested(_) => {},
        MessageView::ToggleSettings => {
            assert(next.popup == w.popup);
        },
        _ => {
            assert(next.popup == w.popup && next.show_settings == w.show_settings);
        },
    }
}

/// The button of the form is on offer exactly when pressing it saves an entry.
pub proof fn law_submit_is_offered_when_accepted(w: WindowView)
    ensures
        settings_of(w).can_submit <==> reacted(w, MessageView::AddEntry).1.saves.len() > 0,
        !settings_of(w).can_submit ==> reacted(w, MessageView::AddEntry) == (w, nothing()),
{
}

/// The other buttons too are on offer exactly when pressing them does something.
pub proof fn law_buttons_are_offered_when_of_use(w: WindowView, i: usize)
    requires
        i < w.servers.len(),
    ensures
        popup_of(w).can_switch <==> reacted(w, MessageView::SelectEntry(i)).1.tasks.len() > 0,
        popup_of(w).can_flush <==> reacted(w, MessageView::FlushCache).1.tasks.len() > 0,
        settings_of(w).can_check <==> reacted(w, MessageView::CheckRelease).1.tasks.len() > 0,
        settings_of(w).update_now matches Some(tag) ==> reacted(
            w,
            MessageView::SelfUpdate(tag),
        ).1.tasks == seq![TaskView::SelfUpdate(tag)],
{
}

} // verus!
