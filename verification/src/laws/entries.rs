//! What holds of the saved entries as they are used, edited and moved.

use vstd::prelude::*;

use crate::backend::StateView;
use crate::laws::addresses::{
    law_accepted_addresses_are_readable, law_readable_addresses_read_back, readable_addresses,
};
use crate::servers::{same_list, EntryView};
use crate::text::{trim_end, trim_start, trimmed, white};
use crate::update::{
    behind_new_first, first_entry, form_entry, imported_entry, moved, moved_index, name_taken,
    named, reacted, serving, toggle_target,
};
use crate::view::{active_entry, custom_on, popup_of};
use crate::window::{MessageView, SaveView, TaskView, WindowView};

verus! {

/// What is found is the first entry that passes the test; nothing is found where none passes.
pub proof fn law_first_entry_is_first(list: Seq<EntryView>, test: spec_fn(EntryView) -> bool)
    ensures
        match first_entry(list, test) {
            Some(i) => 0 <= i < list.len() && test(list[i]) && forall|j: int|
                0 <= j < i ==> !test(#[trigger] list[j]),
            None => forall|j: int| 0 <= j < list.len() ==> !test(#[trigger] list[j]),
        },
    decreases list.len(),
{
    if list.len() > 0 {
        let front = list.drop_last();
        law_first_entry_is_first(front, test);
        assert(forall|j: int| 0 <= j < front.len() ==> front[j] == #[trigger] list[j]);
    }
}

proof fn lemma_found_by_name(w: WindowView, i: int)
    requires
        w.unique_names(),
        0 <= i < w.servers.len(),
    ensures
        first_entry(w.servers, named(w.servers[i].name)) == Some(i),
{
    let test = named(w.servers[i].name);
    law_first_entry_is_first(w.servers, test);
    assert(test(w.servers[i]));
    let k = first_entry(w.servers, test)->0;
    assert(w.servers[k].name == w.servers[i].name);
}

/// The toggle comes back to the entry that was picked: once a switch to it ended, however it
/// did, switching off returns to the router's servers, and switching on again applies that
/// entry again.
pub proof fn law_toggle_returns_to_selected(
    w: WindowView,
    i: usize,
    picked: Result<StateView, Seq<char>>,
    released: Result<StateView, Seq<char>>,
)
    requires
        !w.applying,
        w.unique_names(),
        i < w.servers.len(),
    ensures
        ({
            let w1 = reacted(w, MessageView::SelectEntry(i)).0;
            let w2 = reacted(w1, MessageView::Applied(picked)).0;
            let off = reacted(w2, MessageView::SetCustom(false));
            let w3 = reacted(off.0, MessageView::Applied(released)).0;
            let on = reacted(w3, MessageView::SetCustom(true));
            &&& off.1.tasks == seq![TaskView::Reset]
            &&& on.1.tasks == seq![TaskView::Apply(w.servers[i as int].addresses)]
        }),
{
    lemma_found_by_name(w, i as int);
    let w1 = reacted(w, MessageView::SelectEntry(i)).0;
    let w2 = reacted(w1, MessageView::Applied(picked)).0;
    assert(w2.servers == w.servers && !w2.applying);
    assert(w2.last_custom == Some(w.servers[i as int].name));
    let off = reacted(w2, MessageView::SetCustom(false));
    let w3 = reacted(off.0, MessageView::Applied(released)).0;
    assert(w3.servers == w.servers && !w3.applying);
    assert(w3.last_custom == w2.last_custom);
    assert(toggle_target(w3) == Some(i as int));
}

/// A rename follows through to the toggle: where the entry being edited is the one that the
/// toggle re-applies, it still is after the form was saved, under its new name, and that name
/// is persisted.
pub proof fn law_rename_follows_through(w: WindowView, i: usize)
    requires
        w.unique_names(),
        w.editing == Some(i),
        i < w.servers.len() <= usize::MAX,
        w.last_custom == Some(w.servers[i as int].name),
        form_entry(w) is Some,
    ensures
        toggle_target(reacted(w, MessageView::AddEntry).0) == Some(i as int),
        reacted(w, MessageView::AddEntry).1.saves.contains(
            SaveView::LastCustom(form_entry(w)->0.name),
        ),
{
    let (next, reaction) = reacted(w, MessageView::AddEntry);
    let entry = form_entry(w)->0;
    assert(next.servers == w.servers.update(i as int, entry));
    assert(reaction.saves[0] == SaveView::LastCustom(entry.name));
    lemma_form_keeps_names_unique(w);
    lemma_found_by_name(next, i as int);
}

/// Saving the form keeps the names of the entries apart.
proof fn lemma_form_keeps_names_unique(w: WindowView)
    requires
        w.unique_names(),
        w.servers.len() <= usize::MAX,
    ensures
        reacted(w, MessageView::AddEntry).0.unique_names(),
{
    let next = reacted(w, MessageView::AddEntry).0;
    if form_entry(w) is Some {
        let name = form_entry(w)->0.name;
        assert(!name_taken(w, name));
        assert forall|i: int, j: int| 0 <= i < j < next.servers.len() implies (
        #[trigger] next.servers[i]).name != (#[trigger] next.servers[j]).name by {
            if i < w.servers.len() {
                assert(w.servers[i].name == name ==> w.editing == Some(i as usize));
            }
            if j < w.servers.len() {
                assert(w.servers[j].name == name ==> w.editing == Some(j as usize));
            }
        }
    }
}

/// No message but the import makes two entries share a name, and the import only where an
/// entry already has the name it gives.
pub proof fn law_names_stay_unique(w: WindowView, m: MessageView)
    requires
        w.unique_names(),
        w.servers.len() <= usize::MAX,
        imports(w, m) ==> first_entry(
            w.servers,
            named(imported_entry(m->StatusChecked_0->Ok_0.custom->0).name),
        ) is None,
    ensures
        reacted(w, m).0.unique_names(),
{
    let next = reacted(w, m).0;
    match m {
        MessageView::AddEntry => {
            lemma_form_keeps_names_unique(w);
        },
        MessageView::StatusChecked(Ok(state)) => {
            if next.servers != w.servers {
                let entry = imported_entry(state.custom->0);
                assert(next.servers == seq![entry] + w.servers);
                law_first_entry_is_first(w.servers, named(entry.name));
                assert forall|i: int, j: int| 0 <= i < j < next.servers.len() implies (
                #[trigger] next.servers[i]).name != (#[trigger] next.servers[j]).name by {
                    assert(next.servers[j] == w.servers[j - 1]);
                    if i > 0 {
                        assert(next.servers[i] == w.servers[i - 1]);
                    } else {
                        assert(!named(entry.name)(w.servers[j - 1]));
                    }
                }
            }
        },
        MessageView::RemoveEntry(k) => {
            if k < w.servers.len() {
                assert forall|i: int, j: int| 0 <= i < j < next.servers.len() implies (
                #[trigger] next.servers[i]).name != (#[trigger] next.servers[j]).name by {
                    let a = if i < k {
                        i
                    } else {
                        i + 1
                    };
                    let b = if j < k {
                        j
                    } else {
                        j + 1
                    };
                    assert(next.servers[i] == w.servers[a]);
                    assert(next.servers[j] == w.servers[b]);
                }
            }
        },
        MessageView::DragOver(to) => {
            if next.servers != w.servers {
                let from = w.dragging->0;
                assert forall|i: int, j: int| 0 <= i < j < next.servers.len() implies (
                #[trigger] next.servers[i]).name != (#[trigger] next.servers[j]).name by {
                    let a = moved_from(i, from as int, to as int);
                    let b = moved_from(j, from as int, to as int);
                    lemma_moved(w.servers, from as int, to as int, i);
                    lemma_moved(w.servers, from as int, to as int, j);
                    assert(a != b);
                    if a < b {
                        assert(w.servers[a].name != w.servers[b].name);
                    } else {
                        assert(w.servers[b].name != w.servers[a].name);
                    }
                }
            }
        },
        _ => {
            assert(next.servers == w.servers);
        },
    }
}

/// Where the element that is at `i` after the move from `from` to `to` was before it.
spec fn moved_from(i: int, from: int, to: int) -> int {
    if i == to {
        from
    } else if from <= i && i < to {
        i + 1
    } else if to < i && i <= from {
        i - 1
    } else {
        i
    }
}

proof fn lemma_moved<A>(list: Seq<A>, from: int, to: int, i: int)
    requires
        0 <= from < list.len(),
        0 <= to < list.len(),
        0 <= i < list.len(),
    ensures
        moved(list, from, to).len() == list.len(),
        0 <= moved_from(i, from, to) < list.len(),
        moved(list, from, to)[i] == list[moved_from(i, from, to)],
{
}

/// Dragging only reorders: the same entries stay in the list, the held row stays held, and the
/// form stays on the entry it is on.
pub proof fn law_drag_only_reorders(w: WindowView, to: usize)
    requires
        w.wf(),
    ensures
        ({
            let next = reacted(w, MessageView::DragOver(to)).0;
            &&& next.servers.to_multiset() == w.servers.to_multiset()
            &&& w.dragging matches Some(i) ==> next.dragging matches Some(j) && j
                < next.servers.len() && next.servers[j as int] == w.servers[i as int]
            &&& w.editing matches Some(i) ==> next.editing matches Some(j) && j
                < next.servers.len() && next.servers[j as int] == w.servers[i as int]
        }),
{
    let next = reacted(w, MessageView::DragOver(to)).0;
    if next != w {
        let from = w.dragging->0;
        lemma_moved_multiset(w.servers, from as int, to as int);
        lemma_moved(w.servers, from as int, to as int, to as int);
        if let Some(e) = w.editing {
            lemma_moved(w.servers, from as int, to as int, moved_index(e, from, to) as int);
        }
    }
}

proof fn lemma_moved_multiset<A>(list: Seq<A>, from: int, to: int)
    requires
        0 <= from < list.len(),
        0 <= to < list.len(),
    ensures
        moved(list, from, to).to_multiset() == list.to_multiset(),
{
    broadcast use vstd::multiset::group_multiset_axioms;

    let rest = list.remove(from);
    let x = list[from];
    let a = rest.subrange(0, to);
    let b = rest.subrange(to, rest.len() as int);
    list.to_multiset_ensures();
    a.to_multiset_ensures();
    assert(rest == a + b);
    assert(moved(list, from, to) == a.push(x) + b);
    vstd::seq_lib::lemma_multiset_commutative(a, b);
    vstd::seq_lib::lemma_multiset_commutative(a.push(x), b);
    assert(list.contains(x));
    let all = list.to_multiset();
    assert(all.count(x) > 0);
    assert(list.remove(from).to_multiset() == all.remove(x));
    assert(a.push(x).to_multiset() == a.to_multiset().insert(x));
    let now = moved(list, from, to).to_multiset();
    assert forall|y: A| now.count(y) == all.count(y) by {
        assert(now.count(y) == a.push(x).to_multiset().count(y) + b.to_multiset().count(y));
        assert(rest.to_multiset().count(y) == a.to_multiset().count(y) + b.to_multiset().count(y));
    }
    assert(now =~= all);
}

/// Dragging a row away and back restores the list, and with it the form.
pub proof fn law_drag_back_restores(w: WindowView, from: usize, to: usize)
    requires
        w.wf(),
        w.dragging == Some(from),
        to < w.servers.len(),
    ensures
        reacted(reacted(w, MessageView::DragOver(to)).0, MessageView::DragOver(from)).0 == w,
{
    let w1 = reacted(w, MessageView::DragOver(to)).0;
    let w2 = reacted(w1, MessageView::DragOver(from)).0;
    if from != to {
        assert forall|i: int| 0 <= i < w.servers.len() implies #[trigger] w2.servers[i]
            == w.servers[i] by {
            lemma_moved(w1.servers, to as int, from as int, i);
            lemma_moved(w.servers, from as int, to as int, moved_from(i, to as int, from as int));
        }
        assert(w2.servers =~= w.servers);
    }
}

/// Whether a state has servers to import.
pub open spec fn imports(w: WindowView, m: MessageView) -> bool {
    &&& !w.imported_initial
    &&& m matches MessageView::StatusChecked(Ok(state)) && state.custom is Some
}

/// What the import does to an index: it stays with its entry.
proof fn lemma_import_keeps_indices(w: WindowView, m: MessageView)
    requires
        w.wf(),
        w.servers.len() <= usize::MAX,
        m is StatusChecked,
    ensures
        w.editing matches Some(i) ==> reacted(w, m).0.editing matches Some(k) && k < reacted(
            w,
            m,
        ).0.servers.len() && reacted(w, m).0.servers[k as int] == w.servers[i as int],
        w.dragging matches Some(i) ==> reacted(w, m).0.dragging matches Some(k) && k < reacted(
            w,
            m,
        ).0.servers.len() && reacted(w, m).0.servers[k as int] == w.servers[i as int],
{
    let next = reacted(w, m).0;
    if next.servers != w.servers {
        assert(next.servers == seq![imported_entry(m->StatusChecked_0->Ok_0.custom->0)]
            + w.servers);
        assert forall|i: int| 0 <= i < w.servers.len() implies #[trigger] w.servers[i]
            == next.servers[i + 1] by {}
        assert(next.editing == behind_new_first(w.editing));
        assert(next.dragging == behind_new_first(w.dragging));
    } else {
        assert(next.servers.len() == w.servers.len());
        assert(next.editing == w.editing && next.dragging == w.dragging);
    }
}

/// The form stays on its entry: through every message that leaves an entry in it, other than
/// loading another one, it is the same entry.
pub proof fn law_form_stays_on_its_entry(w: WindowView, m: MessageView)
    requires
        w.wf(),
        w.servers.len() <= usize::MAX,
        !(m is EditEntry),
        w.editing is Some,
        reacted(w, m).0.editing is Some,
    ensures
        reacted(w, m).0.editing->0 < reacted(w, m).0.servers.len(),
        reacted(w, m).0.servers[reacted(w, m).0.editing->0 as int]
            == w.servers[w.editing->0 as int],
{
    let next = reacted(w, m).0;
    match m {
        MessageView::DragOver(to) => {
            law_drag_only_reorders(w, to);
        },
        MessageView::RemoveEntry(k) => {},
        MessageView::AddEntry => {},
        MessageView::StatusChecked(_) => {
            lemma_import_keeps_indices(w, m);
        },
        _ => {
            assert(next.servers == w.servers);
            assert(next.editing == w.editing);
        },
    }
}

/// A held row stays the same entry: through every message that leaves a row held, other than
/// taking hold of another one and saving the form over the held entry.
pub proof fn law_held_row_stays_its_entry(w: WindowView, m: MessageView)
    requires
        w.wf(),
        w.servers.len() <= usize::MAX,
        !(m is DragStart),
        m is AddEntry ==> w.editing != w.dragging,
        w.dragging is Some,
        reacted(w, m).0.dragging is Some,
    ensures
        reacted(w, m).0.dragging->0 < reacted(w, m).0.servers.len(),
        reacted(w, m).0.servers[reacted(w, m).0.dragging->0 as int]
            == w.servers[w.dragging->0 as int],
{
    let next = reacted(w, m).0;
    match m {
        MessageView::DragOver(to) => {
            law_drag_only_reorders(w, to);
        },
        MessageView::RemoveEntry(k) => {},
        MessageView::AddEntry => {},
        MessageView::StatusChecked(_) => {
            lemma_import_keeps_indices(w, m);
        },
        _ => {
            assert(next.servers == w.servers);
            assert(next.dragging == w.dragging);
        },
    }
}

/// An entry as the form accepts them: a trimmed name and at least one address, all of them
/// addresses.
pub open spec fn accepted_entry(e: EntryView) -> bool {
    &&& e.name.len() > 0
    &&& trimmed(e.name) == e.name
    &&& readable_addresses(e.addresses)
}

proof fn lemma_trim_start_first(s: Seq<char>)
    ensures
        trim_start(s).len() > 0 ==> !white(trim_start(s).first()),
    decreases s.len(),
{
    if s.len() > 0 && white(s.first()) {
        lemma_trim_start_first(s.drop_first());
    }
}

/// Trimming the back leaves no white space there, and the front as it was.
pub proof fn lemma_trim_end_ends(s: Seq<char>)
    ensures
        trim_end(s).len() > 0 ==> !white(trim_end(s).last()) && trim_end(s).first() == s.first(),
    decreases s.len(),
{
    if s.len() > 0 && white(s.last()) {
        lemma_trim_end_ends(s.drop_last());
    }
}

/// Trimming again changes nothing, and a trimmed text has no white space at its ends.
pub proof fn law_trimmed_stays_trimmed(s: Seq<char>)
    ensures
        trimmed(trimmed(s)) == trimmed(s),
        trimmed(s).len() > 0 ==> !white(trimmed(s).first()) && !white(trimmed(s).last()),
{
    lemma_trim_start_first(s);
    lemma_trim_end_ends(trim_start(s));
}

/// The form accepts nothing but a trimmed name that no other entry has and addresses.
pub proof fn law_form_accepts_only_addresses(w: WindowView)
    ensures
        form_entry(w) matches Some(e) ==> {
            &&& accepted_entry(e)
            &&& !name_taken(w, e.name)
        },
{
    law_trimmed_stays_trimmed(w.edit_name);
    law_accepted_addresses_are_readable(w.edit_addresses);
}

/// Loading an entry into the form and saving it unchanged leaves the list and the toggle as
/// they were.
pub proof fn law_edit_and_save_changes_nothing(w: WindowView, i: usize)
    requires
        w.unique_names(),
        i < w.servers.len() <= usize::MAX,
        accepted_entry(w.servers[i as int]),
    ensures
        ({
            let loaded = reacted(w, MessageView::EditEntry(i)).0;
            let saved = reacted(loaded, MessageView::AddEntry).0;
            &&& form_entry(loaded) == Some(w.servers[i as int])
            &&& saved.servers == w.servers
            &&& saved.last_custom == w.last_custom
            &&& saved.editing is None
        }),
{
    let e = w.servers[i as int];
    let loaded = reacted(w, MessageView::EditEntry(i)).0;
    law_readable_addresses_read_back(e.addresses);
    assert(loaded.servers == w.servers);
    if name_taken(loaded, e.name) {
        let j = choose|j: int|
            0 <= j < loaded.servers.len() && (#[trigger] loaded.servers[j]).name == e.name
                && loaded.editing != Some(j as usize);
        if j < i {
            assert(w.servers[j].name != w.servers[i as int].name);
        } else if j > i {
            assert(w.servers[i as int].name != w.servers[j].name);
        }
    }
    let saved = reacted(loaded, MessageView::AddEntry).0;
    assert(saved.servers =~= w.servers);
}

/// At most one row is checkmarked, the one of the active entry, whose servers are those that
/// are forced, in whatever order.
pub proof fn law_active_row_has_the_forced_servers(w: WindowView, i: int)
    requires
        0 <= i < w.servers.len(),
        popup_of(w).rows[i].active,
    ensures
        custom_on(w),
        same_list(w.servers[i].addresses, w.current->0.custom->0),
        forall|j: int|
            0 <= j < w.servers.len() && j != i ==> !(#[trigger] popup_of(w).rows[j]).active,
{
    law_first_entry_is_first(w.servers, serving(w.current->0.custom->0));
}

/// A switch to a saved entry that landed shows as active: once the state shows the servers of
/// the entry, in whatever order, a row with those servers is checkmarked, at that entry or
/// before it.
pub proof fn law_landed_entry_is_active(w: WindowView, i: int, state: StateView)
    requires
        0 <= i < w.servers.len(),
        state.custom matches Some(custom) && same_list(w.servers[i].addresses, custom),
    ensures
        ({
            let next = reacted(w, MessageView::Applied(Ok(state))).0;
            &&& custom_on(next)
            &&& active_entry(next) matches Some(j) && 0 <= j <= i && popup_of(next).rows[j].active
                && same_list(w.servers[j].addresses, w.servers[i].addresses)
        }),
{
    let next = reacted(w, MessageView::Applied(Ok(state))).0;
    let test = serving(state.custom->0);
    assert(next.servers == w.servers);
    law_first_entry_is_first(w.servers, test);
    assert(test(w.servers[i]));
    let j = first_entry(w.servers, test)->0;
    assert(test(w.servers[j]));
    assert(popup_of(next).rows[j].active);
}

/// The order of servers does not matter: a list matches itself reversed.
pub proof fn law_reversed_servers_match(list: Seq<Seq<char>>)
    ensures
        same_list(list, list.reverse()),
{
    list.lemma_reverse_to_multiset();
}

} // verus!
