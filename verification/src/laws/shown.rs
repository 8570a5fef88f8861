//! What the badge, the popup and the settings show, by what there is to show.

use vstd::prelude::*;

use crate::laws::addresses::{law_readable_addresses_read_back, readable_addresses};
use crate::laws::entries::law_first_entry_is_first;
use crate::servers::{parsed_addresses, same_list};
use crate::text::joined;
use crate::update::serving;
use crate::view::{
    active_entry, badge_of, button_of, panel_of, popup_of, settings_of, status_text, Badge,
    PanelView,
};
use crate::window::{ReleaseView, WindowView};

verus! {

/// The servers that the state shows as forced.
pub open spec fn forced(w: WindowView) -> Option<Seq<Seq<char>>> {
    match w.current {
        Some(state) => state.custom,
        None => None,
    }
}

/// The badge and the toggle tell whether servers are forced.
pub proof fn law_badge_and_toggle_tell_the_state(w: WindowView)
    ensures
        badge_of(w) == popup_of(w).badge,
        popup_of(w).badge == Badge::Custom <==> forced(w) is Some,
        popup_of(w).badge == Badge::Router <==> forced(w) is None,
        popup_of(w).custom_on <==> forced(w) is Some,
{
}

/// The rows are the entries, in their order, each with its name and its addresses; a note stands
/// in for them exactly where there are none.
pub proof fn law_rows_are_the_entries(w: WindowView, i: int)
    ensures
        popup_of(w).rows.len() == w.servers.len(),
        settings_of(w).rows.len() == w.servers.len(),
        popup_of(w).empty_note is Some <==> w.servers.len() == 0,
        popup_of(w).empty_note matches Some(note) ==> note
            == "No DNS servers saved — add one in Settings."@,
        0 <= i < w.servers.len() ==> {
            &&& popup_of(w).rows[i].name == w.servers[i].name
            &&& popup_of(w).rows[i].addresses == joined(w.servers[i].addresses, ", "@)
            &&& settings_of(w).rows[i].name == w.servers[i].name
            &&& settings_of(w).rows[i].addresses == joined(w.servers[i].addresses, ", "@)
            &&& readable_addresses(w.servers[i].addresses) ==> parsed_addresses(
                popup_of(w).rows[i].addresses,
            ) == Some(w.servers[i].addresses)
        },
{
    if 0 <= i < w.servers.len() && readable_addresses(w.servers[i].addresses) {
        law_readable_addresses_read_back(w.servers[i].addresses);
    }
}

/// The checkmark is on the first entry that has the servers that are forced, in whatever order,
/// and nowhere else; it is missing only where no entry has them or none are forced.
pub proof fn law_checkmark_is_on_the_first_match(w: WindowView, i: int)
    requires
        0 <= i < w.servers.len(),
    ensures
        popup_of(w).rows[i].active <==> (forced(w) matches Some(servers) && same_list(
            w.servers[i].addresses,
            servers,
        ) && forall|j: int|
            0 <= j < i ==> !same_list((#[trigger] w.servers[j]).addresses, servers)),
        active_entry(w) == Some(i) <==> popup_of(w).rows[i].active,
{
    if let Some(servers) = forced(w) {
        let test = serving(servers);
        law_first_entry_is_first(w.servers, test);
        assert forall|j: int| 0 <= j < w.servers.len() implies test(#[trigger] w.servers[j])
            == same_list(w.servers[j].addresses, servers) by {}
        if same_list(w.servers[i].addresses, servers) && forall|j: int|
            0 <= j < i ==> !same_list((#[trigger] w.servers[j]).addresses, servers) {
            assert(test(w.servers[i]));
            let k = active_entry(w)->0;
            assert(test(w.servers[k]));
            if k < i {
                assert(!same_list(w.servers[k].addresses, servers));
            }
        }
    }
}

/// While no switch is under way, the status line names the entry whose row is checkmarked, and
/// that entry has the servers that are forced.
pub proof fn law_status_line_names_the_checkmarked_row(w: WindowView, i: int)
    requires
        !w.applying,
        0 <= i < w.servers.len(),
        popup_of(w).rows[i].active,
    ensures
        popup_of(w).status == "Custom: "@ + popup_of(w).rows[i].name,
        status_text(w) == popup_of(w).status,
        forced(w) matches Some(servers) && same_list(w.servers[i].addresses, servers),
{
    law_checkmark_is_on_the_first_match(w, i);
}

/// Where no row is checkmarked, the status line lists the servers that are forced; where none
/// are, it says that the router's are used, that the state is not read yet, or that a switch is
/// under way.
pub proof fn law_status_line_tells_the_rest(w: WindowView)
    ensures
        status_text(w) == popup_of(w).status,
        w.applying ==> popup_of(w).status == "Switching…"@,
        !w.applying && w.current is None ==> popup_of(w).status == "Reading network state…"@,
        !w.applying && w.current is Some && forced(w) is None ==> popup_of(w).status
            == "Router default (DHCP)"@,
        !w.applying && (forall|i: int|
            0 <= i < w.servers.len() ==> !(#[trigger] popup_of(w).rows[i]).active) ==> (forced(w)
            matches Some(servers) ==> popup_of(w).status == "Custom: "@ + joined(servers, ", "@)),
{
    if let Some(servers) = forced(w) {
        let test = serving(servers);
        law_first_entry_is_first(w.servers, test);
        if let Some(k) = active_entry(w) {
            assert(popup_of(w).rows[k].active);
        }
    }
}

/// The warning is there exactly while another link answers, and names it; the caption is there
/// exactly while the state is known, and names the connection and the device.
pub proof fn law_captions_name_what_they_are_about(w: WindowView)
    ensures
        match w.current {
            Some(state) => {
                &&& popup_of(w).network == Some(
                    "Network: "@ + state.connection + " ("@ + state.device + ")"@,
                )
                &&& match state.dns_owner {
                    Some(owner) => popup_of(w).warning == Some(
                        "Heads up: “"@ + owner
                            + "” (VPN/tunnel) is answering DNS right now — switches apply once it disconnects."@,
                    ),
                    None => popup_of(w).warning is None,
                }
            },
            None => popup_of(w).network is None && popup_of(w).warning is None,
        },
{
}

/// The flush row tells whether a flush is under way, and is confirmed exactly by the notice that
/// one succeeded; the notice is shown as it is.
pub proof fn law_flush_row_tells_the_flush(w: WindowView)
    ensures
        popup_of(w).flush_label == if w.flushing {
            "Flushing…"@
        } else {
            "Flush DNS cache"@
        },
        popup_of(w).flush_confirmed <==> w.notice == Some((false, "DNS cache flushed"@)),
        popup_of(w).notice == w.notice,
{
}

/// The settings show the form as it is filled in, and whether it adds an entry or edits one, and
/// which; a row is lifted exactly while it is held.
pub proof fn law_settings_show_the_form(w: WindowView, i: int)
    requires
        w.wf(),
        w.servers.len() <= usize::MAX,
    ensures
        settings_of(w).edit_name == w.edit_name,
        settings_of(w).edit_addresses == w.edit_addresses,
        settings_of(w).can_cancel <==> w.editing is Some,
        match w.editing {
            Some(e) => settings_of(w).form_heading == "Edit “"@ + settings_of(w).rows[e as int].name
                + "”"@ && settings_of(w).submit_label == "Save changes"@,
            None => settings_of(w).form_heading == "Add a server"@ && settings_of(w).submit_label
                == "Add server"@,
        },
        0 <= i < w.servers.len() ==> (settings_of(w).rows[i].dragged <==> (w.dragging matches Some(k)
            && k == i)),
{
}

/// The settings show the version, the release that was found or why none was, and what can be
/// done about it.
pub proof fn law_settings_show_the_release(w: WindowView)
    ensures
        settings_of(w).version == w.version,
        settings_of(w).auto_update == w.auto_update,
        settings_of(w).installing == w.self_updating,
        settings_of(w).release_failed <==> w.release is Error,
        settings_of(w).can_check <==> !(w.release is Checking || w.self_updating),
        settings_of(w).update_now matches Some(tag) ==> w.release == ReleaseView::Available(tag)
            && !w.self_updating,
        w.release is Available && !w.self_updating ==> settings_of(w).update_now is Some,
        match w.release {
            ReleaseView::Unknown => settings_of(w).release_note == "Not checked yet"@,
            ReleaseView::Checking => settings_of(w).release_note == "Checking GitHub…"@,
            ReleaseView::UpToDate => settings_of(w).release_note == "Up to date (v"@
                + settings_of(w).version + ")"@,
            ReleaseView::Available(tag) => settings_of(w).release_note == tag + " is available"@,
            ReleaseView::Error(e) => settings_of(w).release_note == "Check failed: "@ + e,
        },
{
}

/// The panel button is as wide across the panel as the icon and its padding on both sides, padded
/// along the panel alone, and the same on a panel that is turned.
pub proof fn law_panel_button_covers_the_panel(horizontal: bool, icon: (u16, u16), pad: u16)
    requires
        (if horizontal {
            icon.1
        } else {
            icon.0
        }) + 2 * pad <= u16::MAX,
    ensures
        ({
            let button = button_of(horizontal, icon, pad);
            let turned = button_of(!horizontal, (icon.1, icon.0), pad);
            let across = if horizontal {
                icon.1
            } else {
                icon.0
            };
            &&& button.horizontal == horizontal
            &&& button.extent == pad + across + pad
            &&& horizontal ==> button.padding == (0u16, pad)
            &&& turned.horizontal == !horizontal
            &&& turned.extent == button.extent
            &&& turned.padding == (button.padding.1, button.padding.0)
        }),
{
}

/// The window holds the settings while they are open, and otherwise the popup.
pub proof fn law_window_holds_what_is_open(w: WindowView)
    ensures
        panel_of(w) is Settings <==> w.show_settings,
        panel_of(w) matches PanelView::Settings(settings) ==> settings == settings_of(w),
        panel_of(w) matches PanelView::Popup(popup) ==> popup == popup_of(w),
{
}

} // verus!
