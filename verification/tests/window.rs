use cosmic_applet_dns::backend::DnsState;
use cosmic_applet_dns::servers::{preset_entries, DnsEntry};
use cosmic_applet_dns::view::{panel_button, Badge, Panel};
use cosmic_applet_dns::window::{
    Launch, Message, Reaction, ReleaseStatus, Save, Saved, Task, Window,
};

fn nothing_saved() -> Saved {
    Saved {
        servers: None,
        last_custom: None,
        imported_initial: None,
        auto_update: None,
        last_auto_update: None,
    }
}

fn window() -> Window {
    Window::init(nothing_saved(), "0.1.0").0
}

/// A window whose first import is over.
fn imported_window() -> Window {
    let mut saved = nothing_saved();
    saved.imported_initial = Some(true);
    saved.auto_update = Some(false);
    Window::init(saved, "0.1.0").0
}

fn list(items: &[&str]) -> Vec<String> {
    items.iter().map(|s| s.to_string()).collect()
}

fn state(connection: &str, custom: Option<&[&str]>) -> DnsState {
    DnsState {
        device: "enp5s0".to_string(),
        connection: connection.to_string(),
        custom: custom.map(list),
        dns_owner: None,
        tunnel: false,
    }
}

fn tunnel(connection: &str) -> DnsState {
    DnsState { tunnel: true, ..state(connection, None) }
}

fn names(w: &Window) -> Vec<&str> {
    w.servers.iter().map(|e| e.name.as_str()).collect()
}

fn shown(r: &Reaction) -> String {
    let saves: Vec<String> = r
        .saves
        .iter()
        .map(|s| match s {
            Save::Servers(list) => {
                format!("servers {}", list.iter().map(|e| e.name.as_str()).collect::<Vec<_>>().join("/"))
            }
            Save::LastCustom(name) => format!("last {}", name),
            Save::ImportedInitial(on) => format!("imported {}", on),
            Save::AutoUpdate(on) => format!("auto {}", on),
            Save::LastAutoUpdate(tag) => format!("installed {}", tag),
        })
        .collect();
    let tasks: Vec<String> = r.tasks.iter().map(|t| format!("{:?}", t)).collect();
    format!("{} | {}", saves.join(", "), tasks.join(", "))
}

fn send(w: &mut Window, m: Message) -> String {
    shown(&w.update(m))
}

fn type_in(w: &mut Window, name: &str, addresses: &str) {
    w.update(Message::EditName(name.to_string()));
    w.update(Message::EditAddresses(addresses.to_string()));
}

fn notice(w: &Window) -> Option<(bool, &str)> {
    w.notice.as_ref().map(|(is_error, note)| (*is_error, note.as_str()))
}

#[test]
fn first_run_seeds_the_presets() {
    let (w, r) = Window::init(nothing_saved(), "0.1.0");
    assert_eq!(w.servers, preset_entries());
    assert_eq!(shown(&r), "servers Cloudflare/Google/Quad9 | RefreshStatus, CheckRelease");
    assert_eq!(w.last_custom, None);
    assert!(!w.imported_initial && !w.applying && !w.flushing && !w.self_updating);
}

#[test]
fn updates_are_automatic_by_default() {
    assert!(window().auto_update);
    let mut saved = nothing_saved();
    saved.auto_update = Some(false);
    assert!(!Window::init(saved, "0.1.0").0.auto_update);
    let mut saved = nothing_saved();
    saved.auto_update = Some(true);
    assert!(Window::init(saved, "0.1.0").0.auto_update);
}

#[test]
fn saved_settings_are_restored() {
    let own = DnsEntry { name: "Own".to_string(), addresses: list(&["10.0.0.2"]) };
    let saved = Saved {
        servers: Some(vec![own.clone()]),
        last_custom: Some("Own".to_string()),
        imported_initial: Some(true),
        auto_update: Some(true),
        last_auto_update: Some("".to_string()),
    };
    let (w, r) = Window::init(saved, "0.1.0");
    assert_eq!(w.servers, vec![own]);
    assert_eq!(w.last_custom, Some("Own".to_string()));
    assert_eq!(w.last_auto_update, None);
    assert!(w.imported_initial);
    assert_eq!(shown(&r), "servers Own | RefreshStatus, CheckRelease");
}

#[test]
fn an_emptied_list_stays_empty() {
    let mut saved = nothing_saved();
    saved.servers = Some(vec![]);
    saved.last_custom = Some("".to_string());
    let mut w = Window::init(saved, "0.1.0").0;
    assert!(w.servers.is_empty());
    assert_eq!(w.last_custom, None);
    assert_eq!(send(&mut w, Message::SetCustom(true)), " | ");
    assert_eq!(notice(&w), Some((true, "Add a DNS server in Settings first")));
    assert!(!w.applying);
}

#[test]
fn popup_opens_and_closes() {
    let mut w = window();
    assert_eq!(send(&mut w, Message::TogglePopup(7)), " | OpenPopup(7), RefreshStatus");
    assert_eq!(w.popup, Some(7));
    w.update(Message::ToggleSettings);
    assert!(w.show_settings);
    assert_eq!(send(&mut w, Message::TogglePopup(8)), " | ClosePopup(7)");
    assert_eq!(w.popup, None);
    assert!(!w.show_settings);
}

#[test]
fn popup_closed_from_outside_is_forgotten() {
    let mut w = window();
    w.update(Message::TogglePopup(7));
    w.update(Message::ToggleSettings);
    assert_eq!(send(&mut w, Message::CloseRequested(8)), " | ");
    assert_eq!((w.popup, w.show_settings), (Some(7), true));
    assert_eq!(send(&mut w, Message::CloseRequested(7)), " | ");
    assert_eq!((w.popup, w.show_settings), (None, false));
}

#[test]
fn unknown_servers_are_imported_once() {
    let mut w = window();
    let found = state("Wired", Some(&["10.0.0.2", "10.0.0.3"]));
    assert_eq!(
        send(&mut w, Message::StatusChecked(Ok(found.clone()))),
        "imported true, servers Imported (10.0.0.2, 10.0.0.3)/Cloudflare/Google/Quad9 | "
    );
    assert_eq!(w.servers[0].addresses, list(&["10.0.0.2", "10.0.0.3"]));
    assert_eq!(w.last_custom, Some("Imported (10.0.0.2, 10.0.0.3)".to_string()));
    assert_eq!(w.active_index(), Some(0));
    w.update(Message::RemoveEntry(0));
    assert_eq!(w.last_custom, None);
    assert_eq!(send(&mut w, Message::StatusChecked(Ok(found))), " | ");
    assert_eq!(names(&w), vec!["Cloudflare", "Google", "Quad9"]);
}

#[test]
fn an_import_leaves_the_form_and_the_held_row_on_their_entries() {
    let mut w = window();
    w.update(Message::EditEntry(1));
    w.update(Message::DragStart(2));
    w.update(Message::StatusChecked(Ok(state("Wired", Some(&["10.0.0.2"])))));
    assert_eq!(names(&w), vec!["Imported (10.0.0.2)", "Cloudflare", "Google", "Quad9"]);
    assert_eq!(w.editing, Some(2));
    assert_eq!(w.dragging, Some(3));
    w.update(Message::DragOver(0));
    assert_eq!(names(&w), vec!["Quad9", "Imported (10.0.0.2)", "Cloudflare", "Google"]);
    assert_eq!(w.editing, Some(3));
    w.update(Message::DragEnd);
    w.update(Message::EditName("Public".to_string()));
    w.update(Message::AddEntry);
    assert_eq!(names(&w), vec!["Quad9", "Imported (10.0.0.2)", "Cloudflare", "Public"]);
    assert_eq!(w.servers[3].addresses, list(&["8.8.8.8", "8.8.4.4"]));
}

#[test]
fn known_servers_are_not_imported() {
    let mut w = window();
    let r = send(&mut w, Message::StatusChecked(Ok(state("Wired", Some(&["8.8.4.4", "8.8.8.8"])))));
    assert_eq!(r, "imported true | ");
    assert_eq!(names(&w), vec!["Cloudflare", "Google", "Quad9"]);
    assert_eq!(w.active_index(), Some(1));
    let mut w = window();
    assert_eq!(send(&mut w, Message::StatusChecked(Ok(state("Wired", None)))), "imported true | ");
}

#[test]
fn an_unreadable_state_is_shown() {
    let mut w = imported_window();
    w.update(Message::StatusChecked(Ok(state("Wired", None))));
    assert!(w.current.is_some());
    assert_eq!(send(&mut w, Message::StatusChecked(Err("down".to_string()))), " | ");
    assert!(w.current.is_none());
    assert_eq!(notice(&w), Some((true, "down")));
    assert_eq!(send(&mut w, Message::RefreshStatus), " | RefreshStatus");
}

#[test]
fn picking_an_entry_switches_to_it() {
    let mut w = imported_window();
    assert_eq!(
        send(&mut w, Message::SelectEntry(1)),
        "last Google | Apply([\"8.8.8.8\", \"8.8.4.4\"])"
    );
    assert!(w.applying);
    assert_eq!(send(&mut w, Message::SelectEntry(2)), " | ");
    assert_eq!(send(&mut w, Message::SetCustom(false)), " | ");
    assert_eq!(w.last_custom, Some("Google".to_string()));
    let landed = state("Wired", Some(&["8.8.8.8", "8.8.4.4"]));
    assert_eq!(send(&mut w, Message::Applied(Ok(landed))), " | ");
    assert!(!w.applying);
    assert_eq!(notice(&w), Some((false, "Switched — DNS cache flushed")));
    assert_eq!(w.active_index(), Some(1));
    assert_eq!(send(&mut w, Message::SelectEntry(9)), " | ");
}

#[test]
fn toggle_turns_the_last_entry_back_on() {
    let mut w = imported_window();
    w.update(Message::SelectEntry(2));
    w.update(Message::Applied(Ok(state("Wired", Some(&["9.9.9.9", "149.112.112.112"])))));
    assert_eq!(send(&mut w, Message::SetCustom(false)), " | Reset");
    w.update(Message::Applied(Ok(state("Wired", None))));
    assert_eq!(notice(&w), Some((false, "Back to router DNS — cache flushed")));
    assert_eq!(
        send(&mut w, Message::SetCustom(true)),
        "last Quad9 | Apply([\"9.9.9.9\", \"149.112.112.112\"])"
    );
}

#[test]
fn toggle_without_history_takes_the_first_entry() {
    let mut w = imported_window();
    assert_eq!(
        send(&mut w, Message::SetCustom(true)),
        "last Cloudflare | Apply([\"1.1.1.1\", \"1.0.0.1\"])"
    );
}

#[test]
fn a_failed_switch_is_shown_and_the_state_read_again() {
    let mut w = imported_window();
    w.update(Message::SelectEntry(0));
    assert_eq!(send(&mut w, Message::Applied(Err("denied".to_string()))), " | RefreshStatus");
    assert!(!w.applying);
    assert_eq!(notice(&w), Some((true, "denied")));
}

#[test]
fn the_override_follows_to_another_network() {
    let mut w = imported_window();
    w.update(Message::StatusChecked(Ok(state("Wired", Some(&["9.9.9.9"])))));
    // The cable is out, and the wireless network not up yet.
    assert_eq!(send(&mut w, Message::StatusChecked(Err("no default route".to_string()))), " | ");
    assert_eq!(
        send(&mut w, Message::StatusChecked(Ok(state("Wifi", None)))),
        " | Follow([\"9.9.9.9\"])"
    );
    assert!(w.applying);
    // Reports of the network meanwhile start nothing more.
    assert_eq!(send(&mut w, Message::StatusChecked(Ok(state("Wifi", None)))), " | ");
    assert_eq!(
        send(&mut w, Message::Followed(Ok(state("Wifi", Some(&["9.9.9.9"]))))),
        " | ClearProfile(\"Wired\")"
    );
    assert!(!w.applying);
    assert_eq!(w.followed.as_ref().unwrap().connection, "Wifi");
    assert_eq!(send(&mut w, Message::StatusChecked(Ok(state("Wifi", Some(&["9.9.9.9"]))))), " | ");
}

#[test]
fn the_override_stays_off_tunnels() {
    let mut w = imported_window();
    w.update(Message::StatusChecked(Ok(state("Wired", Some(&["9.9.9.9"])))));
    assert_eq!(send(&mut w, Message::StatusChecked(Ok(tunnel("Office")))), " | ");
    assert_eq!(w.followed.as_ref().unwrap().connection, "Wired");
    // A tunnel that came up while the override was being moved.
    w.update(Message::StatusChecked(Ok(state("Wifi", None))));
    assert_eq!(send(&mut w, Message::Followed(Ok(tunnel("Office")))), " | ");
    assert!(!w.applying);
    assert_eq!(w.followed.as_ref().unwrap().connection, "Wired");
    assert_eq!(
        send(&mut w, Message::StatusChecked(Ok(state("Wifi", None)))),
        " | Follow([\"9.9.9.9\"])"
    );
}

#[test]
fn a_failed_move_is_given_up() {
    let mut w = imported_window();
    w.update(Message::StatusChecked(Ok(state("Wired", Some(&["9.9.9.9"])))));
    w.update(Message::StatusChecked(Ok(state("Wifi", None))));
    assert_eq!(send(&mut w, Message::Followed(Err("denied".to_string()))), " | RefreshStatus");
    assert_eq!(notice(&w), Some((true, "denied")));
    assert_eq!(send(&mut w, Message::StatusChecked(Ok(state("Wifi", None)))), " | ");
    assert!(w.followed.is_none());
}

#[test]
fn switching_off_ends_the_following() {
    let mut w = imported_window();
    w.update(Message::StatusChecked(Ok(state("Wired", Some(&["9.9.9.9"])))));
    w.update(Message::SetCustom(false));
    w.update(Message::Applied(Ok(state("Wired", None))));
    assert_eq!(send(&mut w, Message::StatusChecked(Ok(state("Wifi", None)))), " | ");
}

#[test]
fn a_switch_on_a_new_network_cleans_the_old_one() {
    let mut w = imported_window();
    w.update(Message::StatusChecked(Ok(state("Wired", Some(&["9.9.9.9"])))));
    w.update(Message::SelectEntry(0));
    assert_eq!(
        send(&mut w, Message::Applied(Ok(state("Wifi", Some(&["1.1.1.1", "1.0.0.1"]))))),
        " | ClearProfile(\"Wired\")"
    );
}

#[test]
fn a_flush_runs_once_and_is_confirmed() {
    let mut w = window();
    assert_eq!(send(&mut w, Message::FlushCache), " | Flush");
    assert_eq!(send(&mut w, Message::FlushCache), " | ");
    assert!(w.flushing && !w.popup_view().flush_confirmed);
    assert_eq!(send(&mut w, Message::Flushed(Ok(()))), " | ");
    assert!(!w.flushing && w.popup_view().flush_confirmed);
    assert_eq!(notice(&w), Some((false, "DNS cache flushed")));
    w.update(Message::FlushCache);
    w.update(Message::Flushed(Err("could not flush DNS cache: x".to_string())));
    assert_eq!(notice(&w), Some((true, "could not flush DNS cache: x")));
    assert!(!w.popup_view().flush_confirmed);
}

#[test]
fn leaving_the_settings_abandons_edits() {
    let mut w = window();
    assert_eq!(send(&mut w, Message::ToggleSettings), " | CheckRelease");
    assert!(matches!(w.release, ReleaseStatus::Checking));
    w.update(Message::EditEntry(1));
    w.update(Message::DragStart(2));
    assert_eq!(send(&mut w, Message::ToggleSettings), " | ");
    assert_eq!((w.editing, w.dragging), (None, None));
    assert_eq!((w.edit_name.as_str(), w.edit_addresses.as_str()), ("", ""));
    // A check is still under way.
    assert_eq!(send(&mut w, Message::ToggleSettings), " | ");
}

#[test]
fn an_entry_is_added_from_the_form() {
    let mut w = window();
    type_in(&mut w, "  Pi-hole ", "10.0.0.2; fe80::1");
    assert!(w.settings_view().can_submit);
    assert_eq!(send(&mut w, Message::AddEntry), "servers Cloudflare/Google/Quad9/Pi-hole | ");
    assert_eq!(w.servers[3].addresses, list(&["10.0.0.2", "fe80::1"]));
    assert_eq!((w.edit_name.as_str(), w.edit_addresses.as_str()), ("", ""));
}

#[test]
fn an_incomplete_form_is_refused() {
    for (name, addresses) in [
        ("", "1.1.1.1"),
        ("  ", "1.1.1.1"),
        ("Own", ""),
        ("Own", "1.1.1.1, x"),
        ("Google", "1.1.1.1"),
        (" Google ", "1.1.1.1"),
    ] {
        let mut w = window();
        type_in(&mut w, name, addresses);
        assert!(!w.settings_view().can_submit);
        assert_eq!(send(&mut w, Message::AddEntry), " | ");
        assert_eq!((w.edit_name.as_str(), w.edit_addresses.as_str()), (name, addresses));
        assert_eq!(w.servers, preset_entries());
    }
}

#[test]
fn an_edited_entry_is_saved_in_place() {
    let mut w = imported_window();
    w.update(Message::SelectEntry(1));
    w.update(Message::EditEntry(1));
    assert_eq!((w.edit_name.as_str(), w.edit_addresses.as_str()), ("Google", "8.8.8.8, 8.8.4.4"));
    type_in(&mut w, "Big G", "8.8.8.8");
    assert_eq!(
        send(&mut w, Message::AddEntry),
        "last Big G, servers Cloudflare/Big G/Quad9 | "
    );
    assert_eq!(w.last_custom, Some("Big G".to_string()));
    assert_eq!(w.editing, None);
    assert_eq!(w.servers[1].addresses, list(&["8.8.8.8"]));
}

#[test]
fn saving_an_unchanged_entry_changes_nothing() {
    let mut w = imported_window();
    w.update(Message::EditEntry(2));
    assert_eq!(send(&mut w, Message::AddEntry), "servers Cloudflare/Google/Quad9 | ");
    assert_eq!(w.servers, preset_entries());
    w.update(Message::EditEntry(9));
    assert_eq!(w.editing, None);
}

#[test]
fn cancelling_empties_the_form() {
    let mut w = window();
    w.update(Message::EditEntry(0));
    assert_eq!(send(&mut w, Message::CancelEdit), " | ");
    assert_eq!(w.editing, None);
    assert_eq!((w.edit_name.as_str(), w.edit_addresses.as_str()), ("", ""));
}

#[test]
fn removing_entries_keeps_the_form_in_step() {
    let mut w = imported_window();
    w.update(Message::EditEntry(2));
    w.update(Message::DragStart(1));
    assert_eq!(send(&mut w, Message::RemoveEntry(0)), "servers Google/Quad9 | ");
    assert_eq!((w.editing, w.dragging), (Some(1), None));
    assert_eq!(w.edit_name, "Quad9");
    assert_eq!(send(&mut w, Message::RemoveEntry(1)), "servers Google | ");
    assert_eq!(w.editing, None);
    assert_eq!(w.edit_name, "");
    assert_eq!(send(&mut w, Message::RemoveEntry(1)), " | ");
    w.update(Message::EditEntry(0));
    assert_eq!(w.editing, Some(0));
}

#[test]
fn removing_the_last_used_entry_is_remembered() {
    let mut w = imported_window();
    w.update(Message::SelectEntry(1));
    w.update(Message::RemoveEntry(0));
    assert_eq!(w.last_custom, Some("Google".to_string()));
    w.update(Message::RemoveEntry(0));
    assert_eq!(w.last_custom, None);
}

#[test]
fn rows_are_dragged() {
    let mut w = imported_window();
    w.update(Message::EditEntry(2));
    w.update(Message::DragStart(0));
    assert_eq!(send(&mut w, Message::DragOver(2)), " | ");
    assert_eq!(names(&w), vec!["Google", "Quad9", "Cloudflare"]);
    assert_eq!((w.editing, w.dragging), (Some(1), Some(2)));
    assert_eq!(send(&mut w, Message::DragOver(0)), " | ");
    assert_eq!(names(&w), vec!["Cloudflare", "Google", "Quad9"]);
    assert_eq!((w.editing, w.dragging), (Some(2), Some(0)));
    w.update(Message::DragOver(1));
    assert_eq!(send(&mut w, Message::DragEnd), "servers Google/Cloudflare/Quad9 | ");
    assert_eq!(w.dragging, None);
    assert_eq!(send(&mut w, Message::DragEnd), " | ");
    w.update(Message::DragOver(2));
    assert_eq!(names(&w), vec!["Google", "Cloudflare", "Quad9"]);
    w.update(Message::DragStart(7));
    assert_eq!(w.dragging, None);
    w.update(Message::DragStart(1));
    w.update(Message::DragOver(7));
    assert_eq!(w.dragging, Some(1));
}

#[test]
fn a_newer_release_is_offered() {
    let mut w = imported_window();
    assert_eq!(send(&mut w, Message::CheckRelease), " | CheckRelease");
    assert_eq!(send(&mut w, Message::CheckRelease), " | ");
    assert_eq!(send(&mut w, Message::ReleaseChecked(Ok("v0.2.0".to_string()))), " | ");
    assert_eq!(w.settings_view().update_now, Some("v0.2.0".to_string()));
    assert_eq!(
        send(&mut w, Message::SelfUpdate("v0.2.0".to_string())),
        " | SelfUpdate(\"v0.2.0\")"
    );
    assert_eq!(send(&mut w, Message::SelfUpdate("v0.2.0".to_string())), " | ");
    assert_eq!(send(&mut w, Message::CheckRelease), " | ");
    assert_eq!(w.settings_view().update_now, None);
}

#[test]
fn the_same_or_an_older_release_is_up_to_date() {
    for tag in ["v0.1.0", "v0.0.9"] {
        let mut w = window();
        assert_eq!(send(&mut w, Message::ReleaseChecked(Ok(tag.to_string()))), " | ");
        assert!(matches!(w.release, ReleaseStatus::UpToDate));
    }
}

#[test]
fn a_release_is_installed_by_itself_only_once() {
    let tag = "v0.2.0".to_string();
    let mut w = window();
    assert_eq!(
        send(&mut w, Message::ReleaseChecked(Ok(tag.clone()))),
        " | SelfUpdate(\"v0.2.0\")"
    );
    assert!(w.self_updating);
    assert_eq!(
        send(&mut w, Message::SelfUpdated(tag.clone(), Ok(Launch::Standalone))),
        "installed v0.2.0 | Relaunch"
    );
    assert_eq!(send(&mut w, Message::RelaunchFailed("gone".to_string())), " | ");
    assert!(!w.self_updating);
    assert_eq!(
        w.settings_view().release_note,
        "Check failed: Updated, but relaunch failed: gone"
    );
    assert_eq!(send(&mut w, Message::ReleaseChecked(Ok(tag))), " | ");
    assert!(matches!(w.release, ReleaseStatus::Available(_)));
    assert_eq!(send(&mut w, Message::SetAutoUpdate(true)), "auto true | ");
    assert_eq!(
        send(&mut w, Message::ReleaseChecked(Ok("v0.3.0".to_string()))),
        " | SelfUpdate(\"v0.3.0\")"
    );
}

#[test]
fn the_panel_respawns_the_new_version() {
    let mut w = window();
    w.update(Message::SelfUpdate("v0.2.0".to_string()));
    assert_eq!(
        send(&mut w, Message::SelfUpdated("v0.2.0".to_string(), Ok(Launch::Panel))),
        "installed v0.2.0 | Exit(1)"
    );
}

#[test]
fn switching_updates_on_applies_a_pending_one() {
    let mut w = imported_window();
    w.update(Message::ReleaseChecked(Ok("v0.2.0".to_string())));
    assert_eq!(send(&mut w, Message::SetAutoUpdate(false)), "auto false | ");
    assert_eq!(
        send(&mut w, Message::SetAutoUpdate(true)),
        "auto true | SelfUpdate(\"v0.2.0\")"
    );
    assert_eq!(send(&mut w, Message::SetAutoUpdate(true)), "auto true | ");
}

#[test]
fn failed_checks_and_updates_are_shown() {
    let mut w = window();
    w.update(Message::ReleaseChecked(Err("offline".to_string())));
    let s = w.settings_view();
    assert_eq!((s.release_note.as_str(), s.release_failed), ("Check failed: offline", true));
    w.update(Message::SelfUpdate("v0.2.0".to_string()));
    assert!(w.settings_view().installing);
    let r = send(&mut w, Message::SelfUpdated("v0.2.0".to_string(), Err("no disk".to_string())));
    assert_eq!(r, " | ");
    assert!(!w.self_updating);
    assert_eq!(w.settings_view().release_note, "Check failed: no disk");
    assert_eq!(w.last_auto_update, None);
}

#[test]
fn the_panel_button_is_fixed_across_the_panel() {
    let top = panel_button(true, (24, 16), 8);
    assert_eq!((top.horizontal, top.extent, top.padding), (true, 32, (0, 8)));
    let side = panel_button(false, (24, 16), 8);
    assert_eq!((side.horizontal, side.extent, side.padding), (false, 40, (8, 0)));
}

#[test]
fn the_badge_shows_whether_servers_are_forced() {
    let mut w = imported_window();
    assert_eq!(w.status_icon(), Badge::Router);
    w.update(Message::StatusChecked(Ok(state("Wired", None))));
    assert_eq!(w.status_icon(), Badge::Router);
    w.update(Message::StatusChecked(Ok(state("Wired", Some(&["10.0.0.2"])))));
    assert_eq!(w.status_icon(), Badge::Custom);
}

#[test]
fn the_status_line_sums_up_the_state() {
    let mut w = imported_window();
    assert_eq!(w.status_line(), "Reading network state…");
    w.update(Message::StatusChecked(Ok(state("Wired", None))));
    assert_eq!(w.status_line(), "Router default (DHCP)");
    w.update(Message::StatusChecked(Ok(state("Wired", Some(&["10.0.0.2", "10.0.0.3"])))));
    assert_eq!(w.status_line(), "Custom: 10.0.0.2, 10.0.0.3");
    w.update(Message::StatusChecked(Ok(state("Wired", Some(&["1.0.0.1", "1.1.1.1"])))));
    assert_eq!(w.status_line(), "Custom: Cloudflare");
    w.update(Message::SetCustom(false));
    assert_eq!(w.status_line(), "Switching…");
}

#[test]
fn the_popup_shows_the_state() {
    let mut w = imported_window();
    let mut s = state("Wired", Some(&["8.8.8.8", "8.8.4.4"]));
    s.dns_owner = Some("wg0".to_string());
    w.update(Message::StatusChecked(Ok(s)));
    let p = w.popup_view();
    assert!(p.custom_on && p.can_switch && p.can_flush);
    assert_eq!(p.empty_note, None);
    assert_eq!(p.rows.iter().map(|r| r.active).collect::<Vec<_>>(), vec![false, true, false]);
    assert_eq!(p.rows[2].name, "Quad9");
    assert_eq!(p.rows[2].addresses, "9.9.9.9, 149.112.112.112");
    assert_eq!(p.flush_label, "Flush DNS cache");
    assert_eq!(p.notice, None);
    assert_eq!(
        p.warning.unwrap(),
        "Heads up: “wg0” (VPN/tunnel) is answering DNS right now — switches apply once it \
         disconnects."
    );
    assert_eq!(p.network.unwrap(), "Network: Wired (enp5s0)");
    w.update(Message::FlushCache);
    w.update(Message::SelectEntry(0));
    let p = w.popup_view();
    assert!(!p.can_switch && !p.can_flush);
    assert_eq!(p.flush_label, "Flushing…");
}

#[test]
fn the_window_holds_the_popup_or_the_settings() {
    let mut w = imported_window();
    assert!(matches!(w.view_window(), Panel::Popup(p) if p.rows.len() == 3));
    w.update(Message::ToggleSettings);
    assert!(matches!(w.view_window(), Panel::Settings(s) if s.form_heading == "Add a server"));
    w.update(Message::ToggleSettings);
    assert!(matches!(w.view_window(), Panel::Popup(_)));
}

#[test]
fn an_override_that_is_seen_follows_the_device() {
    let mut w = imported_window();
    assert_eq!(send(&mut w, Message::StatusChecked(Ok(state("Wired", Some(&["8.8.8.8"]))))), " | ");
    assert_eq!(
        send(&mut w, Message::StatusChecked(Ok(state("Wi-Fi", None)))),
        " | Follow([\"8.8.8.8\"])"
    );
    assert!(w.applying);
}

#[test]
fn an_empty_popup_says_so() {
    let mut saved = nothing_saved();
    saved.servers = Some(vec![]);
    let p = Window::init(saved, "0.1.0").0.popup_view();
    assert_eq!(p.empty_note.unwrap(), "No DNS servers saved — add one in Settings.");
    assert!(p.rows.is_empty() && p.warning.is_none() && p.network.is_none());
}

#[test]
fn the_settings_show_the_form_and_the_release() {
    let mut w = imported_window();
    let s = w.settings_view();
    assert_eq!((s.form_heading.as_str(), s.submit_label.as_str()), ("Add a server", "Add server"));
    assert!(!s.can_submit && !s.can_cancel && s.can_check && !s.auto_update);
    assert_eq!((s.version.as_str(), s.release_note.as_str()), ("0.1.0", "Not checked yet"));
    w.update(Message::EditEntry(1));
    w.update(Message::DragStart(2));
    w.update(Message::CheckRelease);
    let s = w.settings_view();
    assert_eq!((s.form_heading.as_str(), s.submit_label.as_str()), ("Edit “Google”", "Save changes"));
    assert!(s.can_submit && s.can_cancel && !s.can_check);
    assert_eq!(s.release_note, "Checking GitHub…");
    assert_eq!(s.rows.iter().map(|r| r.dragged).collect::<Vec<_>>(), vec![false, false, true]);
    w.update(Message::ReleaseChecked(Ok("v0.1.0".to_string())));
    assert_eq!(w.settings_view().release_note, "Up to date (v0.1.0)");
    w.update(Message::ReleaseChecked(Ok("v1.0.0".to_string())));
    assert_eq!(w.settings_view().release_note, "v1.0.0 is available");
}

#[test]
fn messages_and_states_are_copied_whole() {
    let m = Message::StatusChecked(Ok(state("Wired", Some(&["1.1.1.1"]))));
    assert_eq!(format!("{:?}", m.clone()), format!("{:?}", m));
    let m = Message::SelfUpdated("v1".to_string(), Ok(Launch::Panel));
    assert_eq!(format!("{:?}", m.clone()), format!("{:?}", m));
    let r = ReleaseStatus::Available("v1".to_string());
    assert_eq!(format!("{:?}", r.clone()), format!("{:?}", r));
}
