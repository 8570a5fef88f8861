//! What the panel button, the popup and the settings panel show.

use vstd::prelude::*;

use crate::text;
use crate::text::{joined, opt_text};
use crate::update::{first_entry, form_entry, serving};
use crate::window::{opt_notice, ReleaseStatus, ReleaseView, Window, WindowView};

verus! {

/// The badge on the panel button.
#[derive(Debug, Clone, Copy, PartialEq, Eq, Structural)]
pub enum Badge {
    /// A custom DNS is forced.
    Custom,
    /// The router/DHCP default is in use.
    Router,
}

/// Whether a custom DNS is forced.
pub open spec fn custom_on(w: WindowView) -> bool {
    w.current matches Some(state) && state.custom is Some
}

/// The saved entry matching the currently forced servers, if any.
pub open spec fn active_entry(w: WindowView) -> Option<int> {
    if custom_on(w) {
        first_entry(w.servers, serving(w.current->0.custom->0))
    } else {
        None
    }
}

/// One-line summary of the current state.
pub open spec fn status_text(w: WindowView) -> Seq<char> {
    if w.applying {
        "Switching…"@
    } else {
        match w.current {
            None => "Reading network state…"@,
            Some(state) => match state.custom {
                None => "Router default (DHCP)"@,
                Some(servers) => "Custom: "@ + match active_entry(w) {
                    Some(i) => w.servers[i].name,
                    None => joined(servers, ", "@),
                },
            },
        }
    }
}

/// A row of the server list in the popup.
#[derive(Debug)]
pub struct ServerRow {
    pub name: String,
    pub addresses: String,
    /// Whether it is checkmarked.
    pub active: bool,
}

/// What a [`ServerRow`] holds, as text.
pub struct ServerRowView {
    pub name: Seq<char>,
    pub addresses: Seq<char>,
    pub active: bool,
}

impl View for ServerRow {
    type V = ServerRowView;

    open spec fn view(&self) -> ServerRowView {
        ServerRowView { name: self.name@, addresses: self.addresses@, active: self.active }
    }
}

/// The popup.
#[derive(Debug)]
pub struct Popup {
    pub badge: Badge,
    /// One-line status under the title.
    pub status: String,
    /// Where the custom DNS toggle stands.
    pub custom_on: bool,
    /// Saved servers, active one marked.
    pub rows: Vec<ServerRow>,
    /// Shown in place of the rows where there are none.
    pub empty_note: Option<String>,
    /// Whether the rows can be picked.
    pub can_switch: bool,
    pub flush_label: String,
    pub can_flush: bool,
    /// Whether the flush row carries a checkmark.
    pub flush_confirmed: bool,
    /// Outcome of the last action, and whether it is an error.
    pub notice: Option<(bool, String)>,
    /// Heads-up that a VPN is intercepting DNS, so a switch here wouldn't take effect yet.
    pub warning: Option<String>,
    /// Which connection all of this applies to.
    pub network: Option<String>,
}

/// What a [`Popup`] holds, as text.
pub struct PopupView {
    pub badge: Badge,
    pub status: Seq<char>,
    pub custom_on: bool,
    pub rows: Seq<ServerRowView>,
    pub empty_note: Option<Seq<char>>,
    pub can_switch: bool,
    pub flush_label: Seq<char>,
    pub can_flush: bool,
    pub flush_confirmed: bool,
    pub notice: Option<(bool, Seq<char>)>,
    pub warning: Option<Seq<char>>,
    pub network: Option<Seq<char>>,
}

impl View for Popup {
    type V = PopupView;

    open spec fn view(&self) -> PopupView {
        PopupView {
            badge: self.badge,
            status: self.status@,
            custom_on: self.custom_on,
            rows: self.rows@.map_values(|r: ServerRow| r@),
            empty_note: opt_text(self.empty_note),
            can_switch: self.can_switch,
            flush_label: self.flush_label@,
            can_flush: self.can_flush,
            flush_confirmed: self.flush_confirmed,
            notice: opt_notice(self.notice),
            warning: opt_text(self.warning),
            network: opt_text(self.network),
        }
    }
}

/// The badge that the state calls for.
pub open spec fn badge_of(w: WindowView) -> Badge {
    if custom_on(w) {
        Badge::Custom
    } else {
        Badge::Router
    }
}

/// The rows of the server list in the popup.
pub open spec fn server_rows(w: WindowView) -> Seq<ServerRowView> {
    Seq::new(
        w.servers.len(),
        |i: int|
            ServerRowView {
                name: w.servers[i].name,
                addresses: joined(w.servers[i].addresses, ", "@),
                active: active_entry(w) == Some(i),
            },
    )
}

/// The heads-up that another link is answering DNS.
pub open spec fn warning_text(w: WindowView) -> Option<Seq<char>> {
    match w.current {
        Some(state) => match state.dns_owner {
            Some(owner) => Some(
                "Heads up: “"@ + owner
                    + "” (VPN/tunnel) is answering DNS right now — switches apply once it disconnects."@,
            ),
            None => None,
        },
        None => None,
    }
}

/// The caption that names the network.
pub open spec fn network_text(w: WindowView) -> Option<Seq<char>> {
    match w.current {
        Some(state) => Some("Network: "@ + state.connection + " ("@ + state.device + ")"@),
        None => None,
    }
}

/// The panel button: fixed across the panel, so that the hover highlight covers all of it, and
/// padded along it.
#[derive(Debug, Clone, Copy)]
pub struct PanelButton {
    /// Whether the panel runs horizontally, so that the height is what is fixed.
    pub horizontal: bool,
    /// The fixed height, or width.
    pub extent: u16,
    /// Padding above and below, then left and right.
    pub padding: (u16, u16),
}

/// The shape of the panel button for an icon of this width and height.
pub open spec fn button_of(horizontal: bool, icon: (u16, u16), pad: u16) -> PanelButton {
    if horizontal {
        PanelButton { horizontal, extent: (icon.1 + 2 * pad) as u16, padding: (0u16, pad) }
    } else {
        PanelButton { horizontal, extent: (icon.0 + 2 * pad) as u16, padding: (pad, 0u16) }
    }
}

/// The panel button for an icon of this width and height.
pub fn panel_button(horizontal: bool, icon: (u16, u16), pad: u16) -> (button: PanelButton)
    requires
        (if horizontal {
            icon.1
        } else {
            icon.0
        }) + 2 * pad <= u16::MAX,
    ensures
        button == button_of(horizontal, icon, pad),
        button == if horizontal {
            PanelButton {
                horizontal,
                extent: (icon.1 + 2 * pad) as u16,
                padding: (0u16, pad),
            }
        } else {
            PanelButton { horizontal, extent: (icon.0 + 2 * pad) as u16, padding: (pad, 0u16) }
        },
{
    if horizontal {
        PanelButton { horizontal, extent: icon.1 + 2 * pad, padding: (0, pad) }
    } else {
        PanelButton { horizontal, extent: icon.0 + 2 * pad, padding: (pad, 0) }
    }
}

/// What the popup shows.
pub open spec fn popup_of(w: WindowView) -> PopupView {
    PopupView {
        badge: badge_of(w),
        status: status_text(w),
        custom_on: custom_on(w),
        rows: server_rows(w),
        empty_note: if w.servers.len() == 0 {
            Some("No DNS servers saved — add one in Settings."@)
        } else {
            None
        },
        can_switch: !w.applying,
        flush_label: if w.flushing {
            "Flushing…"@
        } else {
            "Flush DNS cache"@
        },
        can_flush: !w.flushing,
        flush_confirmed: w.notice == Some((false, "DNS cache flushed"@)),
        notice: w.notice,
        warning: warning_text(w),
        network: network_text(w),
    }
}

/// A row of the server list in the settings.
#[derive(Debug)]
pub struct SettingsRow {
    pub name: String,
    pub addresses: String,
    /// Whether it is lifted, being dragged.
    pub dragged: bool,
}

/// What a [`SettingsRow`] holds, as text.
pub struct SettingsRowView {
    pub name: Seq<char>,
    pub addresses: Seq<char>,
    pub dragged: bool,
}

impl View for SettingsRow {
    type V = SettingsRowView;

    open spec fn view(&self) -> SettingsRowView {
        SettingsRowView { name: self.name@, addresses: self.addresses@, dragged: self.dragged }
    }
}

/// The settings panel.
#[derive(Debug)]
pub struct Settings {
    /// Saved servers, in the order in which they can be dragged.
    pub rows: Vec<SettingsRow>,
    /// Heading of the form: add a server or edit the selected one.
    pub form_heading: String,
    pub edit_name: String,
    pub edit_addresses: String,
    pub submit_label: String,
    pub can_submit: bool,
    pub can_cancel: bool,
    pub version: String,
    /// Whether looking for a new version is on offer.
    pub can_check: bool,
    pub release_note: String,
    pub release_failed: bool,
    /// Whether a release is being downloaded and installed.
    pub installing: bool,
    /// The release that "Update now" would install, where that is on offer.
    pub update_now: Option<String>,
    pub auto_update: bool,
}

/// What [`Settings`] holds, as text.
pub struct SettingsView {
    pub rows: Seq<SettingsRowView>,
    pub form_heading: Seq<char>,
    pub edit_name: Seq<char>,
    pub edit_addresses: Seq<char>,
    pub submit_label: Seq<char>,
    pub can_submit: bool,
    pub can_cancel: bool,
    pub version: Seq<char>,
    pub can_check: bool,
    pub release_note: Seq<char>,
    pub release_failed: bool,
    pub installing: bool,
    pub update_now: Option<Seq<char>>,
    pub auto_update: bool,
}

impl View for Settings {
    type V = SettingsView;

    open spec fn view(&self) -> SettingsView {
        SettingsView {
            rows: self.rows@.map_values(|r: SettingsRow| r@),
            form_heading: self.form_heading@,
            edit_name: self.edit_name@,
            edit_addresses: self.edit_addresses@,
            submit_label: self.submit_label@,
            can_submit: self.can_submit,
            can_cancel: self.can_cancel,
            version: self.version@,
            can_check: self.can_check,
            release_note: self.release_note@,
            release_failed: self.release_failed,
            installing: self.installing,
            update_now: opt_text(self.update_now),
            auto_update: self.auto_update,
        }
    }
}

/// The rows of the server list in the settings.
pub open spec fn settings_rows(w: WindowView) -> Seq<SettingsRowView> {
    Seq::new(
        w.servers.len(),
        |i: int|
            SettingsRowView {
                name: w.servers[i].name,
                addresses: joined(w.servers[i].addresses, ", "@),
                dragged: w.dragging == Some(i as usize),
            },
    )
}

/// The heading of the form.
pub open spec fn heading_text(w: WindowView) -> Seq<char> {
    if w.editing is Some && w.editing->0 < w.servers.len() {
        "Edit “"@ + w.servers[w.editing->0 as int].name + "”"@
    } else {
        "Add a server"@
    }
}

/// The line about the latest release.
pub open spec fn release_text(w: WindowView) -> Seq<char> {
    match w.release {
        ReleaseView::Unknown => "Not checked yet"@,
        ReleaseView::Checking => "Checking GitHub…"@,
        ReleaseView::UpToDate => "Up to date (v"@ + w.version + ")"@,
        ReleaseView::Available(tag) => tag + " is available"@,
        ReleaseView::Error(e) => "Check failed: "@ + e,
    }
}

/// What the settings panel shows.
pub open spec fn settings_of(w: WindowView) -> SettingsView {
    SettingsView {
        rows: settings_rows(w),
        form_heading: heading_text(w),
        edit_name: w.edit_name,
        edit_addresses: w.edit_addresses,
        submit_label: if w.editing is Some {
            "Save changes"@
        } else {
            "Add server"@
        },
        can_submit: form_entry(w) is Some,
        can_cancel: w.editing is Some,
        version: w.version,
        can_check: !(w.release is Checking) && !w.self_updating,
        release_note: release_text(w),
        release_failed: w.release is Error,
        installing: w.self_updating,
        update_now: match w.release {
            ReleaseView::Available(tag) => if w.self_updating {
                None
            } else {
                Some(tag)
            },
            _ => None,
        },
        auto_update: w.auto_update,
    }
}

fn around(before: &str, middle: &str, after: &str) -> (res: String)
    ensures
        res@ == before@ + middle@ + after@,
{
    let mut res = before.to_string();
    res.append(middle);
    res.append(after);
    res
}

/// What the window holds: the popup, or the settings panel.
#[derive(Debug)]
pub enum Panel {
    Popup(Popup),
    Settings(Settings),
}

/// What a [`Panel`] holds, as text.
pub enum PanelView {
    Popup(PopupView),
    Settings(SettingsView),
}

impl View for Panel {
    type V = PanelView;

    open spec fn view(&self) -> PanelView {
        match self {
            Panel::Popup(popup) => PanelView::Popup(popup@),
            Panel::Settings(settings) => PanelView::Settings(settings@),
        }
    }
}

/// What the window of the applet holds.
pub open spec fn panel_of(w: WindowView) -> PanelView {
    if w.show_settings {
        PanelView::Settings(settings_of(w))
    } else {
        PanelView::Popup(popup_of(w))
    }
}

impl Window {
    /// Whether a custom DNS is forced.
    fn is_custom_on(&self) -> (yes: bool)
        ensures
            yes == custom_on(self@),
    {
        match &self.current {
            Some(state) => state.custom.is_some(),
            None => false,
        }
    }

    /// The saved entry matching the currently forced servers, if any.
    pub fn active_index(&self) -> (at: Option<usize>)
        ensures
            match at {
                Some(i) => i < self.servers.len() && active_entry(self@) == Some(i as int),
                None => active_entry(self@) is None,
            },
    {
        match &self.current {
            Some(state) => match &state.custom {
                Some(custom) => self.find_servers(custom),
                None => None,
            },
            None => None,
        }
    }

    /// The coloured status badge.
    pub fn status_icon(&self) -> (badge: Badge)
        ensures
            badge == badge_of(self@),
    {
        if self.is_custom_on() {
            Badge::Custom
        } else {
            Badge::Router
        }
    }

    /// One-line summary of the current state for the popup header.
    pub fn status_line(&self) -> (line: String)
        ensures
            line@ == status_text(self@),
    {
        if self.applying {
            return "Switching…".to_string();
        }
        match &self.current {
            None => "Reading network state…".to_string(),
            Some(state) => match &state.custom {
                None => "Router default (DHCP)".to_string(),
                Some(servers) => match self.active_index() {
                    Some(i) => "Custom: ".to_string().concat(self.servers[i].name.as_str()),
                    None => "Custom: ".to_string().concat(
                        text::join(servers.as_slice(), ", ").as_str(),
                    ),
                },
            },
        }
    }

    fn list_rows(&self) -> (rows: Vec<ServerRow>)
        ensures
            rows@.map_values(|r: ServerRow| r@) == server_rows(self@),
    {
        let active = self.active_index();
        let ghost all = server_rows(self@);
        let mut rows: Vec<ServerRow> = Vec::new();
        let mut i: usize = 0;
        while i < self.servers.len()
            invariant
                i <= self.servers.len(),
                all == server_rows(self@),
                rows.len() == i,
                match active {
                    Some(k) => active_entry(self@) == Some(k as int),
                    None => active_entry(self@) is None,
                },
                forall|j: int| 0 <= j < i ==> (#[trigger] rows@[j])@ == all[j],
            decreases self.servers.len() - i,
        {
            let entry = &self.servers[i];
            let row = ServerRow {
                name: entry.name.clone(),
                addresses: text::join(entry.addresses.as_slice(), ", "),
                active: match active {
                    Some(k) => k == i,
                    None => false,
                },
            };
            assert(self@.servers[i as int] == entry@);
            assert(row@ == all[i as int]);
            rows.push(row);
            i += 1;
        }
        assert(rows@.map_values(|r: ServerRow| r@) =~= all);
        rows
    }

    fn is_flush_confirmed(&self) -> (yes: bool)
        ensures
            yes == (self@.notice == Some((false, "DNS cache flushed"@))),
    {
        match &self.notice {
            Some((is_error, note)) => !*is_error && text::same_text(
                note.as_str(),
                "DNS cache flushed",
            ),
            None => false,
        }
    }

    /// The popup: the state, the saved servers, the flush row, and captions.
    pub fn popup_view(&self) -> (popup: Popup)
        ensures
            popup@ == popup_of(self@),
    {
        let mut warning: Option<String> = None;
        let mut network: Option<String> = None;
        if let Some(state) = &self.current {
            if let Some(owner) = &state.dns_owner {
                warning = Some(
                    around(
                        "Heads up: “",
                        owner.as_str(),
                        "” (VPN/tunnel) is answering DNS right now — switches apply once it disconnects.",
                    ),
                );
            }
            let front = around("Network: ", state.connection.as_str(), " (");
            network = Some(around(front.as_str(), state.device.as_str(), ")"));
        }
        Popup {
            badge: self.status_icon(),
            status: self.status_line(),
            custom_on: self.is_custom_on(),
            rows: self.list_rows(),
            empty_note: if self.servers.len() == 0 {
                Some("No DNS servers saved — add one in Settings.".to_string())
            } else {
                None
            },
            can_switch: !self.applying,
            flush_label: if self.flushing {
                "Flushing…".to_string()
            } else {
                "Flush DNS cache".to_string()
            },
            can_flush: !self.flushing,
            flush_confirmed: self.is_flush_confirmed(),
            notice: match &self.notice {
                Some((is_error, note)) => Some((*is_error, note.clone())),
                None => None,
            },
            warning,
            network,
        }
    }

    fn list_settings_rows(&self) -> (rows: Vec<SettingsRow>)
        ensures
            rows@.map_values(|r: SettingsRow| r@) == settings_rows(self@),
    {
        let ghost all = settings_rows(self@);
        let mut rows: Vec<SettingsRow> = Vec::new();
        let mut i: usize = 0;
        while i < self.servers.len()
            invariant
                i <= self.servers.len(),
                all == settings_rows(self@),
                rows.len() == i,
                forall|j: int| 0 <= j < i ==> (#[trigger] rows@[j])@ == all[j],
            decreases self.servers.len() - i,
        {
            let entry = &self.servers[i];
            let row = SettingsRow {
                name: entry.name.clone(),
                addresses: text::join(entry.addresses.as_slice(), ", "),
                dragged: match self.dragging {
                    Some(k) => k == i,
                    None => false,
                },
            };
            assert(self@.servers[i as int] == entry@);
            assert(row@ == all[i as int]);
            rows.push(row);
            i += 1;
        }
        assert(rows@.map_values(|r: SettingsRow| r@) =~= all);
        rows
    }

    fn form_heading(&self) -> (res: String)
        ensures
            res@ == heading_text(self@),
    {
        if let Some(i) = self.editing {
            if i < self.servers.len() {
                assert(self@.servers[i as int] == self.servers@[i as int]@);
                return around("Edit “", self.servers[i].name.as_str(), "”");
            }
        }
        "Add a server".to_string()
    }

    fn release_note(&self) -> (res: String)
        ensures
            res@ == release_text(self@),
    {
        match &self.release {
            ReleaseStatus::Unknown => "Not checked yet".to_string(),
            ReleaseStatus::Checking => "Checking GitHub…".to_string(),
            ReleaseStatus::UpToDate => around("Up to date (v", self.version.as_str(), ")"),
            ReleaseStatus::Available(tag) => tag.clone().concat(" is available"),
            ReleaseStatus::Error(e) => "Check failed: ".to_string().concat(e.as_str()),
        }
    }

    /// The settings panel: manage the saved server list, plus the applet's own version /
    /// self-update controls.
    pub fn settings_view(&self) -> (settings: Settings)
        ensures
            settings@ == settings_of(self@),
    {
        let checking = match &self.release {
            ReleaseStatus::Checking => true,
            _ => false,
        };
        let release_failed = match &self.release {
            ReleaseStatus::Error(_) => true,
            _ => false,
        };
        let update_now = match &self.release {
            ReleaseStatus::Available(tag) => if self.self_updating {
                None
            } else {
                Some(tag.clone())
            },
            _ => None,
        };
        Settings {
            rows: self.list_settings_rows(),
            form_heading: self.form_heading(),
            edit_name: self.edit_name.clone(),
            edit_addresses: self.edit_addresses.clone(),
            submit_label: if self.editing.is_some() {
                "Save changes".to_string()
            } else {
                "Add server".to_string()
            },
            can_submit: self.read_form().is_some(),
            can_cancel: self.editing.is_some(),
            version: self.version.clone(),
            can_check: !checking && !self.self_updating,
            release_note: self.release_note(),
            release_failed,
            installing: self.self_updating,
            update_now,
            auto_update: self.auto_update,
        }
    }

    /// The window: the settings panel while it is open, or else the popup.
    pub fn view_window(&self) -> (panel: Panel)
        ensures
            panel@ == panel_of(self@),
    {
        if self.show_settings {
            Panel::Settings(self.settings_view())
        } else {
            Panel::Popup(self.popup_view())
        }
    }
}

} // verus!
