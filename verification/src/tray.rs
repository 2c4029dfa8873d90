//! The tray icon: what it shows and what a click on it does.

use vstd::prelude::*;

use crate::config::{Settings, SettingsView};
use crate::protocol::{RuntimeState, RuntimeView};
use crate::text::optional;

verus! {

/// What the tray icon knows of the daemon.
#[derive(Debug)]
pub struct WaywarmTray {
    pub enabled: bool,
    pub automatic: bool,
    pub conflict: Option<String>,
    pub should_quit: bool,
}

/// What the tray icon knows, with texts as sequences of characters.
pub struct TrayView {
    pub enabled: bool,
    pub automatic: bool,
    pub conflict: Option<Seq<char>>,
    pub should_quit: bool,
}

impl View for WaywarmTray {
    type V = TrayView;

    open spec fn view(&self) -> TrayView {
        TrayView {
            enabled: self.enabled,
            automatic: self.automatic,
            conflict: optional(self.conflict),
            should_quit: self.should_quit,
        }
    }
}

/// What the tray icon knows of a state of the daemon.
pub open spec fn seen(tray: TrayView, state: RuntimeView) -> TrayView {
    TrayView {
        enabled: state.settings.enabled,
        automatic: state.settings.automatic,
        conflict: state.conflict,
        ..tray
    }
}

/// What a menu item does.
#[derive(Clone, Copy, Debug, PartialEq, Eq, Structural)]
pub enum MenuAction {
    ToggleFilter,
    OpenSettings,
    Quit,
}

/// An item of the menu.
#[derive(Clone, Copy, Debug)]
pub enum MenuItem {
    Entry { label: &'static str, icon: &'static str, action: MenuAction },
    Separator,
}

/// An item of the menu, with texts as sequences of characters.
pub enum MenuItemView {
    Entry { label: Seq<char>, icon: Seq<char>, action: MenuAction },
    Separator,
}

impl View for MenuItem {
    type V = MenuItemView;

    open spec fn view(&self) -> MenuItemView {
        match *self {
            MenuItem::Entry { label, icon, action } => MenuItemView::Entry {
                label: label@,
                icon: icon@,
                action,
            },
            MenuItem::Separator => MenuItemView::Separator,
        }
    }
}

/// The items of a menu.
pub open spec fn menu_views(items: Seq<MenuItem>) -> Seq<MenuItemView> {
    Seq::new(items.len(), |i: int| items[i]@)
}

/// The menu of the tray icon.
pub open spec fn tray_menu(tray: TrayView) -> Seq<MenuItemView> {
    seq![
        MenuItemView::Entry {
            label: if tray.enabled {
                "Disable filter"@
            } else {
                "Enable filter"@
            },
            icon: ""@,
            action: MenuAction::ToggleFilter,
        },
        MenuItemView::Entry {
            label: "Open settings"@,
            icon: "preferences-system"@,
            action: MenuAction::OpenSettings,
        },
        MenuItemView::Separator,
        MenuItemView::Entry {
            label: "Quit tray"@,
            icon: "application-exit"@,
            action: MenuAction::Quit,
        },
    ]
}

/// The icon of the tray.
pub open spec fn tray_icon(tray: TrayView) -> Seq<char> {
    if tray.enabled {
        "weather-clear-night"@
    } else {
        "weather-clear"@
    }
}

/// The description of the tray icon.
pub open spec fn tray_description(tray: TrayView) -> Seq<char> {
    let filter = if tray.enabled {
        "on"@
    } else {
        "off"@
    };
    let mode = if tray.automatic {
        "automatic"@
    } else {
        "manual"@
    };
    let text = "Filter "@ + filter + " · "@ + mode;
    match tray.conflict {
        Some(conflict) => text + "\n"@ + conflict,
        None => text,
    }
}

/// The settings with the filter turned on or off, whichever it is not.
pub fn toggled_settings(state: RuntimeState) -> (settings: Settings)
    ensures
        settings@ == (SettingsView {
            enabled: !state@.settings.enabled,
            ..state@.settings
        }),
{
    let mut settings: Settings = state.settings;
    settings.enabled = !settings.enabled;
    settings
}

impl WaywarmTray {
    /// The tray icon of a daemon.
    pub fn new(state: RuntimeState) -> (tray: Self)
        ensures
            tray@ == (TrayView {
                enabled: state@.settings.enabled,
                automatic: state@.settings.automatic,
                conflict: state@.conflict,
                should_quit: false,
            }),
    {
        WaywarmTray {
            enabled: state.settings.enabled,
            automatic: state.settings.automatic,
            conflict: state.conflict,
            should_quit: false,
        }
    }

    /// Takes in the daemon's state, if it answered. What was known last stays otherwise, and the
    /// description says that the daemon is out of reach.
    pub fn refresh_from_daemon(&mut self, answer: Option<RuntimeState>)
        ensures
            final(self)@ == (match answer {
                Some(state) => seen(old(self)@, state@),
                None => TrayView { conflict: Some("daemon unreachable"@), ..old(self)@ },
            }),
    {
        match answer {
            Some(state) => {
                self.enabled = state.settings.enabled;
                self.automatic = state.settings.automatic;
                self.conflict = state.conflict;
            },
            None => {
                self.conflict = Some("daemon unreachable".to_owned());
            },
        }
    }

    /// Takes in what the daemon answered to settings with the filter toggled.
    pub fn finish_toggle(&mut self, answer: Result<RuntimeState, String>)
        ensures
            final(self)@ == (match answer {
                Ok(state) => seen(old(self)@, state@),
                Err(error) => TrayView {
                    conflict: Some("toggle failed: "@ + error@),
                    ..old(self)@
                },
            }),
    {
        match answer {
            Ok(state) => {
                self.enabled = state.settings.enabled;
                self.automatic = state.settings.automatic;
                self.conflict = state.conflict;
            },
            Err(error) => {
                let mut text: String = "toggle failed: ".to_owned();
                text.append(error.as_str());
                self.conflict = Some(text);
            },
        }
    }

    /// Ends the tray icon.
    pub fn quit(&mut self)
        ensures
            final(self)@ == (TrayView { should_quit: true, ..old(self)@ }),
    {
        self.should_quit = true;
    }

    pub fn icon_name(&self) -> (name: &'static str)
        ensures
            name@ == tray_icon(self@),
    {
        if self.enabled {
            "weather-clear-night"
        } else {
            "weather-clear"
        }
    }

    /// Whether the icon asks for attention.
    pub fn needs_attention(&self) -> (r: bool)
        ensures
            r == (self@.conflict is Some),
    {
        self.conflict.is_some()
    }

    pub fn description(&self) -> (text: String)
        ensures
            text@ == tray_description(self@),
    {
        let mut text: String = "Filter ".to_owned();
        text.append(
            if self.enabled {
                "on"
            } else {
                "off"
            },
        );
        text.append(" · ");
        text.append(
            if self.automatic {
                "automatic"
            } else {
                "manual"
            },
        );
        if let Some(conflict) = &self.conflict {
            text.append("\n");
            text.append(conflict.as_str());
        }
        text
    }

    pub fn menu(&self) -> (items: Vec<MenuItem>)
        ensures
            menu_views(items@) == tray_menu(self@),
    {
        let filter_label: &'static str = if self.enabled {
            "Disable filter"
        } else {
            "Enable filter"
        };
        let items: Vec<MenuItem> = vec![
            MenuItem::Entry { label: filter_label, icon: "", action: MenuAction::ToggleFilter },
            MenuItem::Entry {
                label: "Open settings",
                icon: "preferences-system",
                action: MenuAction::OpenSettings,
            },
            MenuItem::Separator,
            MenuItem::Entry {
                label: "Quit tray",
                icon: "application-exit",
                action: MenuAction::Quit,
            },
        ];
        proof {
            assert(menu_views(items@) =~= tray_menu(self@));
        }
        items
    }
}

// ── what the icon tells ──────────────────────────────────────────────────────

/// The tray icon follows the daemon's switch, its mode and its conflict.
pub proof fn the_icon_follows_the_daemon(tray: TrayView, state: RuntimeView)
    ensures
        seen(tray, state).enabled == state.settings.enabled,
        seen(tray, state).automatic == state.settings.automatic,
        seen(tray, state).conflict == state.conflict,
        seen(tray, state).should_quit == tray.should_quit,
{
}

/// The first item of the menu turns the switch round and is called after what it does; the second
/// opens the settings; the last one quits. The icon tells whether the filter is on.
pub proof fn the_menu_offers_the_other_state(tray: TrayView)
    ensures
        ({
            let menu = tray_menu(tray);
            &&& menu.len() == 4
            &&& menu[0] matches MenuItemView::Entry { label, action, .. } && action
                == MenuAction::ToggleFilter && label == (if tray.enabled {
                "Disable filter"@
            } else {
                "Enable filter"@
            })
            &&& menu[1] matches MenuItemView::Entry { label, icon, action } && action
                == MenuAction::OpenSettings && label == "Open settings"@ && icon
                == "preferences-system"@
            &&& menu[2] is Separator
            &&& menu[3] matches MenuItemView::Entry { label, icon, action } && action
                == MenuAction::Quit && label == "Quit tray"@ && icon == "application-exit"@
        }),
        tray.enabled ==> tray_icon(tray) == "weather-clear-night"@,
        !tray.enabled ==> tray_icon(tray) == "weather-clear"@,
{
}

/// The description tells of the switch and the mode, and of the conflict on a line of its own.
pub proof fn the_description_tells_of_the_state(tray: TrayView)
    ensures
        tray.conflict is None ==> tray_description(tray) == "Filter "@ + (if tray.enabled {
            "on"@
        } else {
            "off"@
        }) + " · "@ + (if tray.automatic {
            "automatic"@
        } else {
            "manual"@
        }),
        tray.conflict matches Some(conflict) ==> tray_description(tray) == tray_description(
            TrayView { conflict: None, ..tray },
        ) + "\n"@ + conflict,
{
}

}
