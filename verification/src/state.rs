//! The shared configuration store — the active hotkey binding and the
//! proxy settings — together with the app-level dispatch decisions of the
//! tray menu and the startup flags.

use vstd::prelude::*;
use crate::request::ProxySettings;
use crate::text::str_eq;

verus! {

/// The persistent shared mutable state: the committed hotkey string, the
/// proxy configuration, and the binding currently registered with the OS
/// hotkey subsystem.  Holding the registration as an `Option` keeps the
/// invariant that at most one binding is ever registered.
#[derive(Debug)]
pub struct AppState {
    pub current_shortcut: String,
    pub proxy_settings: Option<ProxySettings>,
    pub registered_binding: Option<String>,
}

impl Default for AppState {
    /// The initial store: the default hotkey, no proxy, nothing registered
    /// yet.
    fn default() -> (r: Self)
        ensures
            r.current_shortcut@ == "CommandOrControl+Shift+X"@,
            r.proxy_settings is None,
            r.registered_binding is None,
    {
        AppState {
            current_shortcut: "CommandOrControl+Shift+X".to_owned(),
            proxy_settings: None,
            registered_binding: None,
        }
    }
}

impl AppState {
    /// Unconditionally replaces the stored proxy configuration; invalid
    /// configurations are discovered lazily at the next dispatch.
    pub fn set_proxy(&mut self, settings: ProxySettings)
        ensures
            final(self).proxy_settings == Some(settings),
            final(self).current_shortcut == old(self).current_shortcut,
            final(self).registered_binding == old(self).registered_binding,
    {
        self.proxy_settings = Some(settings);
    }

    /// Rebinds the global hotkey.  `parse_result` is the outcome of parsing
    /// the new binding string and `register_result` the outcome of the OS
    /// registration that is attempted only after a successful parse.  A
    /// parse failure aborts the update before anything changes, so the
    /// previously active binding stays registered and triggerable; the
    /// commit of the new string happens only after successful registration.
    pub fn update_shortcut(
        &mut self,
        shortcut: String,
        parse_result: Result<(), String>,
        register_result: Result<(), String>,
    ) -> (r: Result<bool, String>)
        ensures
            (parse_result matches Err(m) ==> (r matches Err(e) && e == m)
                && final(self).current_shortcut == old(self).current_shortcut && final(self).registered_binding == old(self).registered_binding),
            parse_result is Ok ==> (register_result matches Err(m) ==> ((r matches Err(e) && e == m)
                && final(self).current_shortcut == old(self).current_shortcut
                && final(self).registered_binding is None)),
            parse_result is Ok && register_result is Ok ==> (r matches Ok(b0) && b0 == true) && final(self).current_shortcut == shortcut && (final(self).registered_binding matches Some(b) && b
                == shortcut),
            final(self).proxy_settings == old(self).proxy_settings,
    {
        match parse_result {
            Err(m) => Err(m),
            Ok(()) => {
                // the old binding is unregistered before the new one goes in
                self.registered_binding = None;
                match register_result {
                    Err(m) => Err(m),
                    Ok(()) => {
                        self.registered_binding = Some(shortcut.clone());
                        self.current_shortcut = shortcut;
                        Ok(true)
                    },
                }
            },
        }
    }

    /// Registers the stored binding at startup; a parse or registration
    /// failure reports the error and leaves the store untouched.
    pub fn setup_global_shortcut(
        &mut self,
        parse_result: Result<(), String>,
        register_result: Result<(), String>,
    ) -> (r: Result<(), String>)
        ensures
            (parse_result matches Err(m) ==> (r matches Err(e) && e == m) && *final(self) == *old(self)),
            parse_result is Ok ==> (register_result matches Err(m) ==> ((r matches Err(e) && e == m)
                && *final(self) == *old(self))),
            parse_result is Ok && register_result is Ok ==> r is Ok && (final(self).registered_binding matches Some(b) && b == old(self).current_shortcut) && final(self).current_shortcut == old(self).current_shortcut && final(self).proxy_settings == old(self).proxy_settings,
    {
        match parse_result {
            Err(m) => Err(m),
            Ok(()) => match register_result {
                Err(m) => Err(m),
                Ok(()) => {
                    self.registered_binding = Some(self.current_shortcut.clone());
                    Ok(())
                },
            },
        }
    }
}

/// The startup flags that suppress showing the main surface on launch.
pub open spec fn hides_on_start(args: Seq<String>) -> bool {
    exists|i: int|
        0 <= i < args.len() && (args[i]@ == "--hidden"@ || args[i]@ == "--autostart"@)
}

/// Whether the launch arguments ask for a hidden start.
pub fn should_start_hidden(args: &Vec<String>) -> (r: bool)
    ensures
        r == hides_on_start(args@),
{
    let mut i: usize = 0;
    while i < args.len()
        invariant
            0 <= i <= args@.len(),
            forall|k: int|
                0 <= k < i ==> args@[k]@ != "--hidden"@ && args@[k]@ != "--autostart"@,
        decreases args@.len() - i,
    {
        if str_eq(args[i].as_str(), "--hidden") || str_eq(args[i].as_str(), "--autostart") {
            return true;
        }
        i += 1;
    }
    false
}

/// What a tray menu selection asks the shell to do.
#[derive(Clone, Copy, Debug, PartialEq, Eq, Structural)]
pub enum TrayAction {
    ShowMain,
    OpenSettings,
    OcrCapture,
    Quit,
    Ignore,
}

/// The action a tray menu identifier selects.
pub open spec fn tray_action_of(id: Seq<char>) -> TrayAction {
    if id == "show"@ {
        TrayAction::ShowMain
    } else if id == "settings"@ {
        TrayAction::OpenSettings
    } else if id == "ocr"@ {
        TrayAction::OcrCapture
    } else if id == "quit"@ {
        TrayAction::Quit
    } else {
        TrayAction::Ignore
    }
}

/// Dispatches a tray menu event by its identifier; unknown identifiers are
/// ignored.
pub fn tray_action(id: &str) -> (r: TrayAction)
    ensures
        r == tray_action_of(id@),
{
    if str_eq(id, "show") {
        TrayAction::ShowMain
    } else if str_eq(id, "settings") {
        TrayAction::OpenSettings
    } else if str_eq(id, "ocr") {
        TrayAction::OcrCapture
    } else if str_eq(id, "quit") {
        TrayAction::Quit
    } else {
        TrayAction::Ignore
    }
}

} // verus!
