use crate::port_enum::types::PortEntry;
use vstd::prelude::*;

verus! {

/// Commands the user interface and the tray send to the application loop.
#[derive(Debug, Clone, Copy)]
pub enum UiCommand {
    ToggleWindow,
    ShowWindow,
    HideWindow,
    Refresh,
    Kill { pid: u32, force: bool },
    Quit,
}

/// The window's visibility and whether the user asked to quit.
#[derive(Debug, Clone, Copy)]
pub struct WindowFlags {
    pub window_visible: bool,
    /// Set by Quit: from then on closing the window really exits.
    pub quitting: bool,
}

/// The work a command leaves for the application loop.
#[derive(Debug, Clone, Copy)]
pub enum UiEffect {
    /// Wake the scanner for an immediate rescan.
    Refresh,
    /// Stop process `pid` (forcefully when `force`), then rescan if that worked.
    Kill { pid: u32, force: bool },
    /// Redraw the window.
    Repaint,
    /// Close the window and exit.
    Close,
}

/// The flags after a command.
pub open spec fn flags_after(flags: WindowFlags, cmd: UiCommand) -> WindowFlags {
    match cmd {
        UiCommand::ToggleWindow => WindowFlags { window_visible: !flags.window_visible, ..flags },
        UiCommand::ShowWindow => WindowFlags { window_visible: true, ..flags },
        UiCommand::HideWindow => WindowFlags { window_visible: false, ..flags },
        UiCommand::Quit => WindowFlags { quitting: true, ..flags },
        _ => flags,
    }
}

/// The effect of a command.
pub open spec fn effect_of(cmd: UiCommand) -> UiEffect {
    match cmd {
        UiCommand::Refresh => UiEffect::Refresh,
        UiCommand::Kill { pid, force } => UiEffect::Kill { pid, force },
        UiCommand::Quit => UiEffect::Close,
        _ => UiEffect::Repaint,
    }
}

/// Applies one command to the window flags and says what is left to do.
pub fn handle_command(flags: &mut WindowFlags, cmd: UiCommand) -> (effect: UiEffect)
    ensures
        *final(flags) == flags_after(*old(flags), cmd),
        effect == effect_of(cmd),
{
    match cmd {
        UiCommand::Refresh => UiEffect::Refresh,
        UiCommand::Kill { pid, force } => UiEffect::Kill { pid, force },
        UiCommand::ToggleWindow => {
            flags.window_visible = !flags.window_visible;
            UiEffect::Repaint
        },
        UiCommand::ShowWindow => {
            flags.window_visible = true;
            UiEffect::Repaint
        },
        UiCommand::HideWindow => {
            flags.window_visible = false;
            UiEffect::Repaint
        },
        UiCommand::Quit => {
            flags.quitting = true;
            UiEffect::Close
        },
    }
}

/// The window's close button was pressed. Unless the user chose Quit, closing
/// only hides the window (the application keeps running in the tray); the
/// result says whether to cancel the close.
pub fn on_close_request(flags: &mut WindowFlags) -> (cancel: bool)
    ensures
        cancel == !old(flags).quitting,
        final(flags).quitting == old(flags).quitting,
        final(flags).window_visible == (old(flags).window_visible && old(flags).quitting),
{
    if !flags.quitting {
        flags.window_visible = false;
        true
    } else {
        false
    }
}

/// What each command asks the application loop to do: Refresh rescans; a
/// Kill stops exactly the process it names, as forcefully as it asks (so a
/// plain click stays a polite termination); Quit closes; the window commands
/// only redraw.
pub proof fn law_command_effects(pid: u32, force: bool)
    ensures
        effect_of(UiCommand::Kill { pid, force }) == (UiEffect::Kill { pid, force }),
        effect_of(UiCommand::Refresh) == UiEffect::Refresh,
        effect_of(UiCommand::Quit) == UiEffect::Close,
        effect_of(UiCommand::ToggleWindow) == UiEffect::Repaint,
        effect_of(UiCommand::ShowWindow) == UiEffect::Repaint,
        effect_of(UiCommand::HideWindow) == UiEffect::Repaint,
{
}

/// How the window commands change the flags: Show makes the window visible
/// and Hide hides it whatever it was, Toggle flips it, and only Quit touches
/// `quitting` (setting it, and leaving the window as it was). Refresh and Kill
/// change nothing.
pub proof fn law_window_commands(f: WindowFlags, pid: u32, force: bool)
    ensures
        flags_after(f, UiCommand::ShowWindow).window_visible,
        !flags_after(f, UiCommand::HideWindow).window_visible,
        flags_after(f, UiCommand::ToggleWindow).window_visible == !f.window_visible,
        flags_after(f, UiCommand::ShowWindow).quitting == f.quitting,
        flags_after(f, UiCommand::HideWindow).quitting == f.quitting,
        flags_after(f, UiCommand::ToggleWindow).quitting == f.quitting,
        flags_after(f, UiCommand::Quit).quitting,
        flags_after(f, UiCommand::Quit).window_visible == f.window_visible,
        flags_after(f, UiCommand::Refresh) == f,
        flags_after(f, UiCommand::Kill { pid, force }) == f,
{
}

/// Toggling the window twice leaves it as it was.
pub proof fn law_toggle_twice(flags: WindowFlags)
    ensures
        flags_after(flags_after(flags, UiCommand::ToggleWindow), UiCommand::ToggleWindow) == flags,
{
}

/// Once the user chose Quit, no command takes it back.
pub proof fn law_quit_is_final(flags: WindowFlags, cmd: UiCommand)
    requires
        flags.quitting,
    ensures
        flags_after(flags, cmd).quitting,
{
}

/// Only Quit closes the window; every other command leaves the application
/// running.
pub proof fn law_only_quit_closes(cmd: UiCommand)
    ensures
        (effect_of(cmd) is Close) <==> (cmd is Quit),
{
}

/// The Kill command for a row, if its process may be killed: only the current
/// user's own processes can be killed; Shift asks for a forced kill.
pub fn kill_command(entry: &PortEntry, shift: bool) -> (cmd: Option<UiCommand>)
    ensures
        cmd is Some <==> entry.is_current_user,
        cmd is Some ==> cmd->Some_0 == (UiCommand::Kill { pid: entry.pid, force: shift }),
{
    if entry.is_current_user {
        Some(UiCommand::Kill { pid: entry.pid, force: shift })
    } else {
        None
    }
}

/// The items of the tray icon's menu.
#[derive(Debug, Clone, Copy)]
pub enum TrayMenuItem {
    ShowHide,
    Refresh,
    Settings,
    Quit,
}

/// The command a tray menu item sends: Show / Hide toggles the window,
/// Settings shows it, Refresh and Quit do what they say.
pub fn menu_command(item: TrayMenuItem) -> (cmd: UiCommand)
    ensures
        cmd == match item {
            TrayMenuItem::ShowHide => UiCommand::ToggleWindow,
            TrayMenuItem::Refresh => UiCommand::Refresh,
            TrayMenuItem::Settings => UiCommand::ShowWindow,
            TrayMenuItem::Quit => UiCommand::Quit,
        },
{
    match item {
        TrayMenuItem::ShowHide => UiCommand::ToggleWindow,
        TrayMenuItem::Refresh => UiCommand::Refresh,
        TrayMenuItem::Settings => UiCommand::ShowWindow,
        TrayMenuItem::Quit => UiCommand::Quit,
    }
}

/// A mouse button, as tray click events report it.
#[derive(Debug, Clone, Copy)]
pub enum ClickButton {
    Left,
    Right,
    Middle,
}

/// Whether a click event is the button going down or coming up.
#[derive(Debug, Clone, Copy)]
pub enum ClickPhase {
    Down,
    Up,
}

/// The command a click on the tray icon sends: the left button coming up
/// toggles the window (once per click); every other click event does nothing.
pub fn tray_click_command(button: ClickButton, phase: ClickPhase) -> (cmd: Option<UiCommand>)
    ensures
        cmd == if button is Left && phase is Up {
            Some(UiCommand::ToggleWindow)
        } else {
            None::<UiCommand>
        },
{
    match (button, phase) {
        (ClickButton::Left, ClickPhase::Up) => Some(UiCommand::ToggleWindow),
        _ => None,
    }
}

/// The port list the window shows, with the last scan error if any.
#[derive(Debug)]
pub struct PortList {
    pub ports: Vec<PortEntry>,
    pub last_error: Option<String>,
}

impl PortList {
    /// An empty list with no error.
    pub fn new() -> (list: PortList)
        ensures
            list.ports@.len() == 0,
            list.last_error is None,
    {
        PortList { ports: Vec::new(), last_error: None }
    }

    /// Records the outcome of a scan. A successful scan replaces the list and
    /// clears the error; a failed one keeps the previous list on screen and
    /// records the error message.
    pub fn record_scan(&mut self, outcome: Result<Vec<PortEntry>, String>)
        ensures
            match outcome {
                Ok(shown) => {
                    &&& final(self).ports@ == shown@
                    &&& final(self).last_error is None
                },
                Err(msg) => {
                    &&& final(self).ports@ == old(self).ports@
                    &&& final(self).last_error == Some(msg)
                },
            },
    {
        match outcome {
            Ok(shown) => {
                self.ports = shown;
                self.last_error = None;
            },
            Err(msg) => {
                self.last_error = Some(msg);
            },
        }
    }

    /// Records the outcome of killing process `pid` and says whether to
    /// rescan. A failed kill records the error `"Kill {pid} failed: {error}"`
    /// and asks for no rescan; a successful one asks for a rescan. The port
    /// list itself is left alone either way.
    pub fn record_kill(&mut self, pid: u32, outcome: Result<(), String>) -> (rescan: bool)
        ensures
            final(self).ports@ == old(self).ports@,
            rescan == outcome is Ok,
            match outcome {
                Ok(_) => final(self).last_error == old(self).last_error,
                Err(e) => final(self).last_error is Some
                    && final(self).last_error->Some_0@ == kill_failure_text(pid as nat, e@),
            },
    {
        match outcome {
            Ok(()) => true,
            Err(e) => {
                let mut msg = String::new();
                msg.append("Kill ");
                append_decimal(&mut msg, pid);
                msg.append(" failed: ");
                msg.append(e.as_str());
                proof {
                    reveal_strlit("Kill ");
                    reveal_strlit(" failed: ");
                }
                self.last_error = Some(msg);
                false
            },
        }
    }
}

/// The decimal digit character for `d` (below ten).
pub open spec fn digit_char(d: nat) -> char {
    (48 + d) as char
}

/// The decimal notation of `n`, without leading zeros.
pub open spec fn decimal(n: nat) -> Seq<char>
    decreases n,
{
    if n < 10 {
        seq![digit_char(n)]
    } else {
        decimal(n / 10).push(digit_char(n % 10))
    }
}

/// The number a string of decimal digits denotes.
pub open spec fn decimal_value(s: Seq<char>) -> int
    decreases s.len(),
{
    if s.len() == 0 {
        0
    } else {
        decimal_value(s.drop_last()) * 10 + (s.last() as int - 48)
    }
}

/// `decimal(n)` is the usual decimal notation of `n`: a non-empty string of
/// the digits `'0'..='9'`, without a leading zero unless it is `"0"`, that
/// denotes `n`.
pub proof fn law_decimal(n: nat)
    ensures
        decimal(n).len() >= 1,
        forall|i: int| 0 <= i < decimal(n).len() ==> '0' <= #[trigger] decimal(n)[i] <= '9',
        decimal_value(decimal(n)) == n,
        decimal(n)[0] == '0' ==> n == 0,
        decimal(n).len() > 1 ==> decimal(n)[0] != '0',
        n == 0 ==> decimal(n) == seq!['0'],
    decreases n,
{
    let d = n % 10;
    assert((digit_char(d) as int) == 48 + d);
    if n >= 10 {
        law_decimal(n / 10);
        let s = decimal(n);
        let t = decimal(n / 10);
        assert(s == t.push(digit_char(d)));
        assert(s.drop_last() =~= t);
        assert forall|i: int| 0 <= i < s.len() implies '0' <= #[trigger] s[i] <= '9' by {
            if i < t.len() {
                assert(s[i] == t[i]);
            }
        }
        assert(s[0] == t[0]);
        assert(s.last() == digit_char(d));
        assert(decimal_value(s) == decimal_value(t) * 10 + d);
        assert(n == (n / 10) * 10 + d);
    } else {
        assert(decimal(n) == seq![digit_char(n)]);
        assert(decimal(n).drop_last() =~= Seq::<char>::empty());
        assert(decimal(n)[0] == digit_char(n));
        assert(decimal_value(decimal(n)) == decimal_value(Seq::<char>::empty()) * 10 + (digit_char(n) as int - 48));
    }
}

/// The message shown when killing process `pid` failed with `error`.
pub open spec fn kill_failure_text(pid: nat, error: Seq<char>) -> Seq<char> {
    "Kill "@ + decimal(pid) + " failed: "@ + error
}

fn digit_str(d: u32) -> (s: &'static str)
    requires
        d < 10,
    ensures
        s@ == seq![digit_char(d as nat)],
{
    proof {
        reveal_strlit("0");
        reveal_strlit("1");
        reveal_strlit("2");
        reveal_strlit("3");
        reveal_strlit("4");
        reveal_strlit("5");
        reveal_strlit("6");
        reveal_strlit("7");
        reveal_strlit("8");
        reveal_strlit("9");
    }
    match d {
        0 => "0",
        1 => "1",
        2 => "2",
        3 => "3",
        4 => "4",
        5 => "5",
        6 => "6",
        7 => "7",
        8 => "8",
        _ => "9",
    }
}

/// Appends the decimal notation of `n` to `s`.
fn append_decimal(s: &mut String, n: u32)
    ensures
        final(s)@ == old(s)@ + decimal(n as nat),
    decreases n,
{
    if n >= 10 {
        append_decimal(s, n / 10);
    }
    s.append(digit_str(n % 10));
    assert(s@ =~= old(s)@ + decimal(n as nat));
}

/// How long the operating system's theme is trusted before asking again.
pub const THEME_RECHECK_MS: u64 = 1000;

/// How long settings must stay unchanged before they are saved.
pub const SETTINGS_SAVE_DELAY_MS: u64 = 500;

/// Whether to ask the operating system for its theme again, given the time
/// since the last check (`None`: never checked).
pub fn theme_check_due(since_last_check_ms: Option<u64>) -> (due: bool)
    ensures
        due == match since_last_check_ms {
            None => true,
            Some(ms) => ms >= THEME_RECHECK_MS,
        },
{
    match since_last_check_ms {
        None => true,
        Some(ms) => ms >= THEME_RECHECK_MS,
    }
}

/// The visuals to switch to, if any: the wanted mode when it is known and
/// differs from the one applied last.
pub fn visuals_switch(current_dark: Option<bool>, want_dark: Option<bool>) -> (switch_to: Option<bool>)
    ensures
        switch_to == match want_dark {
            Some(w) => if current_dark == Some(w) {
                None::<bool>
            } else {
                Some(w)
            },
            None => None::<bool>,
        },
{
    match want_dark {
        Some(w) => {
            let same = match current_dark {
                Some(c) => c == w,
                None => false,
            };
            if same {
                None
            } else {
                Some(w)
            }
        },
        None => None,
    }
}

/// Whether edited settings have rested long enough to be saved.
pub fn settings_save_due(since_change_ms: u64) -> (due: bool)
    ensures
        due == (since_change_ms >= SETTINGS_SAVE_DELAY_MS),
{
    since_change_ms >= SETTINGS_SAVE_DELAY_MS
}

} // verus!
