//! The power menu.
use crate::text::texts;
use vstd::prelude::*;

verus! {

pub const ICON_LOCK: &'static str = "\u{f033e}";

pub const ICON_LOGOUT: &'static str = "\u{f0343}";

pub const ICON_REBOOT: &'static str = "\u{f0709}";

pub const ICON_POWER: &'static str = "\u{f0425}";

#[derive(Clone, Copy, Debug, PartialEq, Eq, Structural)]
pub enum PowerAction {
    Lock,
    Logout,
    Reboot,
    PowerOff,
}

impl PowerAction {
    pub fn label(self) -> (r: &'static str)
        ensures
            r@ == (match self {
                PowerAction::Lock => "Lock"@,
                PowerAction::Logout => "Log Out"@,
                PowerAction::Reboot => "Reboot"@,
                PowerAction::PowerOff => "Shut Down"@,
            }),
    {
        match self {
            PowerAction::Lock => "Lock",
            PowerAction::Logout => "Log Out",
            PowerAction::Reboot => "Reboot",
            PowerAction::PowerOff => "Shut Down",
        }
    }

    pub fn tooltip(self) -> (r: &'static str)
        ensures
            r@ == (match self {
                PowerAction::Lock => "Lock session"@,
                PowerAction::Logout => "Log out of Niri"@,
                PowerAction::Reboot => "Reboot system"@,
                PowerAction::PowerOff => "Shut down system"@,
            }),
    {
        match self {
            PowerAction::Lock => "Lock session",
            PowerAction::Logout => "Log out of Niri",
            PowerAction::Reboot => "Reboot system",
            PowerAction::PowerOff => "Shut down system",
        }
    }

    pub fn icon(self) -> (r: &'static str)
        ensures
            r@ == (match self {
                PowerAction::Lock => ICON_LOCK@,
                PowerAction::Logout => ICON_LOGOUT@,
                PowerAction::Reboot => ICON_REBOOT@,
                PowerAction::PowerOff => ICON_POWER@,
            }),
    {
        match self {
            PowerAction::Lock => ICON_LOCK,
            PowerAction::Logout => ICON_LOGOUT,
            PowerAction::Reboot => ICON_REBOOT,
            PowerAction::PowerOff => ICON_POWER,
        }
    }

    /// The program that does it.
    pub fn program(self) -> (r: &'static str)
        ensures
            r@ == (match self {
                PowerAction::Lock => "hyprlock"@,
                PowerAction::Logout => "niri"@,
                PowerAction::Reboot => "systemctl"@,
                PowerAction::PowerOff => "systemctl"@,
            }),
    {
        match self {
            PowerAction::Lock => "hyprlock",
            PowerAction::Logout => "niri",
            PowerAction::Reboot => "systemctl",
            PowerAction::PowerOff => "systemctl",
        }
    }

    /// The arguments that the program is called with.
    pub fn arguments(self) -> (r: Vec<String>)
        ensures
            texts(r@) == (match self {
                PowerAction::Lock => Seq::<Seq<char>>::empty(),
                PowerAction::Logout => seq!["msg"@, "action"@, "quit"@, "--skip-confirmation"@],
                PowerAction::Reboot => seq!["reboot"@],
                PowerAction::PowerOff => seq!["poweroff"@],
            }),
    {
        let mut out: Vec<String> = Vec::new();
        match self {
            PowerAction::Lock => {
                assert(texts(out@) =~= Seq::<Seq<char>>::empty());
            },
            PowerAction::Logout => {
                out.push("msg".to_owned());
                out.push("action".to_owned());
                out.push("quit".to_owned());
                out.push("--skip-confirmation".to_owned());
                assert(texts(out@) =~= seq!["msg"@, "action"@, "quit"@, "--skip-confirmation"@]);
            },
            PowerAction::Reboot => {
                out.push("reboot".to_owned());
                assert(texts(out@) =~= seq!["reboot"@]);
            },
            PowerAction::PowerOff => {
                out.push("poweroff".to_owned());
                assert(texts(out@) =~= seq!["poweroff"@]);
            },
        }
        out
    }
}

/// What each action of the power menu runs, and that no two run the same.
pub proof fn power_actions_run_their_own_program(
    action: PowerAction,
    program: &'static str,
    arguments: Vec<String>,
    label: &'static str,
)
    requires
        call_ensures(PowerAction::program, (action,), program),
        call_ensures(PowerAction::arguments, (action,), arguments),
        call_ensures(PowerAction::label, (action,), label),
    ensures
        (program@ == "hyprlock"@ && arguments@.len() == 0) == (action is Lock),
        (program@ == "niri"@ && texts(arguments@) == seq![
            "msg"@,
            "action"@,
            "quit"@,
            "--skip-confirmation"@,
        ]) == (action is Logout),
        (program@ == "systemctl"@ && texts(arguments@) == seq!["reboot"@]) == (action is Reboot),
        (program@ == "systemctl"@ && texts(arguments@) == seq!["poweroff"@]) == (
        action is PowerOff),
        (label@ == "Lock"@) == (action is Lock),
        (label@ == "Log Out"@) == (action is Logout),
        (label@ == "Reboot"@) == (action is Reboot),
        (label@ == "Shut Down"@) == (action is PowerOff),
{
    reveal_strlit("hyprlock");
    reveal_strlit("niri");
    reveal_strlit("systemctl");
    reveal_strlit("reboot");
    reveal_strlit("poweroff");
    reveal_strlit("Lock");
    reveal_strlit("Log Out");
    reveal_strlit("Reboot");
    reveal_strlit("Shut Down");
    assert("hyprlock"@.len() == 8 && "niri"@.len() == 4 && "systemctl"@.len() == 9);
    assert("reboot"@.len() == 6 && "poweroff"@.len() == 8);
    assert("Lock"@.len() == 4 && "Log Out"@.len() == 7 && "Reboot"@.len() == 6 && "Shut Down"@.len()
        == 9);
    let list = texts(arguments@);
    assert(list.len() == arguments@.len());
    assert(seq!["reboot"@][0] != seq!["poweroff"@][0]);
    if action is Lock {
        assert(list =~= Seq::<Seq<char>>::empty());
    }
}

/// Each action of the power menu has its own icon and says what it does.
pub proof fn power_actions_look_like_themselves(
    action: PowerAction,
    icon: &'static str,
    tip: &'static str,
)
    requires
        call_ensures(PowerAction::icon, (action,), icon),
        call_ensures(PowerAction::tooltip, (action,), tip),
    ensures
        (icon@ == "\u{f033e}"@) == (action is Lock),
        (icon@ == "\u{f0343}"@) == (action is Logout),
        (icon@ == "\u{f0709}"@) == (action is Reboot),
        (icon@ == "\u{f0425}"@) == (action is PowerOff),
        (tip@ == "Lock session"@) == (action is Lock),
        (tip@ == "Log out of Niri"@) == (action is Logout),
        (tip@ == "Reboot system"@) == (action is Reboot),
        (tip@ == "Shut down system"@) == (action is PowerOff),
{
    reveal_strlit("\u{f033e}");
    reveal_strlit("\u{f0343}");
    reveal_strlit("\u{f0709}");
    reveal_strlit("\u{f0425}");
    reveal_strlit("Lock session");
    reveal_strlit("Log out of Niri");
    reveal_strlit("Reboot system");
    reveal_strlit("Shut down system");
    assert("\u{f033e}"@[0] == '\u{f033e}' && "\u{f0343}"@[0] == '\u{f0343}' && "\u{f0709}"@[0]
        == '\u{f0709}' && "\u{f0425}"@[0] == '\u{f0425}');
    assert("Lock session"@.len() == 12 && "Log out of Niri"@.len() == 15 && "Reboot system"@.len()
        == 13 && "Shut down system"@.len() == 16);
}

} // verus!
