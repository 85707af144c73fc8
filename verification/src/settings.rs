//! The settings an upload reads, and what logging in with "remember me"
//! writes back to them.

use vstd::prelude::*;

verus! {

/// Number of chunks sent at once where nothing else is configured.
pub const DEFAULT_LIMIT: usize = 3;

/// The credentials of a user.
#[derive(Clone, Debug)]
pub struct Account {
    pub username: String,
    pub password: String,
}

/// The persisted settings, as far as uploads and logins read them.
#[derive(Clone, Debug)]
pub struct Settings {
    /// The remembered account.
    pub user: Option<Account>,
    /// Name of the preferred upload line.
    pub line: Option<String>,
    /// Most chunks sent at once.
    pub limit: usize,
}

/// What [`Settings`] stand for.
pub struct SettingsView {
    /// Name and password of the remembered account.
    pub user: Option<(Seq<char>, Seq<char>)>,
    /// Name of the preferred upload line.
    pub line: Option<Seq<char>>,
    /// Most chunks sent at once.
    pub limit: nat,
}

impl View for Settings {
    type V = SettingsView;

    open spec fn view(&self) -> SettingsView {
        SettingsView {
            user: match self.user {
                Some(account) => Some((account.username@, account.password@)),
                None => None,
            },
            line: match self.line {
                Some(name) => Some(name@),
                None => None,
            },
            limit: self.limit as nat,
        }
    }
}

/// The settings to store after a login that is to be remembered. Settings
/// that hold an account get the new name and password; settings without one
/// stay as they are. Where no settings could be loaded, fresh ones are made
/// for the account, with no preferred line and the default limit.
pub open spec fn remembered(
    loaded: Option<SettingsView>,
    username: Seq<char>,
    password: Seq<char>,
) -> SettingsView {
    match loaded {
        Some(settings) => match settings.user {
            Some(_) => SettingsView { user: Some((username, password)), ..settings },
            None => settings,
        },
        None => SettingsView {
            user: Some((username, password)),
            line: None,
            limit: DEFAULT_LIMIT as nat,
        },
    }
}

/// The settings to store after a login that is to be remembered; `loaded`
/// is what was stored before, or `None` where that could not be read.
pub fn remember_account(loaded: Option<Settings>, username: &str, password: &str) -> (settings:
    Settings)
    ensures
        settings@ == remembered(
            match loaded {
                Some(before) => Some(before@),
                None => None,
            },
            username@,
            password@,
        ),
{
    match loaded {
        Some(before) => {
            let user = match before.user {
                Some(_) => Some(
                    Account { username: username.to_owned(), password: password.to_owned() },
                ),
                None => None,
            };
            Settings { user, line: before.line, limit: before.limit }
        },
        None => Settings {
            user: Some(Account { username: username.to_owned(), password: password.to_owned() }),
            line: None,
            limit: DEFAULT_LIMIT,
        },
    }
}

} // verus!
