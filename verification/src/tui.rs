//! The terminal interface's pure state model: which screen is shown, what
//! input mode is active, and the login flow's state. The rendering and
//! key handling live outside the library; the cycling order of the
//! screens is decided here.

use vstd::prelude::*;

verus! {

/// The screens of the terminal interface, in cycling order.
#[derive(Clone, Copy, Debug, PartialEq, Eq, Structural)]
pub enum Screen {
    Dashboard,
    Accounts,
    Transactions,
    CategoryStats,
    AccountStats,
    Trends,
    Reconcile,
    Advisor,
    Help,
}

impl Screen {
    /// The screen after this one in the cycle.
    pub open spec fn next_spec(self) -> Screen {
        match self {
            Screen::Dashboard => Screen::Accounts,
            Screen::Accounts => Screen::Transactions,
            Screen::Transactions => Screen::CategoryStats,
            Screen::CategoryStats => Screen::AccountStats,
            Screen::AccountStats => Screen::Trends,
            Screen::Trends => Screen::Reconcile,
            Screen::Reconcile => Screen::Advisor,
            Screen::Advisor => Screen::Help,
            Screen::Help => Screen::Dashboard,
        }
    }

    /// Step forward through the screen cycle.
    pub fn next_screen(self) -> (r: Screen)
        ensures
            r == self.next_spec(),
    {
        match self {
            Screen::Dashboard => Screen::Accounts,
            Screen::Accounts => Screen::Transactions,
            Screen::Transactions => Screen::CategoryStats,
            Screen::CategoryStats => Screen::AccountStats,
            Screen::AccountStats => Screen::Trends,
            Screen::Trends => Screen::Reconcile,
            Screen::Reconcile => Screen::Advisor,
            Screen::Advisor => Screen::Help,
            Screen::Help => Screen::Dashboard,
        }
    }

    /// Step backward through the screen cycle: the exact inverse of
    /// stepping forward.
    pub fn prev_screen(self) -> (r: Screen)
        ensures
            r.next_spec() == self,
            r != self,
    {
        match self {
            Screen::Dashboard => Screen::Help,
            Screen::Accounts => Screen::Dashboard,
            Screen::Transactions => Screen::Accounts,
            Screen::CategoryStats => Screen::Transactions,
            Screen::AccountStats => Screen::CategoryStats,
            Screen::Trends => Screen::AccountStats,
            Screen::Reconcile => Screen::Trends,
            Screen::Advisor => Screen::Reconcile,
            Screen::Help => Screen::Advisor,
        }
    }
}

/// What the interface's key handling is currently editing.
#[derive(Clone, Copy, Debug, PartialEq, Eq, Structural)]
pub enum InputMode {
    Normal,
    EditingReconcile,
    CreatingTransaction,
    CreatingCategory,
    CreatingAccount,
    AdvisorChat,
}

/// Which login field is being edited.
#[derive(Clone, Copy, Debug, PartialEq, Eq, Structural)]
pub enum LoginMode {
    Email,
    Password,
}

/// Where the login flow stands.
#[derive(Clone, Copy, Debug, PartialEq, Eq, Structural)]
pub enum LoginStep {
    Choose,
    Login,
    Register,
}

/// The login dialog's state: the server address, the credentials being
/// typed, the focused field, the flow step, and the last error shown.
#[derive(Debug)]
pub struct LoginApp {
    pub base_url: String,
    pub email: String,
    pub password: String,
    pub mode: LoginMode,
    pub step: LoginStep,
    pub error_message: Option<String>,
}

impl LoginApp {
    /// A fresh login dialog pointing at the given server.
    pub fn new(base_url: String) -> (r: LoginApp)
        ensures
            r.base_url == base_url,
            r.email@.len() == 0,
            r.password@.len() == 0,
            r.mode == LoginMode::Email,
            r.step == LoginStep::Choose,
            r.error_message is None,
    {
        LoginApp {
            base_url,
            email: String::new(),
            password: String::new(),
            mode: LoginMode::Email,
            step: LoginStep::Choose,
            error_message: None,
        }
    }
}

} // verus!
