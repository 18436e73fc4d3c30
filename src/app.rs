use vstd::prelude::*;

verus! {

/// The screen that the interactive session shows.
#[derive(PartialEq, Eq, Structural, Clone, Copy, Debug)]
pub enum AppState {
    MainMenu,
    Login,
    CreateAccount,
    LoggedIn,
    Deposit,
    Withdraw,
    Transfer,
    ViewTransactions,
}

/// The session under its shorter name.
pub type App = crate::controllers::app_controller::AppController;

} // verus!
