//! The identity a client shell acts under. The shell itself — input,
//! display, command text — holds no ledger logic and lives with the caller.

use vstd::prelude::*;

verus! {

/// Who is using the client: a display name, a token, and the instance they
/// are currently in, if any.
#[derive(Debug)]
pub struct CBCAIdentity {
    pub display_name: String,
    pub token: String,
    pub current_instance: Option<String>,
}

impl CBCAIdentity {
    /// An identity from its three parts.
    pub fn spawn(display_name: String, token: String, current_instance: Option<String>) -> (r:
        Self)
        ensures
            r.display_name == display_name,
            r.token == token,
            r.current_instance == current_instance,
    {
        Self { display_name, token, current_instance }
    }

    /// The name shown at the prompt.
    pub fn get_display_name(&self) -> (r: &String)
        ensures
            r == &self.display_name,
    {
        &self.display_name
    }

    /// The token this identity authenticates with.
    pub fn get_token(&self) -> (r: &String)
        ensures
            r == &self.token,
    {
        &self.token
    }

    /// The instance currently joined, if any.
    pub fn get_current_instance(&self) -> (r: &Option<String>)
        ensures
            r == &self.current_instance,
    {
        &self.current_instance
    }
}

} // verus!
