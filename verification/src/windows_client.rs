//! Clients on Windows: users have no number there, and every terminal is a modern one.
use crate::client_terminal::{
    client_environment_infers_utf8, client_environment_is_windows_terminal, copy_features,
    in_windows_terminal, optional_environment, push_base_features, says_utf8, with_base_features,
    ClientEnvironment, ClientTerminalContext, Terminal,
};
use crate::clients::UserIdentity;
use crate::text::decimal_string;
use vstd::prelude::*;

verus! {

/// The user of a client, as it is listed: nothing, as there is no number.
pub fn format_client_uid(_uid: u32) -> (text: String)
    ensures
        text@.len() == 0,
{
    String::new()
}

/// The user of a request, as it is listed: nothing, as there is no number.
pub fn format_requester_uid(_uid: u32) -> (text: String)
    ensures
        text@.len() == 0,
{
    String::new()
}

/// The name of a client's user: its identity as text.
pub fn format_client_user(_uid: u32, user: &UserIdentity) -> (text: String)
    ensures
        text@ == user.spelled(),
{
    match user {
        UserIdentity::Sid(sid) => sid.clone(),
        UserIdentity::Uid(uid) => decimal_string(*uid as u64),
    }
}

/// The terminal of a client, given what it reports and what its environment says.
///
/// The base features are advertised for every client, as the terminal is always
/// driven by sequences.
pub fn effective_client_terminal_context(
    client_environment: Option<&ClientEnvironment>,
    client_terminal: &ClientTerminalContext,
) -> (terminal: ClientTerminalContext)
    ensures
        terminal@ == (Terminal {
            features: with_base_features(client_terminal@.features),
            utf8: client_terminal@.utf8 || says_utf8(optional_environment(client_environment))
                || in_windows_terminal(optional_environment(client_environment)),
        }),
{
    let utf8: bool = client_terminal.utf8 || client_environment_infers_utf8(client_environment)
        || client_environment_is_windows_terminal(client_environment);
    let mut terminal_features: Vec<String> = copy_features(&client_terminal.terminal_features);
    push_base_features(&mut terminal_features);
    ClientTerminalContext { terminal_features, utf8 }
}

} // verus!
