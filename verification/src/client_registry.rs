//! The clients that the server knows, by process, and what is decided of them.
use crate::bytes::push_bytes;
use crate::clients::{copy_optional, ActiveAttach, ActiveControl, ClientTerminal};
use crate::text::{optional_text, same_text};
use std::collections::HashMap;
use vstd::prelude::*;
use vstd::string::*;

verus! {

broadcast use vstd::std_specs::hash::group_hash_axioms;

/// Which attachment of a client is meant.
#[derive(Debug, Clone, Copy, PartialEq, Eq, Structural)]
pub struct ActiveAttachIdentity {
    /// The process of the client.
    pub attach_pid: u32,
    /// The number of the attachment.
    pub attach_id: u64,
}

/// Why a client could not be refreshed.
#[derive(Debug, Clone, Copy, PartialEq, Eq, Structural)]
pub enum RefreshError {
    /// There is no such client, or it is not attached as was meant.
    AttachedClientRequired,
    /// The session of the client is gone.
    SessionNotFound,
}

/// Where the frame of a refresh goes.
#[derive(Debug, Clone, Copy, PartialEq, Eq, Structural)]
pub enum RefreshDelivery {
    /// To a client, as long as it is attached under the number that was expected.
    Identity(ActiveAttachIdentity),
    /// To whatever client has the process.
    Process(u32),
}

/// What a status refresh needs to know of its client.
#[derive(Debug, Clone, PartialEq, Eq)]
pub struct StatusRefresh {
    /// The open prompt, as it is drawn.
    pub prompt: Option<String>,
    /// The client draws the cursor itself.
    pub client_owns_cursor: bool,
    /// The terminal of the client.
    pub terminal: ClientTerminal,
    /// The width of the client.
    pub width: u16,
    /// The height of the client.
    pub height: u16,
    /// The key table that the client is in, where it is not its session's.
    pub key_table: Option<String>,
    /// Where the frame goes.
    pub delivery: RefreshDelivery,
}

/// The attached clients, by process.
pub struct ActiveAttachState {
    /// Each client under its process.
    pub by_pid: HashMap<u32, ActiveAttach>,
}

/// The clients in control mode, by process.
pub struct ActiveControlState {
    /// Each client under its process.
    pub by_pid: HashMap<u32, ActiveControl>,
}

/// The client is no longer locked.
pub open spec fn unlocked(active: ActiveAttach) -> ActiveAttach {
    ActiveAttach { suspended: false, ..active }
}

/// The clients with one of them unlocked, where there is such a client.
pub open spec fn with_unlocked(clients: Map<u32, ActiveAttach>, pid: u32) -> Map<
    u32,
    ActiveAttach,
> {
    if clients.dom().contains(pid) {
        clients.insert(pid, unlocked(clients[pid]))
    } else {
        clients
    }
}

/// The attachment that is meant is there and not going away.
pub open spec fn still_attached(
    clients: Map<u32, ActiveAttach>,
    identity: ActiveAttachIdentity,
) -> bool {
    &&& clients.dom().contains(identity.attach_pid)
    &&& clients[identity.attach_pid].id == identity.attach_id
    &&& !clients[identity.attach_pid].closing
}

/// The client draws the cursor itself: a prompt, a menu or popup, a tree or the pane
/// numbers are open.
pub open spec fn draws_cursor(active: ActiveAttach) -> bool {
    active.prompt is Some || active.has_overlay || active.has_mode_tree || active.has_display_panes
}

/// The client that a refresh is for is there: attached to the session, and under the
/// number that is expected, where one is.
pub open spec fn refreshable(
    clients: Map<u32, ActiveAttach>,
    attach_pid: u32,
    expected: Option<u64>,
    session_name: Seq<char>,
) -> bool {
    &&& clients.dom().contains(attach_pid)
    &&& expected is Some ==> clients[attach_pid].id == expected->0
    &&& clients[attach_pid].session_name@ == session_name
}

/// Where the frame of a refresh goes, given the number that is expected.
pub open spec fn delivery_of(attach_pid: u32, expected: Option<u64>) -> RefreshDelivery {
    match expected {
        Some(attach_id) => RefreshDelivery::Identity(
            ActiveAttachIdentity { attach_pid, attach_id },
        ),
        None => RefreshDelivery::Process(attach_pid),
    }
}

/// The frame of a status refresh: the status bar, then the cursor of the pane, which
/// drawing the bar may have moved. Without a bar nothing is written, and a client
/// that draws the cursor itself keeps it. A pane in copy mode has a cursor of its own.
pub open spec fn refreshed(
    status: Seq<u8>,
    client_owns_cursor: bool,
    copy_mode_cursor: Option<Seq<u8>>,
    pane_cursor: Option<Seq<u8>>,
) -> Seq<u8> {
    if status.len() == 0 || client_owns_cursor {
        status
    } else if copy_mode_cursor is Some {
        status + copy_mode_cursor->0
    } else if pane_cursor is Some {
        status + pane_cursor->0
    } else {
        status
    }
}

/// The seconds between two refreshes by time.
pub open spec fn status_interval(seconds: u32) -> Option<u64> {
    if seconds > 0 {
        Some(seconds as u64)
    } else {
        None
    }
}

/// The user of a request from a process.
pub open spec fn user_of(
    attached: Map<u32, ActiveAttach>,
    control: Map<u32, ActiveControl>,
    pid: u32,
    owner_uid: u32,
) -> u32 {
    if attached.dom().contains(pid) {
        attached[pid].uid
    } else if control.dom().contains(pid) {
        control[pid].uid
    } else {
        owner_uid
    }
}

/// What optional bytes hold.
pub open spec fn optional_bytes(bytes: Option<&[u8]>) -> Option<Seq<u8>> {
    match bytes {
        Some(bytes) => Some(bytes@),
        None => None,
    }
}

/// The seconds between two refreshes of the status bar, none where it is not
/// refreshed by time.
pub fn attached_status_interval(seconds: u32) -> (interval: Option<u64>)
    ensures
        interval == (if seconds > 0 {
            Some(seconds as u64)
        } else {
            None
        }),
        interval == status_interval(seconds),
{
    if seconds > 0 {
        Some(seconds as u64)
    } else {
        None
    }
}

/// Whether the client draws the cursor itself.
///
/// Every surface that does is counted, not only the prompt: none of them redraws the
/// cursor if a status refresh moves it.
pub fn client_owns_cursor(active: &ActiveAttach) -> (owns: bool)
    ensures
        owns == draws_cursor(*active),
{
    active.prompt.is_some() || active.has_overlay || active.has_mode_tree
        || active.has_display_panes
}

impl ActiveAttachState {
    /// Unlocks a client.
    pub fn handle_attached_unlock(&mut self, attach_pid: u32)
        ensures
            final(self).by_pid@ == with_unlocked(old(self).by_pid@, attach_pid),
    {
        match self.by_pid.remove(&attach_pid) {
            Some(active) => {
                let mut active: ActiveAttach = active;
                active.suspended = false;
                self.by_pid.insert(attach_pid, active);
            },
            None => {},
        }
    }

    /// Unlocks a client, where the attachment that is meant is still there, and tells
    /// whether it was.
    pub fn handle_attached_unlock_for_identity(&mut self, identity: ActiveAttachIdentity) -> (done:
        bool)
        ensures
            done == still_attached(old(self).by_pid@, identity),
            final(self).by_pid@ == (if done {
                with_unlocked(old(self).by_pid@, identity.attach_pid)
            } else {
                old(self).by_pid@
            }),
    {
        let there: bool = match self.by_pid.get(&identity.attach_pid) {
            Some(active) => active.id == identity.attach_id && !active.closing,
            None => false,
        };
        if there {
            self.handle_attached_unlock(identity.attach_pid);
        }
        there
    }

    /// What a status refresh needs to know of its client, once it is clear that the
    /// client is attached as was meant and that its session exists.
    pub fn plan_status_refresh(
        &self,
        attach_pid: u32,
        expected_attach_id: Option<u64>,
        session_name: &str,
        session_exists: bool,
    ) -> (plan: Result<StatusRefresh, RefreshError>)
        ensures
            ({
                let client = refreshable(
                    self.by_pid@,
                    attach_pid,
                    expected_attach_id,
                    session_name@,
                );
                match plan {
                    Ok(plan) => {
                        let active = self.by_pid@[attach_pid];
                        &&& client && session_exists
                        &&& optional_text(plan.prompt) == optional_text(active.prompt)
                        &&& plan.client_owns_cursor == draws_cursor(active)
                        &&& plan.terminal.same(active.terminal)
                        &&& plan.width == active.width
                        &&& plan.height == active.height
                        &&& optional_text(plan.key_table) == optional_text(active.key_table_name)
                        &&& plan.delivery == delivery_of(attach_pid, expected_attach_id)
                    },
                    Err(RefreshError::AttachedClientRequired) => !client,
                    Err(RefreshError::SessionNotFound) => client && !session_exists,
                }
            }),
    {
        let active: &ActiveAttach = match self.by_pid.get(&attach_pid) {
            Some(active) => active,
            None => {
                return Err(RefreshError::AttachedClientRequired);
            },
        };
        let expected: bool = match expected_attach_id {
            Some(id) => active.id == id,
            None => true,
        };
        if !expected || !same_text(active.session_name.as_str(), session_name) {
            return Err(RefreshError::AttachedClientRequired);
        }
        if !session_exists {
            return Err(RefreshError::SessionNotFound);
        }
        let delivery: RefreshDelivery = match expected_attach_id {
            Some(attach_id) => RefreshDelivery::Identity(
                ActiveAttachIdentity { attach_pid, attach_id },
            ),
            None => RefreshDelivery::Process(attach_pid),
        };
        Ok(
            StatusRefresh {
                prompt: copy_optional(&active.prompt),
                client_owns_cursor: client_owns_cursor(active),
                terminal: active.terminal.copy(),
                width: active.width,
                height: active.height,
                key_table: copy_optional(&active.key_table_name),
                delivery,
            },
        )
    }
}

/// The user of a request: that of the attached client it comes from, else that of
/// the client in control mode, else the owner of the server.
pub fn requester_uid(
    attached: &ActiveAttachState,
    control: &ActiveControlState,
    requester_pid: u32,
    owner_uid: u32,
) -> (uid: u32)
    ensures
        uid == (if attached.by_pid@.dom().contains(requester_pid) {
            attached.by_pid@[requester_pid].uid
        } else if control.by_pid@.dom().contains(requester_pid) {
            control.by_pid@[requester_pid].uid
        } else {
            owner_uid
        }),
        uid == user_of(attached.by_pid@, control.by_pid@, requester_pid, owner_uid),
{
    match attached.by_pid.get(&requester_pid) {
        Some(active) => active.uid,
        None => match control.by_pid.get(&requester_pid) {
            Some(active) => active.uid,
            None => owner_uid,
        },
    }
}

/// The frame of a status refresh.
pub fn status_refresh_frame(
    status: Vec<u8>,
    client_owns_cursor: bool,
    copy_mode_cursor: Option<&[u8]>,
    pane_cursor: Option<&[u8]>,
) -> (frame: Vec<u8>)
    ensures
        frame@ == refreshed(
            status@,
            client_owns_cursor,
            optional_bytes(copy_mode_cursor),
            optional_bytes(pane_cursor),
        ),
{
    let mut frame: Vec<u8> = status;
    if frame.len() == 0 || client_owns_cursor {
        return frame;
    }
    match copy_mode_cursor {
        Some(cursor) => {
            push_bytes(&mut frame, cursor);
        },
        None => match pane_cursor {
            Some(cursor) => {
                push_bytes(&mut frame, cursor);
            },
            None => {},
        },
    }
    frame
}

/// Without a status bar a refresh writes nothing.
pub proof fn no_status_bar_writes_nothing(
    client_owns_cursor: bool,
    copy_mode_cursor: Option<Seq<u8>>,
    pane_cursor: Option<Seq<u8>>,
)
    ensures
        refreshed(Seq::empty(), client_owns_cursor, copy_mode_cursor, pane_cursor).len() == 0,
{
}

/// A client that draws the cursor itself gets the status bar and nothing after it.
pub proof fn owned_cursor_is_left_alone(
    status: Seq<u8>,
    copy_mode_cursor: Option<Seq<u8>>,
    pane_cursor: Option<Seq<u8>>,
)
    ensures
        refreshed(status, true, copy_mode_cursor, pane_cursor) == status,
{
}

/// A status bar that is drawn for a client that does not draw the cursor itself is
/// followed by the cursor of its pane, where the pane has one.
pub proof fn pane_cursor_follows_the_status_bar(
    status: Seq<u8>,
    copy_mode_cursor: Option<Seq<u8>>,
    pane_cursor: Option<Seq<u8>>,
)
    requires
        status.len() > 0,
    ensures
        copy_mode_cursor is Some ==> refreshed(status, false, copy_mode_cursor, pane_cursor)
            == status + copy_mode_cursor->0,
        copy_mode_cursor is None && pane_cursor is Some ==> refreshed(
            status,
            false,
            copy_mode_cursor,
            pane_cursor,
        ) == status + pane_cursor->0,
{
}

/// Unlocking a client leaves every other client, and all else of it, alone.
pub proof fn unlocking_touches_one_client(
    clients: Map<u32, ActiveAttach>,
    pid: u32,
    other: u32,
)
    requires
        clients.dom().contains(other),
    ensures
        ({
            let after = with_unlocked(clients, pid);
            &&& after.dom() == clients.dom()
            &&& other != pid ==> after[other] == clients[other]
            &&& other == pid ==> after[other] == unlocked(clients[other])
        }),
{
}

/// Unlocking a client twice is unlocking it once.
pub proof fn unlocking_is_settled(clients: Map<u32, ActiveAttach>, pid: u32)
    ensures
        with_unlocked(with_unlocked(clients, pid), pid) == with_unlocked(clients, pid),
{
}

} // verus!
