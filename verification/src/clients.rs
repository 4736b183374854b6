//! Clients of the server: what is known of each, and how they are listed.
use crate::bytes::ESC;
use crate::text::{decimal_string, decimal_text, join_texts, joined, optional_text, texts};
use vstd::prelude::*;
use vstd::string::*;
use vstd::utf8::*;

verus! {

/// The user that a client runs as.
#[derive(Debug, Clone, PartialEq, Eq)]
pub enum UserIdentity {
    /// A numeric user.
    Uid(u32),
    /// A security identifier.
    Sid(String),
}

impl UserIdentity {
    /// Both are the same user.
    pub open spec fn same(self, other: UserIdentity) -> bool {
        match (self, other) {
            (UserIdentity::Uid(uid), UserIdentity::Uid(other)) => uid == other,
            (UserIdentity::Sid(sid), UserIdentity::Sid(other)) => sid@ == other@,
            _ => false,
        }
    }

    /// A copy of the identity.
    pub fn copy(&self) -> (user: Self)
        ensures
            user.same(*self),
    {
        match self {
            UserIdentity::Uid(uid) => UserIdentity::Uid(*uid),
            UserIdentity::Sid(sid) => UserIdentity::Sid(sid.clone()),
        }
    }

    /// The identity as text.
    pub open spec fn spelled(self) -> Seq<char> {
        match self {
            UserIdentity::Uid(uid) => decimal_text(uid as nat),
            UserIdentity::Sid(sid) => sid@,
        }
    }
}

/// What an attached client has asked for.
#[derive(Debug, Clone, Copy, PartialEq, Eq, Structural)]
pub struct ClientFlags {
    /// The size of the client does not affect other clients.
    pub ignore_size: bool,
    /// The client is not detached when its session is destroyed.
    pub no_detach_on_destroy: bool,
    /// The client sends no keys.
    pub read_only: bool,
    /// The client has an active pane of its own.
    pub active_pane: bool,
}

impl ClientFlags {
    /// No flag.
    pub open spec fn none() -> ClientFlags {
        ClientFlags {
            ignore_size: false,
            no_detach_on_destroy: false,
            read_only: false,
            active_pane: false,
        }
    }

    /// The same flags, and read-only.
    pub fn with_read_only(self) -> (flags: Self)
        ensures
            flags == (ClientFlags { read_only: true, ..self }),
    {
        ClientFlags {
            ignore_size: self.ignore_size,
            no_detach_on_destroy: self.no_detach_on_destroy,
            read_only: true,
            active_pane: self.active_pane,
        }
    }
}

impl Default for ClientFlags {
    fn default() -> (flags: Self)
        ensures
            flags == ClientFlags::none(),
    {
        ClientFlags {
            ignore_size: false,
            no_detach_on_destroy: false,
            read_only: false,
            active_pane: false,
        }
    }
}

/// What a client in control mode has asked for.
#[derive(Debug, Clone, Copy, PartialEq, Eq, Structural)]
pub struct ControlClientFlags {
    /// The client gets no pane output.
    pub no_output: bool,
    /// The client is waited for before it exits.
    pub wait_exit: bool,
    /// Panes are paused when the client falls behind by this much.
    pub pause_after_millis: Option<u64>,
}

/// The terminal of a client.
#[derive(Debug, Clone, PartialEq, Eq)]
pub struct ClientTerminal {
    /// The name of the terminal type.
    pub term_name: String,
    /// The terminal shows UTF-8.
    pub utf8: bool,
    /// The features that the client has named.
    pub explicit_features: String,
}

impl ClientTerminal {
    /// Both describe the same terminal.
    pub open spec fn same(self, other: ClientTerminal) -> bool {
        &&& self.term_name@ == other.term_name@
        &&& self.utf8 == other.utf8
        &&& self.explicit_features@ == other.explicit_features@
    }

    /// A copy of the description.
    pub fn copy(&self) -> (terminal: Self)
        ensures
            terminal.same(*self),
    {
        ClientTerminal {
            term_name: self.term_name.clone(),
            utf8: self.utf8,
            explicit_features: self.explicit_features.clone(),
        }
    }
}

/// A client that is attached to a session.
#[derive(Debug, Clone, PartialEq, Eq)]
pub struct ActiveAttach {
    /// The number of the attachment.
    pub id: u64,
    /// The session that the client shows.
    pub session_name: String,
    /// The user that the client runs as.
    pub uid: u32,
    /// The user that the client runs as, where it is not numeric.
    pub user: UserIdentity,
    /// The client is locked or stopped.
    pub suspended: bool,
    /// The client is going away.
    pub closing: bool,
    /// What the client has asked for.
    pub flags: ClientFlags,
    /// The width of the client.
    pub width: u16,
    /// The height of the client.
    pub height: u16,
    /// The terminal of the client.
    pub terminal: ClientTerminal,
    /// The key table that the client is in, where it is not its session's.
    pub key_table_name: Option<String>,
    /// The open prompt, as it is drawn.
    pub prompt: Option<String>,
    /// A menu or a popup is open.
    pub has_overlay: bool,
    /// A tree of sessions, windows or clients is open.
    pub has_mode_tree: bool,
    /// The pane numbers are shown.
    pub has_display_panes: bool,
}

/// A client in control mode.
#[derive(Debug, Clone, PartialEq, Eq)]
pub struct ActiveControl {
    /// The number of the attachment.
    pub id: u64,
    /// The session that the client is attached to.
    pub session_name: Option<String>,
    /// The user that the client runs as.
    pub uid: u32,
    /// The user that the client runs as, where it is not numeric.
    pub user: UserIdentity,
    /// What the client has asked for.
    pub flags: ControlClientFlags,
    /// The terminal of the client.
    pub terminal: ClientTerminal,
}

/// A client as it is listed.
#[derive(Debug, Clone, PartialEq, Eq)]
pub struct ListClientSnapshot {
    /// The name of the client.
    pub name: String,
    /// The process of the client.
    pub pid: u32,
    /// The terminal device of the client.
    pub tty: String,
    /// The client is in control mode.
    pub control: bool,
    /// The session of the client.
    pub session_name: Option<String>,
    /// The number of the attachment, which grows with time.
    pub order: u64,
    /// The width of the client.
    pub width: u16,
    /// The height of the client.
    pub height: u16,
    /// The name of the terminal type.
    pub termname: String,
    /// What the terminal reports of itself.
    pub termtype: String,
    /// The features of the terminal.
    pub termfeatures: String,
    /// The terminal shows UTF-8.
    pub utf8: bool,
    /// The key table that the client is in.
    pub key_table: Option<String>,
    /// The user that the client runs as.
    pub uid: u32,
    /// The user that the client runs as, where it is not numeric.
    pub user: UserIdentity,
    /// The flags of the client.
    pub flags: String,
}

/// An attached client together with what the system reports of it.
#[derive(Debug, Clone, PartialEq, Eq)]
pub struct AttachedClient {
    /// The process of the client.
    pub pid: u32,
    /// The client.
    pub active: ActiveAttach,
    /// The terminal device of the client, where it is known.
    pub tty: Option<String>,
    /// The features of the terminal.
    pub termfeatures: String,
}

/// A client in control mode together with its process.
#[derive(Debug, Clone, PartialEq, Eq)]
pub struct ControlClient {
    /// The process of the client.
    pub pid: u32,
    /// The client.
    pub active: ActiveControl,
}

/// What a client switches to.
#[derive(Debug, Clone, PartialEq, Eq)]
pub struct SwitchClientExt3Request {
    /// A named target.
    pub target: Option<String>,
    /// The session shown before.
    pub last_session: bool,
    /// The session after this one.
    pub next_session: bool,
    /// The session before this one.
    pub previous_session: bool,
}

/// The key table that a session has by default.
#[derive(Debug, Clone, PartialEq, Eq)]
pub struct DefaultKeyTable {
    /// The session.
    pub session_name: String,
    /// Its key table.
    pub key_table: String,
}

/// The texts that are there, in order.
pub open spec fn chosen(flags: Seq<Option<Seq<char>>>) -> Seq<Seq<char>>
    decreases flags.len(),
{
    if flags.len() == 0 {
        Seq::empty()
    } else {
        match flags.last() {
            Some(flag) => chosen(flags.drop_last()).push(flag),
            None => chosen(flags.drop_last()),
        }
    }
}

/// What a list of optional texts holds.
pub open spec fn optional_texts(flags: Seq<Option<String>>) -> Seq<Option<Seq<char>>> {
    flags.map_values(|flag: Option<String>| optional_text(flag))
}

/// A flag by name, where it is set.
pub open spec fn flag(enabled: bool, name: Seq<char>) -> Option<Seq<char>> {
    if enabled {
        Some(name)
    } else {
        None
    }
}

/// The flags of an attached client, in the order in which they are listed.
pub open spec fn attached_flags(active: ActiveAttach) -> Seq<Option<Seq<char>>> {
    seq![
        Some("attached"@),
        flag(!active.suspended, "focused"@),
        None,
        flag(active.flags.ignore_size, "ignore-size"@),
        flag(active.flags.no_detach_on_destroy, "no-detach-on-destroy"@),
        None,
        None,
        None,
        flag(active.flags.read_only, "read-only"@),
        flag(active.flags.active_pane, "active-pane"@),
        flag(active.suspended, "suspended"@),
        flag(active.terminal.utf8, "UTF-8"@),
    ]
}

/// The flags of a client in control mode, in the order in which they are listed.
pub open spec fn control_flags(active: ActiveControl) -> Seq<Option<Seq<char>>> {
    let attached = active.session_name is Some;
    seq![
        flag(attached, "attached"@),
        flag(attached, "focused"@),
        Some("control-mode"@),
        None,
        None,
        flag(active.flags.no_output, "no-output"@),
        flag(active.flags.wait_exit, "wait-exit"@),
        match active.flags.pause_after_millis {
            Some(millis) => Some("pause-after="@ + decimal_text((millis / 1000) as nat)),
            None => None,
        },
        None,
        None,
        None,
        flag(attached && active.terminal.utf8, "UTF-8"@),
    ]
}

/// The list of flags as text.
pub open spec fn flag_list(flags: Seq<Option<Seq<char>>>) -> Seq<char> {
    joined(chosen(flags), ","@)
}

/// The name of an attached client: its terminal device, else its process.
pub open spec fn attached_name(tty: Option<String>, pid: u32) -> Seq<char> {
    match tty {
        Some(tty) => tty@,
        None => decimal_text(pid as nat),
    }
}

/// The key table that a session has by default, from the first entry for it.
pub open spec fn default_table(tables: Seq<DefaultKeyTable>, session: Seq<char>) -> Option<
    Seq<char>,
>
    decreases tables.len(),
{
    if tables.len() == 0 {
        None
    } else if tables[0].session_name@ == session {
        Some(tables[0].key_table@)
    } else {
        default_table(tables.skip(1), session)
    }
}

/// The listed client is the attached one.
pub open spec fn lists_attached(
    listed: ListClientSnapshot,
    client: AttachedClient,
    tables: Seq<DefaultKeyTable>,
) -> bool {
    &&& listed.name@ == attached_name(client.tty, client.pid)
    &&& listed.pid == client.pid
    &&& listed.tty@ == (if client.tty is Some {
        client.tty->0@
    } else {
        Seq::empty()
    })
    &&& !listed.control
    &&& optional_text(listed.session_name) == Some(client.active.session_name@)
    &&& listed.order == client.active.id
    &&& listed.width == client.active.width
    &&& listed.height == client.active.height
    &&& listed.termname@ == client.active.terminal.term_name@
    &&& listed.termtype@.len() == 0
    &&& listed.termfeatures@ == client.termfeatures@
    &&& listed.utf8 == client.active.terminal.utf8
    &&& optional_text(listed.key_table) == (if client.active.key_table_name is Some {
        optional_text(client.active.key_table_name)
    } else {
        default_table(tables, client.active.session_name@)
    })
    &&& listed.uid == client.active.uid
    &&& listed.user.same(client.active.user)
    &&& listed.flags@ == flag_list(attached_flags(client.active))
}

/// The listed client is the one in control mode.
pub open spec fn lists_control(listed: ListClientSnapshot, client: ControlClient) -> bool {
    &&& listed.name@ == decimal_text(client.pid as nat)
    &&& listed.pid == client.pid
    &&& listed.tty@.len() == 0
    &&& listed.control
    &&& optional_text(listed.session_name) == optional_text(client.active.session_name)
    &&& listed.order == client.active.id
    &&& listed.width == 0
    &&& listed.height == 0
    &&& listed.termname@ == client.active.terminal.term_name@
    &&& listed.termtype@.len() == 0
    &&& listed.termfeatures@ == client.active.terminal.explicit_features@
    &&& listed.utf8 == client.active.terminal.utf8
    &&& listed.key_table is None
    &&& listed.uid == client.active.uid
    &&& listed.user.same(client.active.user)
    &&& listed.flags@ == flag_list(control_flags(client.active))
}

/// One for a selector that is given.
pub open spec fn counted(given: bool) -> int {
    if given {
        1
    } else {
        0
    }
}

/// The flags that a client asks for, given those that it names.
pub open spec fn asked_flags(named: Option<ClientFlags>, read_only: bool) -> ClientFlags {
    let flags = match named {
        Some(flags) => flags,
        None => ClientFlags::none(),
    };
    ClientFlags { read_only: read_only || flags.read_only, ..flags }
}

/// The output that lines make.
pub open spec fn output_of(lines: Seq<Seq<char>>) -> Seq<u8> {
    if lines.len() == 0 {
        Seq::empty()
    } else {
        encode_utf8(joined(lines, "\n"@) + "\n"@)
    }
}

/// The name without the colon that may follow it.
pub open spec fn without_colon(name: Seq<char>) -> Seq<char> {
    if name.len() > 0 && name.last() == ':' {
        name.drop_last()
    } else {
        name
    }
}

/// How many selectors are given.
pub open spec fn selectors_given(request: SwitchClientExt3Request) -> int {
    counted(request.target is Some) + counted(request.last_session) + counted(
        request.next_session,
    ) + counted(request.previous_session)
}

/// The flags that a client asks for: those it names, none where it names none, and
/// read-only where it asks for that besides. Names that are refused are an error.
pub fn parse_client_flags<E>(
    named: Option<Result<ClientFlags, E>>,
    read_only: bool,
) -> (flags: Result<ClientFlags, E>)
    ensures
        match named {
            Some(Err(error)) => flags == Err::<ClientFlags, E>(error),
            Some(Ok(parsed)) => flags == Ok::<ClientFlags, E>(
                ClientFlags { read_only: read_only || parsed.read_only, ..parsed },
            ),
            None => flags == Ok::<ClientFlags, E>(ClientFlags { read_only, ..ClientFlags::none() }),
        },
        match (named, flags) {
            (Some(Ok(parsed)), Ok(flags)) => flags == asked_flags(Some(parsed), read_only),
            (None, Ok(flags)) => flags == asked_flags(None, read_only),
            (Some(Err(_)), Err(_)) => true,
            _ => false,
        },
{
    let parsed: ClientFlags = match named {
        Some(Ok(parsed)) => parsed,
        Some(Err(error)) => {
            return Err(error);
        },
        None => ClientFlags::default(),
    };
    if read_only {
        Ok(parsed.with_read_only())
    } else {
        Ok(parsed)
    }
}

/// The output of a command: its lines, each ended by a line feed.
pub fn command_output_from_lines(lines: &Vec<String>) -> (output: Vec<u8>)
    ensures
        output@ == (if lines@.len() == 0 {
            Seq::empty()
        } else {
            encode_utf8(joined(texts(lines@), "\n"@) + "\n"@)
        }),
        output@ == output_of(texts(lines@)),
{
    if lines.len() == 0 {
        return Vec::new();
    }
    let mut output: String = join_texts(lines, "\n");
    output.append("\n");
    output.as_str().as_bytes_vec()
}

/// The name of a target client without the colon that may follow it.
pub fn normalize_target_client(target_client: &str) -> (name: &str)
    ensures
        name@ == (if target_client@.len() > 0 && target_client@.last() == ':' {
            target_client@.drop_last()
        } else {
            target_client@
        }),
        name@ == without_colon(target_client@),
{
    let count: usize = target_client.unicode_len();
    if count > 0 && target_client.get_char(count - 1) == ':' {
        let name: &str = target_client.substring_char(0, count - 1);
        name
    } else {
        target_client
    }
}

/// The user of a client, as it is listed.
pub fn format_client_uid(uid: u32) -> (text: String)
    ensures
        text@ == decimal_text(uid as nat),
{
    decimal_string(uid as u64)
}

/// The user of a request, as it is listed.
pub fn format_requester_uid(uid: u32) -> (text: String)
    ensures
        text@ == decimal_text(uid as nat),
{
    decimal_string(uid as u64)
}

/// The name of a client's user: what the system calls it, else its number.
pub fn format_client_user(uid: u32, user_name: Option<&str>) -> (text: String)
    ensures
        text@ == (match user_name {
            Some(name) => name@,
            None => decimal_text(uid as nat),
        }),
{
    match user_name {
        Some(name) => name.to_owned(),
        None => decimal_string(uid as u64),
    }
}

/// How many selectors a switch request gives.
pub fn switch_target_selector_count(request: &SwitchClientExt3Request) -> (count: usize)
    ensures
        count == counted(request.target is Some) + counted(request.last_session) + counted(
            request.next_session,
        ) + counted(request.previous_session),
        count == selectors_given(*request),
{
    let target: usize = if request.target.is_some() {
        1
    } else {
        0
    };
    let last: usize = if request.last_session {
        1
    } else {
        0
    };
    let next: usize = if request.next_session {
        1
    } else {
        0
    };
    let previous: usize = if request.previous_session {
        1
    } else {
        0
    };
    target + last + next + previous
}

/// The sequence that asks a terminal for its clipboard.
pub fn clipboard_query_sequence() -> (sequence: Vec<u8>)
    ensures
        sequence@ == seq![
            ESC,
            ']' as u8,
            '5' as u8,
            '2' as u8,
            ';' as u8,
            'c' as u8,
            ';' as u8,
            '?' as u8,
            ESC,
            '\\' as u8,
        ],
{
    vec![
        ESC,
        ']' as u8,
        '5' as u8,
        '2' as u8,
        ';' as u8,
        'c' as u8,
        ';' as u8,
        '?' as u8,
        ESC,
        '\\' as u8,
    ]
}

/// A flag by name, where it is set.
pub fn client_flag(enabled: bool, value: &'static str) -> (name: Option<String>)
    ensures
        optional_text(name) == flag(enabled, value@),
{
    if enabled {
        Some(value.to_owned())
    } else {
        None
    }
}

/// The flags that are set, separated by commas, in the order of tmux's list.
pub fn format_client_flags(flags: [Option<String>; 12]) -> (text: String)
    ensures
        text@ == flag_list(optional_texts(flags@)),
{
    let ghost all = optional_texts(flags@);
    let mut list: Vec<String> = Vec::new();
    let mut index: usize = 0;
    while index < 12
        invariant
            index <= 12,
            flags@.len() == 12,
            all == optional_texts(flags@),
            texts(list@) == chosen(all.take(index as int)),
        decreases 12 - index,
    {
        assert(all.take(index + 1).drop_last() =~= all.take(index as int));
        match &flags[index] {
            Some(flag) => {
                list.push(flag.clone());
            },
            None => {},
        }
        index = index + 1;
    }
    assert(all.take(12) =~= all);
    join_texts(&list, ",")
}

/// The flags of an attached client, as they are listed.
pub fn format_attached_client_flags(active: &ActiveAttach) -> (text: String)
    ensures
        text@ == flag_list(attached_flags(*active)),
{
    let flags: [Option<String>; 12] = [
        client_flag(true, "attached"),
        client_flag(!active.suspended, "focused"),
        None,
        client_flag(active.flags.ignore_size, "ignore-size"),
        client_flag(active.flags.no_detach_on_destroy, "no-detach-on-destroy"),
        None,
        None,
        None,
        client_flag(active.flags.read_only, "read-only"),
        client_flag(active.flags.active_pane, "active-pane"),
        client_flag(active.suspended, "suspended"),
        client_flag(active.terminal.utf8, "UTF-8"),
    ];
    assert(optional_texts(flags@) =~= attached_flags(*active));
    format_client_flags(flags)
}

/// The flags of a client in control mode, as they are listed.
pub fn format_control_client_flags(active: &ActiveControl) -> (text: String)
    ensures
        text@ == flag_list(control_flags(*active)),
{
    let attached: bool = active.session_name.is_some();
    let pause: Option<String> = match active.flags.pause_after_millis {
        Some(millis) => {
            let mut text: String = "pause-after=".to_owned();
            text.append(decimal_string(millis / 1000).as_str());
            Some(text)
        },
        None => None,
    };
    let flags: [Option<String>; 12] = [
        client_flag(attached, "attached"),
        client_flag(attached, "focused"),
        client_flag(true, "control-mode"),
        None,
        None,
        client_flag(active.flags.no_output, "no-output"),
        client_flag(active.flags.wait_exit, "wait-exit"),
        pause,
        None,
        None,
        None,
        client_flag(attached && active.terminal.utf8, "UTF-8"),
    ];
    assert(optional_texts(flags@) =~= control_flags(*active));
    format_client_flags(flags)
}

/// The name of an attached client: its terminal device, else its process.
pub fn attached_client_name(tty: &Option<String>, attach_pid: u32) -> (name: String)
    ensures
        name@ == attached_name(*tty, attach_pid),
{
    match tty {
        Some(tty) => tty.clone(),
        None => decimal_string(attach_pid as u64),
    }
}

/// A copy of an optional text.
pub(crate) fn copy_optional(text: &Option<String>) -> (copy: Option<String>)
    ensures
        optional_text(copy) == optional_text(*text),
{
    match text {
        Some(text) => Some(text.clone()),
        None => None,
    }
}

/// The key table that a session has by default.
fn default_key_table(tables: &Vec<DefaultKeyTable>, session: &String) -> (table: Option<String>)
    ensures
        optional_text(table) == default_table(tables@, session@),
{
    let mut index: usize = 0;
    assert(tables@.skip(0) =~= tables@);
    while index < tables.len()
        invariant
            index <= tables@.len(),
            default_table(tables@, session@) == default_table(
                tables@.skip(index as int),
                session@,
            ),
        decreases tables@.len() - index,
    {
        assert(tables@.skip(index as int).skip(1) =~= tables@.skip(index + 1));
        if tables[index].session_name == *session {
            return Some(tables[index].key_table.clone());
        }
        index = index + 1;
    }
    None
}

/// An attached client, as it is listed.
fn list_attached(client: &AttachedClient, tables: &Vec<DefaultKeyTable>) -> (listed:
    ListClientSnapshot)
    ensures
        lists_attached(listed, *client, tables@),
{
    let active: &ActiveAttach = &client.active;
    let tty: String = match &client.tty {
        Some(tty) => tty.clone(),
        None => String::new(),
    };
    let key_table: Option<String> = if active.key_table_name.is_some() {
        copy_optional(&active.key_table_name)
    } else {
        default_key_table(tables, &active.session_name)
    };
    ListClientSnapshot {
        name: attached_client_name(&client.tty, client.pid),
        pid: client.pid,
        tty,
        control: false,
        session_name: Some(active.session_name.clone()),
        order: active.id,
        width: active.width,
        height: active.height,
        termname: active.terminal.term_name.clone(),
        termtype: String::new(),
        termfeatures: client.termfeatures.clone(),
        utf8: active.terminal.utf8,
        key_table,
        uid: active.uid,
        user: active.user.copy(),
        flags: format_attached_client_flags(active),
    }
}

/// A client in control mode, as it is listed.
fn list_control(client: &ControlClient) -> (listed: ListClientSnapshot)
    ensures
        lists_control(listed, *client),
{
    let active: &ActiveControl = &client.active;
    ListClientSnapshot {
        name: decimal_string(client.pid as u64),
        pid: client.pid,
        tty: String::new(),
        control: true,
        session_name: copy_optional(&active.session_name),
        order: active.id,
        width: 0,
        height: 0,
        termname: active.terminal.term_name.clone(),
        termtype: String::new(),
        termfeatures: active.terminal.explicit_features.clone(),
        utf8: active.terminal.utf8,
        key_table: None,
        uid: active.uid,
        user: active.user.copy(),
        flags: format_control_client_flags(active),
    }
}

/// All clients, as they are listed: the attached ones, then those in control mode.
pub fn list_clients_snapshot(
    attached: &Vec<AttachedClient>,
    control: &Vec<ControlClient>,
    default_key_tables: &Vec<DefaultKeyTable>,
) -> (clients: Vec<ListClientSnapshot>)
    ensures
        clients@.len() == attached@.len() + control@.len(),
        forall|i: int|
            0 <= i < attached@.len() ==> lists_attached(
                #[trigger] clients@[i],
                attached@[i],
                default_key_tables@,
            ),
        forall|i: int|
            0 <= i < control@.len() ==> lists_control(
                clients@[attached@.len() + i],
                #[trigger] control@[i],
            ),
{
    let mut clients: Vec<ListClientSnapshot> = Vec::new();
    let mut index: usize = 0;
    while index < attached.len()
        invariant
            index <= attached@.len(),
            clients@.len() == index,
            forall|i: int|
                0 <= i < index ==> lists_attached(
                    #[trigger] clients@[i],
                    attached@[i],
                    default_key_tables@,
                ),
        decreases attached@.len() - index,
    {
        clients.push(list_attached(&attached[index], default_key_tables));
        index = index + 1;
    }
    let mut index: usize = 0;
    while index < control.len()
        invariant
            index <= control@.len(),
            clients@.len() == attached@.len() + index,
            forall|i: int|
                0 <= i < attached@.len() ==> lists_attached(
                    #[trigger] clients@[i],
                    attached@[i],
                    default_key_tables@,
                ),
            forall|i: int|
                0 <= i < index ==> lists_control(
                    clients@[attached@.len() + i],
                    #[trigger] control@[i],
                ),
        decreases control@.len() - index,
    {
        clients.push(list_control(&control[index]));
        index = index + 1;
    }
    clients
}

} // verus!
