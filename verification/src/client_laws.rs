//! What holds of clients and how they are listed, sorted, named and refreshed.
use crate::client_registry::{
    delivery_of, draws_cursor, refreshable, refreshed, status_interval, still_attached, user_of,
    with_unlocked, ActiveAttachIdentity, RefreshDelivery,
};
use crate::client_sort::{
    client_relation, in_order, list_order, list_reversed, named_order, rearranged, SessionSortOrder,
};
use crate::client_target::{absolute, components, counting, names_device, same_path, segments};
use crate::client_terminal::{
    daemon_flag, effective_terminal, environment_patterns, environment_source, in_windows_terminal,
    says_utf8, with_base_features, with_feature, EnvironmentSource, Terminal,
};
use crate::clients::{
    asked_flags, attached_flags, chosen, control_flags, counted, default_table, flag_list,
    lists_attached, lists_control, output_of, selectors_given, without_colon, ActiveAttach,
    ActiveControl, AttachedClient, ClientFlags, ClientTerminal, ControlClient, DefaultKeyTable,
    ListClientSnapshot, SwitchClientExt3Request, UserIdentity,
};
use crate::text::{decimal_text, joined, lowercase, occurs, text_relation, white_space, Relation};
use crate::text_laws::{
    all_white, none_white, unbroken_text_is_one_word, white_space_around_is_trimmed,
    white_space_separates_words,
};
use vstd::prelude::*;
use vstd::utf8::*;

verus! {

/// A text, where it is wanted.
pub open spec fn where_wanted(wanted: bool, text: Seq<char>) -> Seq<char> {
    if wanted {
        text
    } else {
        Seq::empty()
    }
}

/// One more flag is listed behind a comma.
proof fn listing_goes_on(flags: Seq<Option<Seq<char>>>, flag: Option<Seq<char>>)
    ensures
        chosen(flags.push(flag)) == (match flag {
            Some(name) => chosen(flags).push(name),
            None => chosen(flags),
        }),
        chosen(flags).len() > 0 ==> flag_list(flags.push(flag)) == flag_list(flags) + (match flag {
            Some(name) => ","@ + name,
            None => Seq::empty(),
        }),
        chosen(flags).len() == 0 && flag is Some ==> flag_list(flags.push(flag)) == flag->0,
{
    assert(flags.push(flag).drop_last() =~= flags);
    assert(chosen(Seq::<Option<Seq<char>>>::empty()) == Seq::<Seq<char>>::empty());
    match flag {
        Some(name) => {
            let list = chosen(flags);
            assert(list.push(name).drop_last() =~= list);
            if list.len() > 0 {
                assert(joined(list.push(name), ","@) =~= joined(list, ","@) + (","@ + name));
            }
        },
        None => {
            assert(flag_list(flags) + Seq::empty() =~= flag_list(flags));
        },
    }
}

/// The flags of an attached client, spelled out: `attached` always, then each that applies
/// behind a comma.
pub proof fn attached_flags_are_spelled(active: ActiveAttach)
    ensures
        flag_list(attached_flags(active)) == "attached"@ + where_wanted(
            !active.suspended,
            ","@ + "focused"@,
        ) + where_wanted(active.flags.ignore_size, ","@ + "ignore-size"@) + where_wanted(
            active.flags.no_detach_on_destroy,
            ","@ + "no-detach-on-destroy"@,
        ) + where_wanted(active.flags.read_only, ","@ + "read-only"@) + where_wanted(
            active.flags.active_pane,
            ","@ + "active-pane"@,
        ) + where_wanted(active.suspended, ","@ + "suspended"@) + where_wanted(
            active.terminal.utf8,
            ","@ + "UTF-8"@,
        ),
{
    let all = attached_flags(active);
    assert(all.take(0) =~= Seq::empty());
    assert(all.take(12) =~= all);
    listing_grows(all, 0);
    listing_grows(all, 1);
    listing_grows(all, 2);
    listing_grows(all, 3);
    listing_grows(all, 4);
    listing_grows(all, 5);
    listing_grows(all, 6);
    listing_grows(all, 7);
    listing_grows(all, 8);
    listing_grows(all, 9);
    listing_grows(all, 10);
    listing_grows(all, 11);
}

/// The list of the flags up to a place goes on with the flag there.
proof fn listing_grows(all: Seq<Option<Seq<char>>>, at: int)
    requires
        0 <= at < all.len(),
    ensures
        ({
            let before = all.take(at);
            let after = all.take(at + 1);
            &&& at == 0 ==> chosen(before).len() == 0
            &&& chosen(after).len() == chosen(before).len() + (if all[at] is Some {
                1int
            } else {
                0
            })
            &&& chosen(before).len() > 0 ==> flag_list(after) == flag_list(before) + where_wanted(
                all[at] is Some,
                ","@ + all[at]->0,
            )
            &&& chosen(before).len() == 0 && all[at] is Some ==> flag_list(after) == all[at]->0
        }),
{
    assert(all.take(at + 1) =~= all.take(at).push(all[at]));
    listing_goes_on(all.take(at), all[at]);
}

/// The flags of a client in control mode, spelled out: `control-mode` always, behind
/// `attached` and `focused` where it is attached, then each that applies behind a comma,
/// the pause in whole seconds.
pub proof fn control_flags_are_spelled(active: ActiveControl)
    ensures
        ({
            let attached = active.session_name is Some;
            let pause = active.flags.pause_after_millis;
            flag_list(control_flags(active)) == (if attached {
                "attached"@ + (","@ + "focused"@) + (","@ + "control-mode"@)
            } else {
                "control-mode"@
            }) + where_wanted(active.flags.no_output, ","@ + "no-output"@) + where_wanted(
                active.flags.wait_exit,
                ","@ + "wait-exit"@,
            ) + where_wanted(
                pause is Some,
                ","@ + ("pause-after="@ + decimal_text((pause->0 / 1000) as nat)),
            ) + where_wanted(attached && active.terminal.utf8, ","@ + "UTF-8"@)
        }),
{
    let all = control_flags(active);
    assert(all.take(0) =~= Seq::empty());
    assert(all.take(12) =~= all);
    listing_grows(all, 0);
    listing_grows(all, 1);
    listing_grows(all, 2);
    listing_grows(all, 3);
    listing_grows(all, 4);
    listing_grows(all, 5);
    listing_grows(all, 6);
    listing_grows(all, 7);
    listing_grows(all, 8);
    listing_grows(all, 9);
    listing_grows(all, 10);
    listing_grows(all, 11);
}

/// The default table of a session is that of the first entry for it.
pub proof fn first_table_counts(tables: Seq<DefaultKeyTable>, session: Seq<char>, at: int)
    requires
        0 <= at <= tables.len(),
        forall|i: int| 0 <= i < at ==> (#[trigger] tables[i]).session_name@ != session,
        at < tables.len() ==> tables[at].session_name@ == session,
    ensures
        default_table(tables, session) == (if at < tables.len() {
            Some(tables[at].key_table@)
        } else {
            None
        }),
    decreases at,
{
    if at > 0 {
        assert(tables[0].session_name@ != session);
        assert forall|i: int| 0 <= i < at - 1 implies (#[trigger] tables.skip(1)[i]).session_name@
            != session by {
            assert(tables[i + 1].session_name@ != session);
        }
        first_table_counts(tables.skip(1), session, at - 1);
    }
}

/// A listed attached client: named by its device, or by its process where it has none, with
/// its own size, terminal and user, and its own key table where it has one.
pub proof fn listed_attached_clients(
    listed: ListClientSnapshot,
    client: AttachedClient,
    tables: Seq<DefaultKeyTable>,
)
    requires
        lists_attached(listed, client, tables),
    ensures
        client.tty is Some ==> listed.name@ == client.tty->0@ && listed.tty@ == client.tty->0@,
        client.tty is None ==> listed.name@ == decimal_text(client.pid as nat) && listed.tty@.len()
            == 0,
        listed.pid == client.pid,
        !listed.control,
        listed.session_name is Some && listed.session_name->0@ == client.active.session_name@,
        listed.order == client.active.id,
        listed.width == client.active.width,
        listed.height == client.active.height,
        listed.termname@ == client.active.terminal.term_name@,
        listed.termtype@.len() == 0,
        listed.termfeatures@ == client.termfeatures@,
        listed.utf8 == client.active.terminal.utf8,
        client.active.key_table_name is Some ==> listed.key_table is Some && listed.key_table->0@
            == client.active.key_table_name->0@,
        client.active.key_table_name is None && tables.len() == 0 ==> listed.key_table is None,
        client.active.key_table_name is None ==> forall|at: int|
            0 <= at < tables.len() && (#[trigger] tables[at]).session_name@
                == client.active.session_name@ && (forall|i: int|
                0 <= i < at ==> (#[trigger] tables[i]).session_name@ != client.active.session_name@)
                ==> listed.key_table is Some && listed.key_table->0@ == tables[at].key_table@,
        listed.uid == client.active.uid,
        listed.user.same(client.active.user),
        listed.flags@ == flag_list(attached_flags(client.active)),
{
    if client.active.key_table_name is None {
        assert forall|at: int|
            0 <= at < tables.len() && (#[trigger] tables[at]).session_name@
                == client.active.session_name@ && (forall|i: int|
                0 <= i < at ==> (#[trigger] tables[i]).session_name@
                    != client.active.session_name@) implies listed.key_table is Some
            && listed.key_table->0@ == tables[at].key_table@ by {
            first_table_counts(tables, client.active.session_name@, at);
        }
    }
}

/// A listed client in control mode: named by its process, without a device, a size or a key
/// table, with the features that it named itself.
pub proof fn listed_control_clients(listed: ListClientSnapshot, client: ControlClient)
    requires
        lists_control(listed, client),
    ensures
        listed.name@ == decimal_text(client.pid as nat),
        listed.pid == client.pid,
        listed.tty@.len() == 0,
        listed.control,
        listed.session_name is Some == client.active.session_name is Some,
        listed.session_name is Some ==> listed.session_name->0@ == client.active.session_name->0@,
        listed.order == client.active.id,
        listed.width == 0 && listed.height == 0,
        listed.termname@ == client.active.terminal.term_name@,
        listed.termtype@.len() == 0,
        listed.termfeatures@ == client.active.terminal.explicit_features@,
        listed.utf8 == client.active.terminal.utf8,
        listed.key_table is None,
        listed.uid == client.active.uid,
        listed.user.same(client.active.user),
        listed.flags@ == flag_list(control_flags(client.active)),
{
}

/// The names of the orders, whatever white space is around them; a name that is none of
/// them, in any case, asks for no order.
pub proof fn orders_by_name(before: Seq<char>, name: Seq<char>, after: Seq<char>)
    requires
        all_white(before),
        all_white(after),
        name.len() > 0,
        !white_space(name[0]),
        !white_space(name.last()),
    ensures
        ({
            let order = named_order(before + name + after);
            let plain = lowercase(name);
            &&& plain == "index"@ || plain == "key"@ ==> order == Some(SessionSortOrder::Index)
            &&& plain == "name"@ || plain == "title"@ ==> order == Some(SessionSortOrder::Name)
            &&& plain == "activity"@ ==> order == Some(SessionSortOrder::Activity)
            &&& plain == "creation"@ ==> order == Some(SessionSortOrder::Creation)
            &&& plain == "modifier"@ ==> order == Some(SessionSortOrder::Modifier)
            &&& plain == "order"@ ==> order == Some(SessionSortOrder::Order)
            &&& plain == "size"@ ==> order == Some(SessionSortOrder::Size)
            &&& order is Some ==> plain == "index"@ || plain == "key"@ || plain == "name"@ || plain
                == "title"@ || plain == "activity"@ || plain == "creation"@ || plain
                == "modifier"@ || plain == "order"@ || plain == "size"@
        }),
{
    white_space_around_is_trimmed(before, name, after);
    reveal_strlit("index");
    reveal_strlit("key");
    reveal_strlit("name");
    reveal_strlit("title");
    reveal_strlit("activity");
    reveal_strlit("creation");
    reveal_strlit("modifier");
    reveal_strlit("order");
    reveal_strlit("size");
    assert("index"@[0] == 'i' && "key"@[0] == 'k' && "name"@[0] == 'n' && "title"@[0] == 't');
    assert("activity"@[0] == 'a' && "creation"@[0] == 'c' && "modifier"@[0] == 'm');
    assert("order"@[0] == 'o' && "size"@[0] == 's');
}

/// A list without an order, or with one that is unknown, is ordered by time of creation;
/// any other is ordered as asked.
pub proof fn lists_are_ordered_by_creation(sort_order: Option<&str>)
    ensures
        sort_order is None ==> list_order(sort_order) == SessionSortOrder::Creation,
        sort_order is Some ==> list_order(sort_order) == (match named_order(sort_order->0@) {
            Some(order) => order,
            None => SessionSortOrder::Creation,
        }),
{
}

/// In a sorted list a client comes before another as the order says, the other way round
/// where the list is reversed; where they are ordered alike, by name; and where the names
/// are ordered alike too, as they were.
pub proof fn sorted_clients_are_in_order(
    clients: Seq<ListClientSnapshot>,
    from: Seq<int>,
    order: SessionSortOrder,
    reversed: bool,
    i: int,
    j: int,
)
    requires
        in_order(clients, from, order, reversed, clients.len() as int),
        0 <= i < j < clients.len(),
    ensures
        ({
            let (low, high) = if reversed {
                (clients[j], clients[i])
            } else {
                (clients[i], clients[j])
            };
            let by_name = text_relation(clients[i].name@, clients[j].name@);
            let tied = by_name == Relation::Before || by_name == Relation::Same && from[i]
                < from[j];
            match order {
                SessionSortOrder::Creation | SessionSortOrder::Index => low.order < high.order
                    || low.order == high.order && tied,
                SessionSortOrder::Size => low.width < high.width || low.width == high.width
                    && low.height < high.height || low.width == high.width && low.height
                    == high.height && tied,
                SessionSortOrder::Name | SessionSortOrder::Modifier | SessionSortOrder::Order =>
                    text_relation(low.name@, high.name@) == Relation::Before || text_relation(
                        low.name@,
                        high.name@,
                    ) == Relation::Same && tied,
                SessionSortOrder::Activity => {
                    ||| low.session_name is None && high.session_name is Some
                    ||| low.session_name is None && high.session_name is None && tied
                    ||| low.session_name is Some && high.session_name is Some && text_relation(
                        low.session_name->0@,
                        high.session_name->0@,
                    ) == Relation::Before
                    ||| low.session_name is Some && high.session_name is Some && text_relation(
                        low.session_name->0@,
                        high.session_name->0@,
                    ) == Relation::Same && tied
                },
            }
        }),
{
    let left = clients[i];
    let right = clients[j];
    assert(client_relation(order, reversed, left, right) == client_relation(
        order,
        reversed,
        clients[i],
        clients[j],
    ));
    crate::text::byte_relation_flips(
        encode_utf8(left.name@),
        encode_utf8(right.name@),
    );
    if left.session_name is Some && right.session_name is Some {
        crate::text::byte_relation_flips(
            encode_utf8(left.session_name->0@),
            encode_utf8(right.session_name->0@),
        );
    }
}

/// A rearranged list holds every client of the list as often as the list does.
pub proof fn rearranging_keeps_every_client(
    before: Seq<ListClientSnapshot>,
    after: Seq<ListClientSnapshot>,
    from: Seq<int>,
)
    requires
        rearranged(before, after, from),
    ensures
        after.len() == before.len(),
        after.to_multiset() == before.to_multiset(),
    decreases before.len(),
{
    broadcast use vstd::seq_lib::group_to_multiset_ensures;

    if before.len() == 0 {
        assert(after =~= before);
    } else {
        let count = before.len() - 1;
        assert(from.contains(count as int));
        let place = choose|i: int| 0 <= i < from.len() && from[i] == count;
        let shorter = from.remove(place);
        let rest = after.remove(place);
        let start = before.drop_last();
        assert(rearranged(start, rest, shorter)) by {
            assert forall|i: int| 0 <= i < shorter.len() implies 0 <= #[trigger] shorter[i]
                < start.len() by {
                let old_place = if i < place { i } else { i + 1 };
                assert(shorter[i] == from[old_place]);
                assert(from[old_place] != from[place]);
            }
            assert forall|i: int, j: int| 0 <= i < j < shorter.len() implies #[trigger] shorter[i]
                != #[trigger] shorter[j] by {
                let first = if i < place { i } else { i + 1 };
                let second = if j < place { j } else { j + 1 };
                assert(from[first] != from[second]);
            }
            assert forall|wanted: int| 0 <= wanted < start.len() implies #[trigger] shorter.contains(
                wanted,
            ) by {
                assert(from.contains(wanted));
                let i = choose|i: int| 0 <= i < from.len() && from[i] == wanted;
                let there = if i < place { i } else { i - 1 };
                assert(shorter[there] == wanted);
            }
            assert forall|i: int| 0 <= i < shorter.len() implies #[trigger] rest[i]
                == start[shorter[i]] by {
                let old_place = if i < place { i } else { i + 1 };
                assert(after[old_place] == before[from[old_place]]);
                assert(from[old_place] != from[place]);
            }
        }
        rearranging_keeps_every_client(start, rest, shorter);
        assert(after[place] == before[count]);
        assert(before =~= start.push(before[count]));
        assert(after =~= rest.insert(place, after[place]));
        assert(after.to_multiset() =~= rest.to_multiset().insert(after[place]));
        assert(before.to_multiset() =~= start.to_multiset().insert(before[count]));
    }
}

/// What an environment says of its terminal: that of a pane of the server, or a locale
/// that names UTF-8 in any case. Of the three variables the first that is set and not
/// empty decides alone.
pub proof fn locales_say_utf8(environment: Map<Seq<char>, Seq<char>>)
    ensures
        ({
            let full = |name: Seq<char>|
                environment.dom().contains(name) && environment[name].len() > 0;
            let utf8 = |name: Seq<char>|
                occurs("utf-8"@, lowercase(environment[name])) || occurs(
                    "utf8"@,
                    lowercase(environment[name]),
                );
            let says = says_utf8(Some(environment));
            &&& !says_utf8(None)
            &&& full("RMUX"@) ==> says
            &&& !full("RMUX"@) && full("LC_ALL"@) ==> says == utf8("LC_ALL"@)
            &&& !full("RMUX"@) && !full("LC_ALL"@) && full("LC_CTYPE"@) ==> says == utf8(
                "LC_CTYPE"@,
            )
            &&& !full("RMUX"@) && !full("LC_ALL"@) && !full("LC_CTYPE"@) && full("LANG"@) ==> says
                == utf8("LANG"@)
            &&& !full("RMUX"@) && !full("LC_ALL"@) && !full("LC_CTYPE"@) && !full("LANG"@)
                ==> !says
        }),
{
}

/// In a Windows Terminal, one whose session variable is set and not empty, UTF-8 is shown
/// and the base features are there; anywhere else the features are as reported, and UTF-8
/// is shown where the client or its environment says so.
pub proof fn terminals_by_environment(
    environment: Option<Map<Seq<char>, Seq<char>>>,
    reported: Terminal,
)
    ensures
        ({
            let windows = environment is Some && environment->0.dom().contains("WT_SESSION"@)
                && environment->0["WT_SESSION"@].len() > 0;
            let terminal = effective_terminal(environment, reported);
            &&& in_windows_terminal(environment) == windows
            &&& windows ==> terminal.utf8 && terminal.features == with_base_features(
                reported.features,
            )
            &&& !windows ==> terminal.features == reported.features && terminal.utf8 == (
            reported.utf8 || says_utf8(environment))
        }),
{
}

/// A feature that is there, in any case, is not added again, and any other is added last.
pub proof fn features_are_added_once(features: Seq<Seq<char>>, feature: Seq<char>, at: int)
    ensures
        0 <= at < features.len() && lowercase(features[at]) == lowercase(feature) ==> with_feature(
            features,
            feature,
        ) == features,
        (forall|i: int|
            0 <= i < features.len() ==> lowercase(#[trigger] features[i]) != lowercase(feature))
            ==> with_feature(features, feature) == features + seq![feature],
{
    assert(features + seq![feature] =~= features.push(feature));
}

/// The base features, where there were none.
pub proof fn base_features_by_name()
    ensures
        with_base_features(Seq::empty()) == seq!["sync"@, "bpaste"@, "mouse"@, "clipboard"@],
{
    reveal_strlit("sync");
    reveal_strlit("bpaste");
    reveal_strlit("mouse");
    reveal_strlit("clipboard");
    let none = Seq::<Seq<char>>::empty();
    let one = seq!["sync"@];
    let two = seq!["sync"@, "bpaste"@];
    let three = seq!["sync"@, "bpaste"@, "mouse"@];
    features_are_added_once(none, "sync"@, 0);
    assert(none + one =~= one);
    assert(lowercase("sync"@)[0] == 's');
    assert(lowercase("bpaste"@)[0] == 'b');
    assert(lowercase("mouse"@)[0] == 'm');
    assert(lowercase("clipboard"@)[0] == 'c');
    features_are_added_once(one, "bpaste"@, 0);
    assert(one + seq!["bpaste"@] =~= two);
    features_are_added_once(two, "mouse"@, 0);
    assert(two + seq!["mouse"@] =~= three);
    features_are_added_once(three, "clipboard"@, 0);
    assert(three + seq!["clipboard"@] =~= seq!["sync"@, "bpaste"@, "mouse"@, "clipboard"@]);
}

/// Unlocking ends the suspension of one client and changes nothing else.
pub proof fn unlocking_ends_the_suspension(
    clients: Map<u32, ActiveAttach>,
    pid: u32,
    other: u32,
)
    ensures
        ({
            let after = with_unlocked(clients, pid);
            &&& after.dom() == clients.dom()
            &&& clients.dom().contains(pid) ==> after[pid] == (ActiveAttach {
                suspended: false,
                ..clients[pid]
            })
            &&& clients.dom().contains(other) && other != pid ==> after[other] == clients[other]
        }),
{
    let after = with_unlocked(clients, pid);
    assert(after.dom() =~= clients.dom());
}

/// An attachment is the one that is meant only under its own process and number, and only
/// as long as it is not closing.
pub proof fn attachments_are_told_apart(
    clients: Map<u32, ActiveAttach>,
    identity: ActiveAttachIdentity,
)
    ensures
        still_attached(clients, identity) ==> clients.dom().contains(identity.attach_pid)
            && clients[identity.attach_pid].id == identity.attach_id
            && !clients[identity.attach_pid].closing,
        clients.dom().contains(identity.attach_pid) && clients[identity.attach_pid].id
            == identity.attach_id && !clients[identity.attach_pid].closing ==> still_attached(
            clients,
            identity,
        ),
{
}

/// Each surface that draws the cursor itself is enough, and without any of them the client
/// does not.
pub proof fn any_surface_draws_the_cursor(active: ActiveAttach)
    ensures
        active.prompt is Some ==> draws_cursor(active),
        active.has_overlay ==> draws_cursor(active),
        active.has_mode_tree ==> draws_cursor(active),
        active.has_display_panes ==> draws_cursor(active),
        draws_cursor(active) ==> active.prompt is Some || active.has_overlay
            || active.has_mode_tree || active.has_display_panes,
{
}

/// A refresh finds its client by process, session and, where one is expected, number; its
/// frame goes to that number, or to whatever client has the process where none is expected.
pub proof fn refreshes_find_their_client(
    clients: Map<u32, ActiveAttach>,
    pid: u32,
    id: u64,
    session: Seq<char>,
)
    ensures
        !clients.dom().contains(pid) ==> !refreshable(clients, pid, None, session) && !refreshable(
            clients,
            pid,
            Some(id),
            session,
        ),
        clients.dom().contains(pid) ==> refreshable(clients, pid, None, session) == (
        clients[pid].session_name@ == session),
        clients.dom().contains(pid) ==> refreshable(clients, pid, Some(id), session) == (
        clients[pid].session_name@ == session && clients[pid].id == id),
        delivery_of(pid, None) == RefreshDelivery::Process(pid),
        delivery_of(pid, Some(id)) == RefreshDelivery::Identity(
            ActiveAttachIdentity { attach_pid: pid, attach_id: id },
        ),
{
}

/// A selector that is given counts one.
pub proof fn selectors_count_one_each()
    ensures
        counted(true) == 1,
        counted(false) == 0,
{
}

/// The segments of two paths joined by a slash are the segments of both.
proof fn segments_of_joined(left: Seq<char>, right: Seq<char>)
    ensures
        segments(left + seq!['/'] + right) == segments(left) + segments(right),
        segments(left).len() > 0,
    decreases right.len(),
{
    let whole = left + seq!['/'] + right;
    segments_exist(left);
    if right.len() == 0 {
        assert(whole.drop_last() =~= left);
        assert(whole.last() == '/');
        assert(segments(left).push(Seq::empty()) =~= segments(left) + segments(right));
    } else {
        segments_of_joined(left, right.drop_last());
        segments_exist(right.drop_last());
        assert(whole.drop_last() =~= left + seq!['/'] + right.drop_last());
        assert(whole.last() == right.last());
        assert(segments(whole) =~= segments(left) + segments(right));
    }
}

/// A path has at least one segment.
proof fn segments_exist(path: Seq<char>)
    ensures
        segments(path).len() > 0,
    decreases path.len(),
{
    if path.len() > 0 {
        segments_exist(path.drop_last());
    }
}

/// The segments that count behind the first one: neither empty nor a single dot.
pub open spec fn counting_behind(parts: Seq<Seq<char>>) -> Seq<Seq<char>>
    decreases parts.len(),
{
    if parts.len() == 0 {
        Seq::empty()
    } else {
        let before = counting_behind(parts.drop_last());
        if parts.last().len() > 0 && parts.last() != seq!['.'] {
            before.push(parts.last())
        } else {
            before
        }
    }
}

/// What counts of two lists of segments is what counts of each.
proof fn counting_of_joined(left: Seq<Seq<char>>, right: Seq<Seq<char>>)
    requires
        left.len() > 0,
    ensures
        counting(left + right) == counting(left) + counting_behind(right),
    decreases right.len(),
{
    let whole = left + right;
    if right.len() == 0 {
        assert(whole =~= left);
        assert(counting(left) + counting_behind(right) =~= counting(left));
    } else {
        counting_of_joined(left, right.drop_last());
        assert(whole.drop_last() =~= left + right.drop_last());
        assert(whole.last() == right.last());
        assert(counting(whole) =~= counting(left) + counting_behind(right));
    }
}

/// Behind the first segment, the same segments count as in a path by itself that does not
/// start with a dot.
proof fn counting_without_a_dot(parts: Seq<Seq<char>>)
    requires
        parts.len() > 0 ==> parts[0] != seq!['.'],
    ensures
        counting(parts) == counting_behind(parts),
    decreases parts.len(),
{
    if parts.len() > 0 {
        counting_without_a_dot(parts.drop_last());
    }
}

/// A path is the same with a slash or a dot at its end, and with a slash or a dot repeated
/// inside.
pub proof fn slashes_and_dots_do_not_matter(left: Seq<char>, right: Seq<char>)
    requires
        left.len() > 0,
    ensures
        same_path(left, left),
        same_path(left + seq!['/'], left),
        same_path(left + seq!['/', '.'], left),
        same_path(left + seq!['/', '/'] + right, left + seq!['/'] + right),
        same_path(left + seq!['/', '.', '/'] + right, left + seq!['/'] + right),
{
    let none = Seq::<char>::empty();
    let dot = seq!['.'];
    segments_of_joined(left, none);
    segments_of_joined(left, dot);
    segments_of_joined(left, right);
    segments_of_joined(left, none + seq!['/'] + right);
    segments_of_joined(left, dot + seq!['/'] + right);
    segments_of_joined(none, right);
    segments_of_joined(dot, right);
    assert(segments(none) =~= seq![none]);
    assert(dot.drop_last() =~= none);
    assert(segments(dot) =~= seq![dot]) by {
        assert(none.push('.') =~= dot);
    }
    counting_of_joined(segments(left), segments(none));
    counting_of_joined(segments(left), segments(dot));
    counting_of_joined(segments(left), segments(right));
    counting_of_joined(segments(left), segments(none) + segments(right));
    counting_of_joined(segments(left), segments(dot) + segments(right));
    idle_first_segment(none, segments(right));
    idle_first_segment(dot, segments(right));
    assert(left + seq!['/'] =~= left + seq!['/'] + none);
    assert(left + seq!['/', '.'] =~= left + seq!['/'] + dot);
    assert(left + seq!['/', '/'] + right =~= left + seq!['/'] + (none + seq!['/'] + right));
    assert(left + seq!['/', '.', '/'] + right =~= left + seq!['/'] + (dot + seq!['/'] + right));
    assert(seq![none].drop_last() =~= Seq::empty());
    assert(seq![dot].drop_last() =~= Seq::empty());
    assert(counting_behind(Seq::empty()) =~= Seq::empty());
    assert(counting(segments(left)) + Seq::empty() =~= counting(segments(left)));
}

/// A segment that does not count makes no difference in front of others.
proof fn idle_first_segment(idle: Seq<char>, rest: Seq<Seq<char>>)
    requires
        idle.len() == 0 || idle == seq!['.'],
    ensures
        counting_behind(seq![idle] + rest) == counting_behind(rest),
    decreases rest.len(),
{
    let whole = seq![idle] + rest;
    if rest.len() == 0 {
        assert(whole =~= seq![idle]);
        assert(whole.drop_last() =~= Seq::empty());
        assert(rest =~= Seq::empty());
    } else {
        idle_first_segment(idle, rest.drop_last());
        assert(whole.drop_last() =~= seq![idle] + rest.drop_last());
        assert(whole.last() == rest.last());
    }
}

/// A device is named by its own path, and by its path below `/dev`, written without a
/// leading slash or dot.
pub proof fn devices_are_named_below_dev(device: Seq<char>, below: Seq<char>)
    requires
        below.len() > 0,
        below[0] != '/',
        segments(below)[0] != seq!['.'],
    ensures
        names_device(device, device),
        names_device(seq!['/', 'd', 'e', 'v', '/'] + below, below),
{
    let root = Seq::<char>::empty();
    let dev = seq!['d', 'e', 'v'];
    let path = seq!['/', 'd', 'e', 'v', '/'] + below;
    reveal_strlit("dev");
    assert("dev"@ =~= dev);
    assert(path =~= root + seq!['/'] + (dev + seq!['/'] + below));
    segments_of_joined(root, dev + seq!['/'] + below);
    segments_of_joined(dev, below);
    segments_exist(below);
    assert(segments(root) =~= seq![root]);
    assert(segments(dev) =~= seq![dev]) by {
        assert(dev.drop_last() =~= seq!['d', 'e']);
        assert(seq!['d', 'e'].drop_last() =~= seq!['d']);
        assert(seq!['d'].drop_last() =~= root);
        reveal_with_fuel(segments, 4);
        assert(root.push('d').push('e').push('v') =~= dev);
    }
    let start = seq![root, dev];
    assert(segments(path) =~= start + segments(below));
    counting_of_joined(start, segments(below));
    counting_without_a_dot(segments(below));
    assert(start.drop_last() =~= seq![root]);
    assert(seq![root].drop_last() =~= Seq::empty());
    assert(counting(Seq::<Seq<char>>::empty()) =~= Seq::empty());
    assert(dev.len() == 3);
    assert(dev != seq!['.']) by {
        assert(seq!['.'].len() == 1);
    }
    assert(counting(seq![root]) =~= Seq::empty());
    assert(counting(start) =~= seq![dev]);
    assert(components(path) =~= seq![dev] + components(below));
    assert(components(path).skip(1) =~= components(below));
}

/// One target never names two devices below `/dev` with different paths.
pub proof fn a_target_names_one_device(
    one: Seq<char>,
    other: Seq<char>,
    target: Seq<char>,
)
    requires
        names_device(one, target),
        names_device(other, target),
        absolute(one),
        absolute(other),
    ensures
        same_path(one, other),
{
    if !absolute(target) {
        let first = components(one);
        let second = components(other);
        assert(first =~= seq!["dev"@] + first.skip(1));
        assert(second =~= seq!["dev"@] + second.skip(1));
    }
}

/// A target that starts at the root names a device only by its whole path.
pub proof fn absolute_targets_are_whole_paths(device: Seq<char>, target: Seq<char>)
    requires
        names_device(device, target),
        absolute(target),
    ensures
        absolute(device),
        components(device) == components(target),
{
}

/// Users are the same by number or by identifier, never one by the other, and each is
/// spelled as what it is the same by.
pub proof fn users_are_told_apart(uid: u32, other: u32, sid: String, another: String)
    ensures
        UserIdentity::Uid(uid).same(UserIdentity::Uid(other)) == (uid == other),
        UserIdentity::Sid(sid).same(UserIdentity::Sid(another)) == (sid@ == another@),
        !UserIdentity::Uid(uid).same(UserIdentity::Sid(sid)),
        !UserIdentity::Sid(sid).same(UserIdentity::Uid(uid)),
        UserIdentity::Uid(uid).spelled() == decimal_text(uid as nat),
        UserIdentity::Sid(sid).spelled() == sid@,
{
}

/// Terminals are the same where their type, their features and whether they show UTF-8 are.
pub proof fn terminals_are_told_apart(one: ClientTerminal, other: ClientTerminal)
    ensures
        one.same(other) ==> one.term_name@ == other.term_name@ && one.utf8 == other.utf8
            && one.explicit_features@ == other.explicit_features@,
        one.term_name@ == other.term_name@ && one.utf8 == other.utf8 && one.explicit_features@
            == other.explicit_features@ ==> one.same(other),
{
}

/// A client that has asked for nothing has no flag, and the argument of a server in the
/// background is known by its name.
pub proof fn nothing_is_asked_for()
    ensures
        !ClientFlags::none().ignore_size,
        !ClientFlags::none().no_detach_on_destroy,
        !ClientFlags::none().read_only,
        !ClientFlags::none().active_pane,
        daemon_flag() == "--__internal-daemon"@,
{
}

/// The first segment of a path counts unless it is empty, a single dot included; behind it
/// neither empty segments nor single dots count.
pub proof fn first_segments_count(first: Seq<char>, rest: Seq<char>)
    requires
        !first.contains('/'),
    ensures
        components(first) == (if first.len() > 0 {
            seq![first]
        } else {
            Seq::empty()
        }),
        components(first + seq!['/'] + rest) == (if first.len() > 0 {
            seq![first]
        } else {
            Seq::empty()
        }) + counting_behind(segments(rest)),
{
    unbroken_path_is_one_segment(first);
    segments_of_joined(first, rest);
    counting_of_joined(seq![first], segments(rest));
    assert(seq![first].drop_last() =~= Seq::empty());
    assert(counting(Seq::<Seq<char>>::empty()) =~= Seq::empty());
    assert(counting(seq![first]) =~= (if first.len() > 0 {
        seq![first]
    } else {
        Seq::empty()
    }));
}

/// A path without a slash is a single segment.
proof fn unbroken_path_is_one_segment(path: Seq<char>)
    requires
        !path.contains('/'),
    ensures
        segments(path) == seq![path],
    decreases path.len(),
{
    if path.len() == 0 {
        assert(path =~= Seq::empty());
    } else {
        let shorter = path.drop_last();
        assert(path[path.len() - 1] != '/');
        assert forall|i: int| 0 <= i < shorter.len() implies shorter[i] != '/' by {
            assert(path[i] != '/');
        }
        unbroken_path_is_one_segment(shorter);
        assert(shorter.push(path.last()) =~= path);
    }
}

/// Where a pane has no cursor of either kind, a refresh writes the status bar alone.
pub proof fn status_bar_without_a_cursor(status: Seq<u8>, client_owns_cursor: bool)
    ensures
        refreshed(status, client_owns_cursor, None, None) == status,
{
}

/// A client has the flags that it names, and read-only besides where it asks for that; it
/// never loses one.
pub proof fn flags_are_as_asked(named: ClientFlags, read_only: bool)
    ensures
        ({
            let flags = asked_flags(Some(named), read_only);
            &&& flags.ignore_size == named.ignore_size
            &&& flags.no_detach_on_destroy == named.no_detach_on_destroy
            &&& flags.active_pane == named.active_pane
            &&& flags.read_only == (named.read_only || read_only)
        }),
        ({
            let flags = asked_flags(None, read_only);
            &&& !flags.ignore_size && !flags.no_detach_on_destroy && !flags.active_pane
            &&& flags.read_only == read_only
        }),
{
}

/// Each line of an output is its UTF-8 form and a line feed, one line after the other.
pub proof fn output_ends_every_line(lines: Seq<Seq<char>>, line: Seq<char>)
    ensures
        output_of(Seq::empty()).len() == 0,
        output_of(lines.push(line)) == output_of(lines) + encode_utf8(line) + seq![0x0au8],
{
    reveal_strlit("\n");
    let feed = "\n"@;
    assert(feed =~= seq!['\n']);
    let all = lines.push(line);
    assert(all.drop_last() =~= lines);
    line_feed_is_one_byte();
    encoding_of_joined(line, feed);
    if lines.len() == 0 {
        assert(joined(all, feed) =~= line);
        assert(output_of(all) =~= output_of(lines) + encode_utf8(line) + seq![0x0au8]);
    } else {
        let before = joined(lines, feed) + feed;
        assert(joined(all, feed) + feed =~= before + (line + feed));
        encoding_of_joined(before, line + feed);
        assert(output_of(all) =~= output_of(lines) + encode_utf8(line) + seq![0x0au8]);
    }
}

/// A line feed is a single byte.
proof fn line_feed_is_one_byte()
    ensures
        encode_utf8(seq!['\n']) == seq![0x0au8],
{
    assert(seq!['\n'].drop_first() =~= Seq::empty());
    assert(encode_utf8(Seq::empty()) =~= Seq::empty());
    assert((0x0au32 & 0x7f) == 0x0a) by (bit_vector);
    assert(encode_scalar(0x0a) =~= seq![0x0au8]);
    assert(encode_utf8(seq!['\n']) =~= seq![0x0au8]);
}

/// The UTF-8 form of two texts together is that of one behind that of the other.
proof fn encoding_of_joined(left: Seq<char>, right: Seq<char>)
    ensures
        encode_utf8(left + right) == encode_utf8(left) + encode_utf8(right),
    decreases left.len(),
{
    if left.len() == 0 {
        assert(left + right =~= right);
        assert(encode_utf8(left) + encode_utf8(right) =~= encode_utf8(right));
    } else {
        encoding_of_joined(left.drop_first(), right);
        assert((left + right).drop_first() =~= left.drop_first() + right);
        assert((left + right)[0] == left[0]);
        assert(encode_utf8(left + right) =~= encode_utf8(left) + encode_utf8(right));
    }
}

/// One colon behind a target is dropped, and a target without one is taken as it is.
pub proof fn one_colon_is_dropped(name: Seq<char>)
    ensures
        without_colon(name + seq![':']) == name,
        name.len() == 0 || name.last() != ':' ==> without_colon(name) == name,
{
    assert((name + seq![':']).drop_last() =~= name);
}

/// Each selector of a switch counts, whatever the others are.
pub proof fn selectors_add_up(request: SwitchClientExt3Request)
    ensures
        0 <= selectors_given(request) <= 4,
        selectors_given(request) == 0 <==> request.target is None && !request.last_session
            && !request.next_session && !request.previous_session,
        selectors_given(request) == 4 <==> request.target is Some && request.last_session
            && request.next_session && request.previous_session,
        request.last_session ==> selectors_given(request) == selectors_given(
            SwitchClientExt3Request { last_session: false, ..request },
        ) + 1,
        request.next_session ==> selectors_given(request) == selectors_given(
            SwitchClientExt3Request { next_session: false, ..request },
        ) + 1,
        request.previous_session ==> selectors_given(request) == selectors_given(
            SwitchClientExt3Request { previous_session: false, ..request },
        ) + 1,
        request.target is Some ==> selectors_given(request) == selectors_given(
            SwitchClientExt3Request { target: None, ..request },
        ) + 1,
{
}

/// A status bar that is refreshed by time is refreshed after the seconds that are set, and
/// none where they are zero.
pub proof fn intervals_are_in_seconds(seconds: u32)
    ensures
        status_interval(0) is None,
        seconds > 0 ==> status_interval(seconds) is Some && status_interval(seconds)->0 == seconds,
{
}

/// A request is that of the attached client's user first, of the control client's next, and
/// of the owner of the server where the process is no client's.
pub proof fn requests_have_a_user(
    attached: Map<u32, ActiveAttach>,
    control: Map<u32, ActiveControl>,
    pid: u32,
    owner_uid: u32,
)
    ensures
        attached.dom().contains(pid) ==> user_of(attached, control, pid, owner_uid)
            == attached[pid].uid,
        !attached.dom().contains(pid) && control.dom().contains(pid) ==> user_of(
            attached,
            control,
            pid,
            owner_uid,
        ) == control[pid].uid,
        !attached.dom().contains(pid) && !control.dom().contains(pid) ==> user_of(
            attached,
            control,
            pid,
            owner_uid,
        ) == owner_uid,
{
}

/// The environment of another process is taken from it; that of the server itself only
/// where it was started in the background.
pub proof fn environments_have_a_source(pid: u32, own_pid: u32)
    ensures
        pid != own_pid ==> environment_source(pid, own_pid, true) == EnvironmentSource::Process(pid),
        pid != own_pid ==> environment_source(pid, own_pid, false) == EnvironmentSource::Process(
            pid,
        ),
        environment_source(own_pid, own_pid, true) == EnvironmentSource::OwnProcess,
        environment_source(own_pid, own_pid, false) == EnvironmentSource::Nothing,
{
}

/// The patterns of an option value are separated by white space, and there are none without
/// a value.
pub proof fn patterns_are_words(left: Seq<char>, space: char, right: Seq<char>)
    requires
        white_space(space),
    ensures
        environment_patterns(None).len() == 0,
        environment_patterns(Some(left + seq![space] + right)) == environment_patterns(Some(left))
            + environment_patterns(Some(right)),
        none_white(left) && left.len() > 0 ==> environment_patterns(Some(left)) == seq![left],
{
    white_space_separates_words(left, space, right);
    if none_white(left) {
        unbroken_text_is_one_word(left);
    }
}

/// A list is reversed only where that and an order are asked for.
pub proof fn lists_are_reversed_as_asked(name: &str)
    ensures
        list_reversed(Some(name), true),
        !list_reversed(Some(name), false),
        !list_reversed(None, true),
        !list_reversed(None, false),
{
}

} // verus!
