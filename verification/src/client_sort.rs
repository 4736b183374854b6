//! The order in which clients are listed.
use crate::clients::ListClientSnapshot;
use crate::text::{
    byte_relation_chains, byte_relation_flips, byte_relation_separates, flipped, lowercase,
    relate_text, same_ignoring_case, text_relation, trim_text, trimmed, Relation,
};
use vstd::prelude::*;
use vstd::utf8::*;

verus! {

/// What a list is ordered by.
#[derive(Debug, Clone, Copy, PartialEq, Eq, Structural)]
pub enum SessionSortOrder {
    /// By number.
    Index,
    /// By name.
    Name,
    /// By last activity.
    Activity,
    /// By time of creation.
    Creation,
    /// By modifier.
    Modifier,
    /// In the natural order.
    Order,
    /// By size.
    Size,
}

/// The order that a name stands for, in any case and with white space around it.
pub open spec fn named_order(name: Seq<char>) -> Option<SessionSortOrder> {
    let plain = lowercase(trimmed(name));
    if plain == "index"@ || plain == "key"@ {
        Some(SessionSortOrder::Index)
    } else if plain == "name"@ || plain == "title"@ {
        Some(SessionSortOrder::Name)
    } else if plain == "activity"@ {
        Some(SessionSortOrder::Activity)
    } else if plain == "creation"@ {
        Some(SessionSortOrder::Creation)
    } else if plain == "modifier"@ {
        Some(SessionSortOrder::Modifier)
    } else if plain == "order"@ {
        Some(SessionSortOrder::Order)
    } else if plain == "size"@ {
        Some(SessionSortOrder::Size)
    } else {
        None
    }
}

/// The order that is asked for, where one is.
pub open spec fn asked_order(sort_order: Option<&str>) -> Option<SessionSortOrder> {
    match sort_order {
        Some(name) => named_order(name@),
        None => None,
    }
}

/// How two numbers are ordered.
pub open spec fn number_relation(left: int, right: int) -> Relation {
    if left < right {
        Relation::Before
    } else if left > right {
        Relation::After
    } else {
        Relation::Same
    }
}

/// How two optional texts are ordered: none before any.
pub open spec fn optional_relation(left: Option<String>, right: Option<String>) -> Relation {
    match (left, right) {
        (None, None) => Relation::Same,
        (None, Some(_)) => Relation::Before,
        (Some(_), None) => Relation::After,
        (Some(left), Some(right)) => text_relation(left@, right@),
    }
}

/// How two clients are ordered by what the list is ordered by.
pub open spec fn key_relation(
    order: SessionSortOrder,
    left: ListClientSnapshot,
    right: ListClientSnapshot,
) -> Relation {
    match order {
        SessionSortOrder::Name | SessionSortOrder::Modifier | SessionSortOrder::Order =>
            text_relation(left.name@, right.name@),
        SessionSortOrder::Size => {
            let width = number_relation(left.width as int, right.width as int);
            if width == Relation::Same {
                number_relation(left.height as int, right.height as int)
            } else {
                width
            }
        },
        SessionSortOrder::Creation | SessionSortOrder::Index => number_relation(
            left.order as int,
            right.order as int,
        ),
        SessionSortOrder::Activity => optional_relation(left.session_name, right.session_name),
    }
}

/// How two clients are ordered in the list: as asked for, the other way round where
/// that is asked for, and by name where they are ordered alike.
pub open spec fn client_relation(
    order: SessionSortOrder,
    reversed: bool,
    left: ListClientSnapshot,
    right: ListClientSnapshot,
) -> Relation {
    let key = key_relation(order, left, right);
    let directed = if reversed {
        flipped(key)
    } else {
        key
    };
    if directed == Relation::Same {
        text_relation(left.name@, right.name@)
    } else {
        directed
    }
}

/// One list is the other rearranged: each place takes the client that `from` says.
pub open spec fn rearranged(
    before: Seq<ListClientSnapshot>,
    after: Seq<ListClientSnapshot>,
    from: Seq<int>,
) -> bool {
    &&& after.len() == before.len()
    &&& from.len() == before.len()
    &&& forall|i: int| 0 <= i < from.len() ==> 0 <= #[trigger] from[i] < before.len()
    &&& forall|i: int, j: int| 0 <= i < j < from.len() ==> #[trigger] from[i] != #[trigger] from[j]
    &&& forall|place: int| 0 <= place < before.len() ==> #[trigger] from.contains(place)
    &&& forall|i: int| 0 <= i < from.len() ==> #[trigger] after[i] == before[from[i]]
}

/// The first `count` clients are in order, those ordered alike as they were.
pub open spec fn in_order(
    clients: Seq<ListClientSnapshot>,
    from: Seq<int>,
    order: SessionSortOrder,
    reversed: bool,
    count: int,
) -> bool {
    forall|i: int, j: int|
        0 <= i < j < count ==> {
            let relation = client_relation(
                order,
                reversed,
                #[trigger] clients[i],
                #[trigger] clients[j],
            );
            relation == Relation::Before || (relation == Relation::Same && from[i] < from[j])
        }
}

/// The order of clients by key is the same from both sides.
proof fn key_relation_flips(
    order: SessionSortOrder,
    left: ListClientSnapshot,
    right: ListClientSnapshot,
)
    ensures
        key_relation(order, right, left) == flipped(key_relation(order, left, right)),
{
    byte_relation_flips(encode_utf8(left.name@), encode_utf8(right.name@));
    if left.session_name is Some && right.session_name is Some {
        byte_relation_flips(
            encode_utf8(left.session_name->0@),
            encode_utf8(right.session_name->0@),
        );
    }
}

/// The order of clients by key is transitive.
proof fn key_relation_chains(
    order: SessionSortOrder,
    left: ListClientSnapshot,
    middle: ListClientSnapshot,
    right: ListClientSnapshot,
)
    requires
        key_relation(order, left, middle) != Relation::After,
        key_relation(order, middle, right) != Relation::After,
    ensures
        key_relation(order, left, right) != Relation::After,
{
    match order {
        SessionSortOrder::Name | SessionSortOrder::Modifier | SessionSortOrder::Order => {
            byte_relation_chains(
                encode_utf8(left.name@),
                encode_utf8(middle.name@),
                encode_utf8(right.name@),
            );
        },
        SessionSortOrder::Activity => {
            if left.session_name is Some && middle.session_name is Some
                && right.session_name is Some {
                byte_relation_chains(
                    encode_utf8(left.session_name->0@),
                    encode_utf8(middle.session_name->0@),
                    encode_utf8(right.session_name->0@),
                );
            }
        },
        _ => {},
    }
}

/// The order of clients is the same from both sides.
pub proof fn client_relation_flips(
    order: SessionSortOrder,
    reversed: bool,
    left: ListClientSnapshot,
    right: ListClientSnapshot,
)
    ensures
        client_relation(order, reversed, right, left) == flipped(
            client_relation(order, reversed, left, right),
        ),
{
    key_relation_flips(order, left, right);
    byte_relation_flips(encode_utf8(left.name@), encode_utf8(right.name@));
}

/// The order of clients is transitive.
pub proof fn client_relation_chains(
    order: SessionSortOrder,
    reversed: bool,
    left: ListClientSnapshot,
    middle: ListClientSnapshot,
    right: ListClientSnapshot,
)
    requires
        client_relation(order, reversed, left, middle) != Relation::After,
        client_relation(order, reversed, middle, right) != Relation::After,
    ensures
        client_relation(order, reversed, left, right) != Relation::After,
{
    key_relation_flips(order, left, middle);
    key_relation_flips(order, middle, right);
    key_relation_flips(order, left, right);
    let forward = key_relation(order, left, right);
    if reversed {
        key_relation_chains(order, right, middle, left);
        if key_relation(order, right, left) == Relation::Same {
            // Equal ends leave no room for a difference in between.
            if key_relation(order, middle, left) == Relation::Before {
                key_relation_chains(order, left, right, middle);
            }
            if key_relation(order, right, middle) == Relation::Before {
                key_relation_chains(order, middle, left, right);
            }
        }
    } else {
        key_relation_chains(order, left, middle, right);
        if forward == Relation::Same {
            if key_relation(order, left, middle) == Relation::Before {
                key_relation_chains(order, middle, right, left);
            }
            if key_relation(order, middle, right) == Relation::Before {
                key_relation_chains(order, right, left, middle);
            }
        }
    }
    if text_relation(left.name@, middle.name@) != Relation::After && text_relation(
        middle.name@,
        right.name@,
    ) != Relation::After {
        byte_relation_chains(
            encode_utf8(left.name@),
            encode_utf8(middle.name@),
            encode_utf8(right.name@),
        );
    }
}

/// The names of the orders are in lower case.
proof fn order_names_are_lowercase()
    ensures
        lowercase("index"@) == "index"@,
        lowercase("key"@) == "key"@,
        lowercase("name"@) == "name"@,
        lowercase("title"@) == "title"@,
        lowercase("activity"@) == "activity"@,
        lowercase("creation"@) == "creation"@,
        lowercase("modifier"@) == "modifier"@,
        lowercase("order"@) == "order"@,
        lowercase("size"@) == "size"@,
{
    reveal_strlit("index");
    reveal_strlit("key");
    reveal_strlit("name");
    reveal_strlit("title");
    reveal_strlit("activity");
    reveal_strlit("creation");
    reveal_strlit("modifier");
    reveal_strlit("order");
    reveal_strlit("size");
}

/// The order that a name stands for.
pub fn parse_session_sort_order(sort_order: Option<&str>) -> (order: Option<SessionSortOrder>)
    ensures
        order == asked_order(sort_order),
{
    let name: &str = match sort_order {
        Some(name) => trim_text(name),
        None => {
            return None;
        },
    };
    proof {
        order_names_are_lowercase();
    }
    if same_ignoring_case(name, "index") || same_ignoring_case(name, "key") {
        Some(SessionSortOrder::Index)
    } else if same_ignoring_case(name, "name") || same_ignoring_case(name, "title") {
        Some(SessionSortOrder::Name)
    } else if same_ignoring_case(name, "activity") {
        Some(SessionSortOrder::Activity)
    } else if same_ignoring_case(name, "creation") {
        Some(SessionSortOrder::Creation)
    } else if same_ignoring_case(name, "modifier") {
        Some(SessionSortOrder::Modifier)
    } else if same_ignoring_case(name, "order") {
        Some(SessionSortOrder::Order)
    } else if same_ignoring_case(name, "size") {
        Some(SessionSortOrder::Size)
    } else {
        None
    }
}

/// How two numbers are ordered.
fn relate_numbers(left: u64, right: u64) -> (relation: Relation)
    ensures
        relation == number_relation(left as int, right as int),
{
    if left < right {
        Relation::Before
    } else if left > right {
        Relation::After
    } else {
        Relation::Same
    }
}

/// How two clients are ordered in the list.
fn relate_clients(
    order: SessionSortOrder,
    reversed: bool,
    left: &ListClientSnapshot,
    right: &ListClientSnapshot,
) -> (relation: Relation)
    ensures
        relation == client_relation(order, reversed, *left, *right),
{
    let key: Relation = match order {
        SessionSortOrder::Name | SessionSortOrder::Modifier | SessionSortOrder::Order =>
            relate_text(left.name.as_str(), right.name.as_str()),
        SessionSortOrder::Size => {
            if left.width != right.width {
                relate_numbers(left.width as u64, right.width as u64)
            } else {
                relate_numbers(left.height as u64, right.height as u64)
            }
        },
        SessionSortOrder::Creation | SessionSortOrder::Index => relate_numbers(
            left.order,
            right.order,
        ),
        SessionSortOrder::Activity => match (&left.session_name, &right.session_name) {
            (None, None) => Relation::Same,
            (None, Some(_)) => Relation::Before,
            (Some(_), None) => Relation::After,
            (Some(left), Some(right)) => relate_text(left.as_str(), right.as_str()),
        },
    };
    match key {
        Relation::Same => relate_text(left.name.as_str(), right.name.as_str()),
        Relation::Before => if reversed {
            Relation::After
        } else {
            Relation::Before
        },
        Relation::After => if reversed {
            Relation::Before
        } else {
            Relation::After
        },
    }
}

/// Clients that are ordered alike have the same name.
pub proof fn clients_ordered_alike_share_a_name(
    order: SessionSortOrder,
    reversed: bool,
    left: ListClientSnapshot,
    right: ListClientSnapshot,
)
    requires
        client_relation(order, reversed, left, right) == Relation::Same,
    ensures
        left.name@ == right.name@,
{
    byte_relation_separates(encode_utf8(left.name@), encode_utf8(right.name@));
    encode_utf8_decode_utf8(left.name@);
    encode_utf8_decode_utf8(right.name@);
}

/// The order that a list has: the one asked for, else by time of creation.
pub open spec fn list_order(sort_order: Option<&str>) -> SessionSortOrder {
    match asked_order(sort_order) {
        Some(order) => order,
        None => SessionSortOrder::Creation,
    }
}

/// The list is reversed: that is asked for, and an order is too.
pub open spec fn list_reversed(sort_order: Option<&str>, reversed: bool) -> bool {
    reversed && sort_order is Some
}

/// Sorts a list of clients. The order is reversed only where an order is asked for,
/// and clients that are ordered alike stay as they were.
pub fn sort_list_clients(
    clients: &mut Vec<ListClientSnapshot>,
    sort_order: Option<&str>,
    reversed: bool,
)
    ensures
        exists|from: Seq<int>|
            {
                &&& #[trigger] rearranged(old(clients)@, final(clients)@, from)
                &&& in_order(
                    final(clients)@,
                    from,
                    list_order(sort_order),
                    reversed && sort_order is Some,
                    final(clients)@.len() as int,
                )
            },
        exists|from: Seq<int>|
            {
                &&& #[trigger] rearranged(old(clients)@, final(clients)@, from)
                &&& in_order(
                    final(clients)@,
                    from,
                    list_order(sort_order),
                    list_reversed(sort_order, reversed),
                    final(clients)@.len() as int,
                )
            },
{
    let reversed: bool = reversed && sort_order.is_some();
    let order: SessionSortOrder = match parse_session_sort_order(sort_order) {
        Some(order) => order,
        None => SessionSortOrder::Creation,
    };
    let ghost before = clients@;
    let ghost mut from = Seq::new(before.len(), |i: int| i);
    assert forall|place: int| 0 <= place < before.len() implies #[trigger] from.contains(place) by {
        assert(from[place] == place);
    }
    let mut count: usize = 0;
    while count < clients.len()
        invariant
            count <= clients@.len(),
            rearranged(before, clients@, from),
            in_order(clients@, from, order, reversed, count as int),
            forall|i: int| count <= i < from.len() ==> #[trigger] from[i] == i,
            forall|i: int| 0 <= i < count ==> #[trigger] from[i] < count,
        decreases clients@.len() - count,
    {
        let ghost sorted = clients@;
        let ghost places = from;
        let mut place: usize = count;
        while place > 0 && relate_clients(order, reversed, &clients[place - 1], &clients[count])
            == Relation::After
            invariant
                place <= count < clients@.len(),
                clients@ == sorted,
                forall|i: int|
                    place <= i < count ==> client_relation(
                        order,
                        reversed,
                        #[trigger] sorted[i],
                        sorted[count as int],
                    ) == Relation::After,
            decreases place,
        {
            place = place - 1;
        }
        proof {
            assert forall|i: int| 0 <= i < place implies client_relation(
                order,
                reversed,
                #[trigger] sorted[i],
                sorted[count as int],
            ) != Relation::After by {
                if i < place - 1 {
                    client_relation_chains(
                        order,
                        reversed,
                        sorted[i],
                        sorted[place - 1],
                        sorted[count as int],
                    );
                }
            }
            assert forall|i: int| place <= i < count implies client_relation(
                order,
                reversed,
                sorted[count as int],
                #[trigger] sorted[i],
            ) == Relation::Before by {
                client_relation_flips(order, reversed, sorted[i], sorted[count as int]);
            }
        }
        let client: ListClientSnapshot = clients.remove(count);
        clients.insert(place, client);
        proof {
            from = places.remove(count as int).insert(place as int, count as int);
            insertion_keeps_order(
                before,
                sorted,
                places,
                order,
                reversed,
                count as int,
                place as int,
            );
        }
        count = count + 1;
    }
}

/// Moving a client down to its place keeps the list a rearrangement in order.
proof fn insertion_keeps_order(
    before: Seq<ListClientSnapshot>,
    sorted: Seq<ListClientSnapshot>,
    places: Seq<int>,
    order: SessionSortOrder,
    reversed: bool,
    count: int,
    place: int,
)
    requires
        rearranged(before, sorted, places),
        in_order(sorted, places, order, reversed, count),
        0 <= place <= count < sorted.len(),
        forall|i: int| count <= i < places.len() ==> #[trigger] places[i] == i,
        forall|i: int| 0 <= i < count ==> #[trigger] places[i] < count,
        forall|i: int|
            0 <= i < place ==> client_relation(
                order,
                reversed,
                #[trigger] sorted[i],
                sorted[count],
            ) != Relation::After,
        forall|i: int|
            place <= i < count ==> client_relation(
                order,
                reversed,
                sorted[count],
                #[trigger] sorted[i],
            ) == Relation::Before,
    ensures
        ({
            let after = sorted.remove(count).insert(place, sorted[count]);
            let from = places.remove(count).insert(place, count);
            &&& rearranged(before, after, from)
            &&& in_order(after, from, order, reversed, count + 1)
            &&& forall|i: int| count + 1 <= i < from.len() ==> #[trigger] from[i] == i
            &&& forall|i: int| 0 <= i < count + 1 ==> #[trigger] from[i] < count + 1
        }),
{
    let after = sorted.remove(count).insert(place, sorted[count]);
    let from = places.remove(count).insert(place, count);
    assert forall|wanted: int| 0 <= wanted < before.len() implies #[trigger] from.contains(
        wanted,
    ) by {
        assert(places.contains(wanted));
        let i = choose|i: int| 0 <= i < places.len() && places[i] == wanted;
        let moved = if i < place {
            i
        } else if i < count {
            i + 1
        } else if i == count {
            place
        } else {
            i
        };
        assert(from[moved] == wanted);
    }
    assert(in_order(after, from, order, reversed, count + 1));
}

/// A sorted list is determined by the list it was sorted from: two lists that are
/// sorted from one are equal.
pub proof fn sorted_list_is_determined(
    before: Seq<ListClientSnapshot>,
    one: Seq<ListClientSnapshot>,
    other: Seq<ListClientSnapshot>,
    one_from: Seq<int>,
    other_from: Seq<int>,
    order: SessionSortOrder,
    reversed: bool,
)
    requires
        rearranged(before, one, one_from),
        rearranged(before, other, other_from),
        in_order(one, one_from, order, reversed, one.len() as int),
        in_order(other, other_from, order, reversed, other.len() as int),
    ensures
        one == other,
{
    assert forall|i: int| 0 <= i < one.len() implies #[trigger] one[i] == other[i] by {
        same_places(before, one, other, one_from, other_from, order, reversed, i);
    }
}

/// Two lists that are sorted from one take every place from the same client.
proof fn same_places(
    before: Seq<ListClientSnapshot>,
    one: Seq<ListClientSnapshot>,
    other: Seq<ListClientSnapshot>,
    one_from: Seq<int>,
    other_from: Seq<int>,
    order: SessionSortOrder,
    reversed: bool,
    place: int,
)
    requires
        rearranged(before, one, one_from),
        rearranged(before, other, other_from),
        in_order(one, one_from, order, reversed, one.len() as int),
        in_order(other, other_from, order, reversed, other.len() as int),
        0 <= place < before.len(),
    ensures
        one_from[place] == other_from[place],
    decreases place,
{
    assert forall|i: int| 0 <= i < place implies #[trigger] one_from[i] == other_from[i] by {
        same_places(before, one, other, one_from, other_from, order, reversed, i);
    }
    let first = one_from[place];
    let second = other_from[place];
    assert(other_from.contains(first) && one_from.contains(second));
    let there = choose|i: int| 0 <= i < other_from.len() && other_from[i] == first;
    let here = choose|i: int| 0 <= i < one_from.len() && one_from[i] == second;
    if there < place {
        assert(one_from[there] == first);
    }
    if there > place && here > place {
        assert(one[place] == before[first] && one[here] == before[second]);
        assert(other[place] == before[second] && other[there] == before[first]);
        client_relation_flips(order, reversed, before[first], before[second]);
    }
}

} // verus!
