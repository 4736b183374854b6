//! Naming a client by its terminal device.
use crate::text::{same_text, texts};
use vstd::prelude::*;
use vstd::string::*;

verus! {

/// The parts of a path between its slashes.
pub open spec fn segments(path: Seq<char>) -> Seq<Seq<char>>
    decreases path.len(),
{
    if path.len() == 0 {
        seq![Seq::empty()]
    } else {
        let before = segments(path.drop_last());
        if path.last() == '/' {
            before.push(Seq::empty())
        } else {
            before.drop_last().push(before.last().push(path.last()))
        }
    }
}

/// The segments that count: not the empty ones, and a single dot only where the path
/// starts with it.
pub open spec fn counting(segments: Seq<Seq<char>>) -> Seq<Seq<char>>
    decreases segments.len(),
{
    if segments.len() == 0 {
        Seq::empty()
    } else {
        let before = counting(segments.drop_last());
        let last = segments.last();
        if last.len() > 0 && (last != seq!['.'] || segments.len() == 1) {
            before.push(last)
        } else {
            before
        }
    }
}

/// The components of a path.
pub open spec fn components(path: Seq<char>) -> Seq<Seq<char>> {
    counting(segments(path))
}

/// The path starts at the root.
pub open spec fn absolute(path: Seq<char>) -> bool {
    path.len() > 0 && path[0] == '/'
}

/// The two paths have the same components.
pub open spec fn same_path(left: Seq<char>, right: Seq<char>) -> bool {
    absolute(left) == absolute(right) && components(left) == components(right)
}

/// The target is the path of the device, in full or from `/dev` on.
pub open spec fn names_device(device: Seq<char>, target: Seq<char>) -> bool {
    ||| same_path(device, target)
    ||| {
        &&& absolute(device)
        &&& components(device).len() > 0
        &&& components(device)[0] == "dev"@
        &&& !absolute(target)
        &&& components(device).skip(1) == components(target)
    }
}

/// Whether the text is a single dot.
fn is_dot(text: &str) -> (dot: bool)
    ensures
        dot == (text@ == seq!['.']),
{
    let dot: bool = text.unicode_len() == 1 && text.get_char(0) == '.';
    proof {
        if dot {
            assert(text@ =~= seq!['.']);
        }
    }
    dot
}

/// The components of a path.
fn path_components(path: &str) -> (parts: Vec<String>)
    ensures
        texts(parts@) == components(path@),
{
    let count: usize = path.unicode_len();
    let mut parts: Vec<String> = Vec::new();
    let mut start: usize = 0;
    let mut first: bool = true;
    let mut index: usize = 0;
    // The segments that ended before `start`.
    let ghost mut done = Seq::<Seq<char>>::empty();
    assert(path@.subrange(0, 0) =~= Seq::<char>::empty());
    while index < count
        invariant
            count == path@.len(),
            start <= index <= count,
            first == (done.len() == 0),
            segments(path@.take(index as int)) == done.push(
                path@.subrange(start as int, index as int),
            ),
            texts(parts@) == counting(done),
        decreases count - index,
    {
        let ghost longer = path@.take(index + 1);
        let ghost segment = path@.subrange(start as int, index as int);
        assert(longer.drop_last() =~= path@.take(index as int));
        if path.get_char(index) == '/' {
            push_segment(&mut parts, path, start, index, first, Ghost(done));
            proof {
                done = done.push(segment);
            }
            first = false;
            start = index + 1;
            assert(path@.subrange(start as int, index + 1) =~= Seq::<char>::empty());
        } else {
            assert(path@.subrange(start as int, index + 1) =~= segment.push(path@[index as int]));
        }
        index = index + 1;
    }
    assert(path@.take(index as int) =~= path@);
    push_segment(&mut parts, path, start, index, first, Ghost(done));
    parts
}

/// Appends the segment between two places of a path, where it counts.
fn push_segment(
    parts: &mut Vec<String>,
    path: &str,
    start: usize,
    end: usize,
    first: bool,
    Ghost(done): Ghost<Seq<Seq<char>>>,
)
    requires
        start <= end <= path@.len(),
        first == (done.len() == 0),
        texts(old(parts)@) == counting(done),
    ensures
        texts(final(parts)@) == counting(done.push(path@.subrange(start as int, end as int))),
{
    let segment: &str = path.substring_char(start, end);
    let ghost all = done.push(segment@);
    assert(all.drop_last() =~= done);
    if segment.unicode_len() > 0 && (first || !is_dot(segment)) {
        parts.push(segment.to_owned());
    }
}

/// Whether the components of one path from `skip` on are those of another.
fn same_components(left: &Vec<String>, skip: usize, right: &Vec<String>) -> (same: bool)
    requires
        skip <= left@.len(),
    ensures
        same == (texts(left@).skip(skip as int) == texts(right@)),
{
    let ghost a = texts(left@).skip(skip as int);
    let ghost b = texts(right@);
    if left.len() - skip != right.len() {
        assert(a.len() != b.len());
        return false;
    }
    let mut index: usize = 0;
    while index < right.len()
        invariant
            skip + right@.len() == left.len(),
            a == texts(left@).skip(skip as int),
            b == texts(right@),
            index <= right@.len(),
            forall|i: int| 0 <= i < index ==> a[i] == b[i],
        decreases right@.len() - index,
    {
        assert(b[index as int] == right@[index as int]@);
        if !same_text(left[skip + index].as_str(), right[index].as_str()) {
            return false;
        }
        index = index + 1;
    }
    assert(a =~= b);
    true
}

/// Whether the path starts at the root.
fn is_absolute(path: &str) -> (yes: bool)
    ensures
        yes == absolute(path@),
{
    path.unicode_len() > 0 && path.get_char(0) == '/'
}

/// Whether the target names the client whose terminal device is given, in full or
/// from `/dev` on. A client without a device has no such name.
pub fn attached_client_matches_target(tty_path: Option<&str>, target_client: &str) -> (yes: bool)
    ensures
        yes == (tty_path is Some && names_device(tty_path->0@, target_client@)),
{
    let device: &str = match tty_path {
        Some(path) => path,
        None => {
            return false;
        },
    };
    let device_parts: Vec<String> = path_components(device);
    let target_parts: Vec<String> = path_components(target_client);
    let device_absolute: bool = is_absolute(device);
    let target_absolute: bool = is_absolute(target_client);
    assert(texts(device_parts@).skip(0) =~= texts(device_parts@));
    if device_absolute == target_absolute && same_components(&device_parts, 0, &target_parts) {
        return true;
    }
    device_absolute && device_parts.len() > 0 && same_text(device_parts[0].as_str(), "dev")
        && !target_absolute && same_components(&device_parts, 1, &target_parts)
}

} // verus!
