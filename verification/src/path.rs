//! Remote paths: parents, temporary names, and the directories on the way.

use vstd::prelude::*;
use vstd::string::*;

use crate::text::chars_of;

verus! {

/// The place of the last `/` in a path, if there is one.
pub open spec fn last_slash(path: Seq<char>) -> Option<int>
    decreases path.len(),
{
    if path.len() == 0 {
        None
    } else if path.last() == '/' {
        Some(path.len() - 1)
    } else {
        last_slash(path.drop_last())
    }
}

/// The directory that a path lies in: what stands before its last `/`, which is
/// the root where nothing does. A path without a `/` names no directory.
pub open spec fn parent_of(path: Seq<char>) -> Option<Seq<char>> {
    match last_slash(path) {
        Some(cut) => if cut == 0 {
            Some("/"@)
        } else {
            Some(path.take(cut))
        },
        None => None,
    }
}

/// The directory that `path` lies in.
pub fn remote_parent(path: &str) -> (res: Option<&str>)
    ensures
        match res {
            Some(parent) => parent_of(path@) == Some(parent@),
            None => parent_of(path@) is None,
        },
{
    let chars = chars_of(path);
    let mut end: usize = chars.len();
    assert(chars@.take(chars@.len() as int) == path@);
    while end > 0
        invariant
            end <= chars@.len(),
            chars@ == path@,
            last_slash(path@) == last_slash(chars@.take(end as int)),
        decreases end,
    {
        let ghost prefix = chars@.take(end as int);
        assert(prefix.last() == chars@[end - 1]);
        assert(prefix.drop_last() == chars@.take(end - 1));
        if chars[end - 1] == '/' {
            if end == 1 {
                return Some("/");
            }
            return Some(path.substring_char(0, end - 1));
        }
        end -= 1;
    }
    None
}

/// The name under which a file is uploaded before it replaces `dest`.
pub open spec fn temporary_of(dest: Seq<char>) -> Seq<char> {
    dest + ".tmp"@
}

/// The name under which a file is uploaded before it replaces `dest`.
pub fn temporary_path(dest: &str) -> (res: String)
    ensures
        res@ == temporary_of(dest@),
{
    dest.to_owned().concat(".tmp")
}

/// The pieces of a path between its slashes, in order. Two slashes in a row
/// have an empty piece between them.
pub open spec fn pieces(path: Seq<char>) -> Seq<Seq<char>>
    decreases path.len(),
{
    if path.len() == 0 {
        seq![Seq::<char>::empty()]
    } else {
        let before = pieces(path.drop_last());
        if path.last() == '/' {
            before.push(Seq::<char>::empty())
        } else {
            before.drop_last().push(before.last().push(path.last()))
        }
    }
}

/// Whether a piece of a path leads into a directory: empty pieces and `.` stay
/// where they are.
pub open spec fn descends(piece: Seq<char>) -> bool {
    piece.len() > 0 && piece != seq!['.']
}

/// The pieces of a path that lead into a directory.
pub open spec fn components(path: Seq<char>) -> Seq<Seq<char>> {
    pieces(path).filter(|piece: Seq<char>| descends(piece))
}

/// Where a path starts from: the root, or nowhere in particular.
pub open spec fn root_of(path: Seq<char>) -> Seq<char> {
    if path.len() > 0 && path[0] == '/' {
        seq!['/']
    } else {
        Seq::empty()
    }
}

/// Names with a `/` between each and the next.
pub open spec fn joined(names: Seq<Seq<char>>) -> Seq<char>
    decreases names.len(),
{
    if names.len() == 0 {
        Seq::empty()
    } else if names.len() == 1 {
        names[0]
    } else {
        joined(names.drop_last()).push('/') + names.last()
    }
}

/// The directories passed on the way down from `root` through `names`.
pub open spec fn descent(root: Seq<char>, names: Seq<Seq<char>>) -> Seq<Seq<char>> {
    Seq::new(names.len(), |k: int| root + joined(names.take(k + 1)))
}

/// The directories that must exist for `path` to be one, outermost first.
pub open spec fn directories(path: Seq<char>) -> Seq<Seq<char>> {
    descent(root_of(path), components(path))
}

/// The views of a list of texts.
pub open spec fn texts(list: Seq<String>) -> Seq<Seq<char>> {
    list.map_values(|s: String| s@)
}

/// Goes on from `current` into `piece`, if that leads anywhere.
fn enter(reached: &mut Vec<String>, current: &mut String, piece: &String, Ghost(root): Ghost<Seq<char>>, Ghost(names): Ghost<Seq<Seq<char>>>)
    requires
        texts(old(reached)@) == descent(root, names),
        old(current)@ == root + joined(names),
    ensures
        ({
            let after = if descends(piece@) { names.push(piece@) } else { names };
            &&& texts(final(reached)@) == descent(root, after)
            &&& final(current)@ == root + joined(after)
        }),
{
    let chars = chars_of(piece.as_str());
    if chars.len() == 0 {
        return;
    }
    if chars.len() == 1 && chars[0] == '.' {
        assert(piece@ == seq!['.']);
        return;
    }
    let ghost after = names.push(piece@);
    assert(after.drop_last() == names);
    assert(texts(reached@).len() == names.len());
    if reached.len() > 0 {
        current.push('/');
        assert(current@ == root + joined(names).push('/'));
    } else {
        assert(joined(names) == Seq::<char>::empty());
    }
    current.append(piece.as_str());
    assert(current@ == root + joined(after));
    reached.push(current.clone());
    assert(texts(reached@) == descent(root, after)) by {
        assert forall|k: int| 0 <= k < after.len() implies texts(reached@)[k] == #[trigger] descent(root, after)[k] by {
            if k < names.len() {
                assert(after.take(k + 1) == names.take(k + 1));
                assert(texts(old(reached)@)[k] == descent(root, names)[k]);
            } else {
                assert(after.take(k + 1) == after);
            }
        }
    }
}

proof fn filter_of_push(s: Seq<Seq<char>>, piece: Seq<char>)
    ensures
        s.push(piece).filter(|p: Seq<char>| descends(p)) == if descends(piece) {
            s.filter(|p: Seq<char>| descends(p)).push(piece)
        } else {
            s.filter(|p: Seq<char>| descends(p))
        },
{
    reveal(Seq::filter);
    assert(s.push(piece).drop_last() == s);
}

/// The directories that must exist for `path` to be one, outermost first.
pub fn remote_directories(path: &str) -> (res: Vec<String>)
    ensures
        texts(res@) == directories(path@),
{
    let chars = chars_of(path);
    let mut reached: Vec<String> = Vec::new();
    let mut current = String::new();
    if chars.len() > 0 && chars[0] == '/' {
        current.push('/');
    }
    let ghost root = root_of(path@);
    let mut piece = String::new();
    let mut done: usize = 0;
    proof {
        reveal(Seq::filter);
        assert(current@ == root);
        assert(root + joined(Seq::empty()) == root);
        assert(pieces(chars@.take(0)).drop_last() == Seq::<Seq<char>>::empty());
        assert(texts(reached@) == descent(root, Seq::<Seq<char>>::empty()));
    }
    while done < chars.len()
        invariant
            done <= chars@.len(),
            root == root_of(path@),
            pieces(chars@.take(done as int)).len() > 0,
            piece@ == pieces(chars@.take(done as int)).last(),
            texts(reached@) == descent(root, pieces(chars@.take(done as int)).drop_last().filter(|p: Seq<char>| descends(p))),
            current@ == root + joined(pieces(chars@.take(done as int)).drop_last().filter(|p: Seq<char>| descends(p))),
        decreases chars@.len() - done,
    {
        let c = chars[done];
        let ghost before = pieces(chars@.take(done as int));
        assert(chars@.take(done + 1).drop_last() == chars@.take(done as int));
        assert(before == before.drop_last().push(before.last()));
        if c == '/' {
            proof {
                filter_of_push(before.drop_last(), before.last());
                assert(pieces(chars@.take(done + 1)).drop_last() == before);
            }
            enter(&mut reached, &mut current, &piece, Ghost(root), Ghost(before.drop_last().filter(|p: Seq<char>| descends(p))));
            piece = String::new();
        } else {
            piece.push(c);
            assert(pieces(chars@.take(done + 1)).drop_last() == before.drop_last());
        }
        done += 1;
    }
    proof {
        assert(chars@.take(done as int) == path@);
        let all = pieces(path@);
        assert(all == all.drop_last().push(all.last()));
        filter_of_push(all.drop_last(), all.last());
    }
    enter(&mut reached, &mut current, &piece, Ghost(root), Ghost(pieces(path@).drop_last().filter(|p: Seq<char>| descends(p))));
    reached
}

/// The temporary name of a file lies in the same directory as the file, so that
/// putting it in place stays within one directory.
pub proof fn temporary_lies_beside_destination(dest: Seq<char>)
    ensures
        parent_of(temporary_of(dest)) == parent_of(dest),
{
    reveal_strlit(".tmp");
    let temporary = temporary_of(dest);
    let n = dest.len() as int;
    assert(temporary.take(n + 4) == temporary);
    assert(temporary.take(n + 4).drop_last() == temporary.take(n + 3));
    assert(temporary.take(n + 3).drop_last() == temporary.take(n + 2));
    assert(temporary.take(n + 2).drop_last() == temporary.take(n + 1));
    assert(temporary.take(n + 1).drop_last() == dest);
    reveal_with_fuel(last_slash, 5);
    last_slash_is_inside(dest);
    if let Some(cut) = last_slash(dest) {
        assert(temporary.take(cut) == dest.take(cut));
    }
}

proof fn last_slash_is_inside(path: Seq<char>)
    ensures
        last_slash(path) matches Some(cut) ==> 0 <= cut < path.len() && path[cut] == '/',
    decreases path.len(),
{
    if path.len() > 0 && path.last() != '/' {
        last_slash_is_inside(path.drop_last());
    }
}

/// The temporary name of a file is never the name of the file itself.
pub proof fn temporary_is_not_the_destination(dest: Seq<char>)
    ensures
        temporary_of(dest) != dest,
{
    reveal_strlit(".tmp");
    assert(temporary_of(dest).len() == dest.len() + 4);
}

/// A parent is a directory strictly inside the text of the path, or the root.
pub proof fn parent_stands_before_the_last_slash(path: Seq<char>)
    ensures
        parent_of(path) is Some <==> path.contains('/'),
        parent_of(path) matches Some(parent) ==> parent.len() > 0,
        parent_of(path) matches Some(parent) ==> parent == "/"@ || (parent.len() < path.len()
            && parent == path.take(parent.len() as int) && path[parent.len() as int] == '/'
            && !path.skip(parent.len() as int + 1).contains('/')),
{
    reveal_strlit("/");
    last_slash_is_last(path);
    if let Some(cut) = last_slash(path) {
        assert(path.contains(path[cut]));
    }
}

proof fn last_slash_is_last(path: Seq<char>)
    ensures
        match last_slash(path) {
            Some(cut) => 0 <= cut < path.len() && path[cut] == '/' && !path.skip(cut + 1).contains('/'),
            None => !path.contains('/'),
        },
    decreases path.len(),
{
    if path.len() > 0 && path.last() != '/' {
        let shorter = path.drop_last();
        last_slash_is_last(shorter);
        match last_slash(shorter) {
            Some(cut) => {
                let rest = path.skip(cut + 1);
                let shorter_rest = shorter.skip(cut + 1);
                assert forall|i: int| 0 <= i < rest.len() implies rest[i] != '/' by {
                    if i < shorter_rest.len() {
                        assert(rest[i] == shorter_rest[i]);
                    }
                }
            },
            None => {
                assert forall|i: int| 0 <= i < path.len() implies path[i] != '/' by {
                    if i < shorter.len() {
                        assert(path[i] == shorter[i]);
                    }
                }
            },
        }
    }
}

/// Joining the pieces of a path gives the path back.
pub proof fn pieces_rejoin(path: Seq<char>)
    ensures
        pieces(path).len() > 0,
        joined(pieces(path)) == path,
    decreases path.len(),
{
    if path.len() > 0 {
        let shorter = path.drop_last();
        pieces_rejoin(shorter);
        let before = pieces(shorter);
        let all = pieces(path);
        assert(path == shorter.push(path.last()));
        if path.last() == '/' {
            assert(all.drop_last() == before);
            assert(joined(all) == path);
        } else {
            assert(all.drop_last() == before.drop_last());
            assert(joined(all) == path);
        }
    }
}

/// Each directory but the first lies directly in the one before it, so that
/// none is created before what holds it.
pub proof fn directories_nest(path: Seq<char>, k: int)
    requires
        0 < k < directories(path).len(),
    ensures
        directories(path)[k] == directories(path)[k - 1].push('/') + components(path)[k],
{
    let names = components(path).take(k + 1);
    assert(names.drop_last() == components(path).take(k));
    assert(directories(path)[k] == directories(path)[k - 1].push('/') + components(path)[k]);
}

spec fn weight(names: Seq<Seq<char>>) -> int
    decreases names.len(),
{
    if names.len() == 0 {
        0
    } else {
        weight(names.drop_last()) + names.last().len() + 1
    }
}

proof fn joined_is_light(names: Seq<Seq<char>>)
    ensures
        weight(names) >= 0,
        names.len() > 0 ==> joined(names).len() == weight(names) - 1,
    decreases names.len(),
{
    if names.len() > 0 {
        joined_is_light(names.drop_last());
        reveal_with_fuel(weight, 2);
    }
}

proof fn weight_of_prefix(names: Seq<Seq<char>>, k: int)
    requires
        0 <= k <= names.len(),
    ensures
        weight(names.take(k)) <= weight(names),
    decreases names.len() - k,
{
    if k < names.len() {
        weight_of_prefix(names, k + 1);
        assert(names.take(k + 1).drop_last() == names.take(k));
    } else {
        assert(names.take(k) == names);
    }
}

proof fn pieces_weigh_no_more(path: Seq<char>)
    ensures
        pieces(path).len() > 0,
        root_of(path).len() + weight(pieces(path).drop_last().filter(|p: Seq<char>| descends(p)))
            + pieces(path).last().len() <= path.len(),
    decreases path.len(),
{
    reveal(Seq::filter);
    if path.len() > 0 {
        let shorter = path.drop_last();
        pieces_weigh_no_more(shorter);
        let before = pieces(shorter);
        let all = pieces(path);
        if shorter.len() == 0 {
            assert(before.drop_last() == Seq::<Seq<char>>::empty());
            if path.last() == '/' {
                assert(all.drop_last() == before);
                filter_of_push(before.drop_last(), before.last());
                assert(before == before.drop_last().push(before.last()));
            } else {
                assert(all.drop_last() == before.drop_last());
            }
        } else {
            assert(shorter[0] == path[0]);
            if path.last() == '/' {
                assert(all.drop_last() == before);
                assert(before == before.drop_last().push(before.last()));
                filter_of_push(before.drop_last(), before.last());
                let done = before.drop_last().filter(|p: Seq<char>| descends(p));
                assert(done.push(before.last()).drop_last() == done);
            } else {
                assert(all.drop_last() == before.drop_last());
            }
        }
    } else {
        assert(pieces(path).drop_last() == Seq::<Seq<char>>::empty());
    }
}

/// No directory on the way to a path is longer than the path.
pub proof fn directories_are_no_longer(path: Seq<char>, k: int)
    requires
        0 <= k < directories(path).len(),
    ensures
        directories(path)[k].len() <= path.len(),
{
    pieces_weigh_no_more(path);
    let all = pieces(path);
    let done = all.drop_last().filter(|p: Seq<char>| descends(p));
    assert(all == all.drop_last().push(all.last()));
    filter_of_push(all.drop_last(), all.last());
    let names = components(path);
    if descends(all.last()) {
        assert(names.drop_last() == done);
    }
    assert(weight(names) <= weight(done) + all.last().len() + 1);
    weight_of_prefix(names, k + 1);
    joined_is_light(names.take(k + 1));
    joined_is_light(names);
    if !descends(all.last()) {
        assert(names == done);
    }
}

proof fn pieces_around_a_slash(a: Seq<char>, b: Seq<char>)
    ensures
        pieces(a.push('/') + b) == pieces(a) + pieces(b),
    decreases b.len(),
{
    let whole = a.push('/') + b;
    if b.len() == 0 {
        assert(whole == a.push('/'));
        assert(whole.drop_last() == a);
        assert(pieces(a).push(Seq::empty()) == pieces(a) + pieces(b));
    } else {
        let shorter = b.drop_last();
        pieces_around_a_slash(a, shorter);
        pieces_rejoin(shorter);
        assert(whole.drop_last() == a.push('/') + shorter);
        assert(whole.last() == b.last());
        assert(pieces(whole) == pieces(a) + pieces(b));
    }
}

proof fn components_around_a_slash(a: Seq<char>, b: Seq<char>)
    ensures
        components(a.push('/') + b) == components(a) + components(b),
{
    pieces_around_a_slash(a, b);
    let descending = |piece: Seq<char>| descends(piece);
    Seq::filter_distributes_over_add(pieces(a), pieces(b), descending);
}

proof fn nothing_and_dot_have_no_components()
    ensures
        components(Seq::empty()) == Seq::<Seq<char>>::empty(),
        components(seq!['.']) == Seq::<Seq<char>>::empty(),
{
    reveal(Seq::filter);
    let nothing = Seq::<char>::empty();
    let dot = seq!['.'];
    let none = Seq::<Seq<char>>::empty();
    assert(pieces(nothing) == none.push(nothing));
    filter_of_push(none, nothing);
    assert(dot.drop_last() == nothing);
    assert(pieces(nothing).drop_last() == none);
    assert(nothing.push('.') == dot);
    assert(pieces(dot) == none.push(dot));
    filter_of_push(none, dot);
}

/// A doubled slash, a `.` between slashes and a slash at the end make no difference
/// to the directories that a path needs.
pub proof fn spelling_does_not_change_the_directories(a: Seq<char>, b: Seq<char>)
    ensures
        directories(a.push('/').push('/') + b) == directories(a.push('/') + b),
        directories(a.push('/').push('.').push('/') + b) == directories(a.push('/') + b),
        directories(a.push('/')) == directories(a),
{
    let nothing = Seq::<char>::empty();
    let dot = seq!['.'];
    nothing_and_dot_have_no_components();
    components_around_a_slash(a, b);
    components_around_a_slash(a, nothing);
    assert(a.push('/') + nothing == a.push('/'));
    components_around_a_slash(a.push('/'), b);
    components_around_a_slash(a, dot);
    assert(a.push('/') + dot == a.push('/').push('.'));
    components_around_a_slash(a.push('/').push('.'), b);
    assert(components(a) + Seq::<Seq<char>>::empty() == components(a));
    if a.len() == 0 {
        assert(a == nothing);
        assert(directories(a.push('/')) == directories(a));
    } else {
        assert(a.push('/')[0] == a[0]);
    }
    assert(root_of(a.push('/').push('/') + b) == root_of(a.push('/') + b));
    assert(root_of(a.push('/').push('.').push('/') + b) == root_of(a.push('/') + b));
}

/// The temporary name is the destination with `.tmp` behind it.
pub proof fn temporary_ends_in_tmp(dest: Seq<char>)
    ensures
        temporary_of(dest).len() == dest.len() + 4,
        temporary_of(dest).take(dest.len() as int) == dest,
        temporary_of(dest).skip(dest.len() as int) == seq!['.', 't', 'm', 'p'],
{
    reveal_strlit(".tmp");
}

proof fn last_slash_before_a_name(dir: Seq<char>, name: Seq<char>)
    requires
        !name.contains('/'),
    ensures
        last_slash(dir.push('/') + name) == Some(dir.len() as int),
        last_slash(name) is None,
    decreases name.len(),
{
    let path = dir.push('/') + name;
    if name.len() == 0 {
        assert(path == dir.push('/'));
    } else {
        let shorter = name.drop_last();
        assert(name.contains(name[name.len() - 1]));
        assert forall|i: int| 0 <= i < shorter.len() implies shorter[i] != '/' by {
            assert(name.contains(name[i]));
        }
        last_slash_before_a_name(dir, shorter);
        assert(path.drop_last() == dir.push('/') + shorter);
        assert(path.last() == name.last());
    }
}

/// A file lies in what stands before its name, and in the root where nothing does;
/// a name alone lies in no directory that it tells of.
pub proof fn parent_is_what_the_name_lies_in(dir: Seq<char>, name: Seq<char>)
    requires
        !name.contains('/'),
    ensures
        parent_of(dir.push('/') + name) == Some(
            if dir.len() == 0 {
                seq!['/']
            } else {
                dir
            },
        ),
        parent_of(name) is None,
{
    reveal_strlit("/");
    last_slash_before_a_name(dir, name);
    assert((dir.push('/') + name).take(dir.len() as int) == dir);
    assert("/"@ == seq!['/']);
}

/// No piece of a path holds a slash.
pub proof fn pieces_hold_no_slash(path: Seq<char>)
    ensures
        forall|k: int| 0 <= k < pieces(path).len() ==> !(#[trigger] pieces(path)[k]).contains('/'),
    decreases path.len(),
{
    if path.len() > 0 {
        let before = pieces(path.drop_last());
        pieces_hold_no_slash(path.drop_last());
        pieces_rejoin(path.drop_last());
        let all = pieces(path);
        assert forall|k: int| 0 <= k < all.len() implies !(#[trigger] all[k]).contains('/') by {
            if k < all.len() - 1 || path.last() == '/' {
                if k < before.len() {
                    assert(all[k] == before[k]);
                }
            } else {
                let old_piece = before[before.len() - 1];
                assert(all[k] == old_piece.push(path.last()));
                assert forall|i: int| 0 <= i < all[k].len() implies all[k][i] != '/' by {
                    if i < old_piece.len() {
                        assert(old_piece.contains(old_piece[i]));
                    }
                }
            }
        }
    }
}

proof fn name_is_one_piece(name: Seq<char>)
    requires
        !name.contains('/'),
    ensures
        pieces(name) == seq![name],
    decreases name.len(),
{
    if name.len() > 0 {
        let shorter = name.drop_last();
        assert(name.contains(name[name.len() - 1]));
        assert forall|i: int| 0 <= i < shorter.len() implies shorter[i] != '/' by {
            assert(name.contains(name[i]));
        }
        name_is_one_piece(shorter);
        assert(shorter.push(name.last()) == name);
        assert(pieces(name) == seq![name]);
    } else {
        assert(name == Seq::<char>::empty());
    }
}

/// Every name in a path, other than an empty one and `.`, calls for a directory of
/// its own, directly inside the one before it: one more name is one more directory
/// at the end, and the ones before it stay.
pub proof fn each_name_calls_for_a_directory(path: Seq<char>, name: Seq<char>)
    requires
        name.len() > 0,
        name != seq!['.'],
        !name.contains('/'),
    ensures
        directories(name) == seq![name],
        directories(path.push('/') + name) == directories(path).push(
            if directories(path).len() > 0 {
                directories(path).last().push('/') + name
            } else if path.len() == 0 || path[0] == '/' {
                seq!['/'] + name
            } else {
                name
            },
        ),
{
    let none = Seq::<Seq<char>>::empty();
    name_is_one_piece(name);
    assert(pieces(name) == none.push(name));
    reveal(Seq::filter);
    filter_of_push(none, name);
    assert(components(name) == seq![name]);
    assert(name.contains(name[0]));
    assert(components(name).take(1) == seq![name]);
    assert(joined(seq![name]) == name);
    assert(directories(name) == seq![name]);

    let whole = path.push('/') + name;
    let before = components(path);
    let after = components(whole);
    components_around_a_slash(path, name);
    assert(after == before.push(name));
    let n = before.len() as int;
    if path.len() > 0 {
        assert(whole[0] == path[0]);
        assert(root_of(whole) == root_of(path));
    } else {
        assert(path == Seq::<char>::empty());
        nothing_and_dot_have_no_components();
    }
    assert forall|k: int| 0 <= k < n implies directories(whole)[k] == #[trigger] directories(path)[k] by {
        assert(after.take(k + 1) == before.take(k + 1));
    }
    assert(after.take(n + 1) == after);
    assert(after.drop_last() == before);
    if n > 0 {
        assert(before.take(n) == before);
        assert(directories(path).last() == root_of(path) + joined(before));
        assert(directories(whole)[n] == directories(path).last().push('/') + name);
    } else {
        assert(joined(after) == name);
        assert(Seq::<char>::empty() + name == name);
    }
    assert(directories(whole) == directories(path).push(directories(whole)[n]));
}

/// Whether a path is spelled without empty names and `.`: only the piece before a
/// leading slash is empty.
pub open spec fn is_plain(path: Seq<char>) -> bool {
    path.len() > 0 && forall|k: int|
        #![trigger pieces(path)[k]]
        0 <= k < pieces(path).len() ==> (k == 0 && path[0] == '/') || (pieces(path)[k].len() > 0
            && pieces(path)[k] != seq!['.'])
}

/// The directories that a plainly spelled path needs are exactly the parts of it
/// that end before a slash, shortest first, and then the path itself.
pub proof fn directories_are_the_leading_parts(path: Seq<char>)
    requires
        is_plain(path),
    ensures
        directories(path).len() > 0,
        directories(path).last() == path,
        forall|i: int|
            #![trigger directories(path)[i]]
            0 <= i < directories(path).len() ==> {
                let part = directories(path)[i];
                &&& 0 < part.len() <= path.len()
                &&& part == path.take(part.len() as int)
                &&& part.len() == path.len() || path[part.len() as int] == '/'
            },
        forall|j: int|
            0 < j < path.len() && #[trigger] path[j] == '/' ==> directories(path).contains(
                path.take(j),
            ),
        forall|i: int, j: int|
            0 <= i < j < directories(path).len() ==> (#[trigger] directories(path)[i]).len() < (
            #[trigger] directories(path)[j]).len(),
    decreases path.len(),
{
    last_slash_is_last(path);
    let dirs = directories(path);
    match last_slash(path) {
        None => {
            name_is_one_piece(path);
            assert(pieces(path)[0] == path);
            assert(path[0] != '/') by {
                assert(path.contains(path[0]));
            }
            each_name_calls_for_a_directory(path, path);
            assert(dirs[0] == path);
            assert forall|j: int| 0 < j < path.len() && #[trigger] path[j] == '/' implies dirs.contains(
                path.take(j),
            ) by {
                assert(path.contains(path[j]));
            }
        },
        Some(cut) => {
            let dir = path.take(cut);
            let name = path.skip(cut + 1);
            assert(path == dir.push('/') + name);
            pieces_around_a_slash(dir, name);
            name_is_one_piece(name);
            pieces_rejoin(dir);
            let m = pieces(dir).len() as int;
            assert(pieces(path)[m] == name);
            each_name_calls_for_a_directory(dir, name);
            if cut == 0 {
                assert(dir == Seq::<char>::empty());
                nothing_and_dot_have_no_components();
                assert(seq!['/'] + name == path);
                assert(dirs == seq![path]);
                assert(dirs[0] == path);
                assert forall|j: int| 0 < j < path.len() && #[trigger] path[j] == '/' implies dirs.contains(
                    path.take(j),
                ) by {
                    assert(name[j - 1] == path[j]);
                    assert(name.contains(name[j - 1]));
                }
            } else {
                assert forall|k: int| 0 <= k < m implies (k == 0 && dir[0] == '/') || (#[trigger] pieces(
                    dir,
                )[k].len() > 0 && pieces(dir)[k] != seq!['.']) by {
                    assert(pieces(path)[k] == pieces(dir)[k]);
                    assert(dir[0] == path[0]);
                }
                assert(is_plain(dir));
                directories_are_the_leading_parts(dir);
                let above = directories(dir);
                assert(above.last().push('/') + name == path);
                assert(dirs == above.push(path));
                assert forall|i: int| #![trigger dirs[i]] 0 <= i < dirs.len() implies {
                    let part = dirs[i];
                    &&& 0 < part.len() <= path.len()
                    &&& part == path.take(part.len() as int)
                    &&& part.len() == path.len() || path[part.len() as int] == '/'
                } by {
                    if i < above.len() {
                        let part = above[i];
                        assert(dirs[i] == part);
                        assert(dir.take(part.len() as int) == path.take(part.len() as int));
                    } else {
                        assert(path.take(path.len() as int) == path);
                    }
                }
                assert forall|j: int| 0 < j < path.len() && #[trigger] path[j] == '/' implies dirs.contains(
                    path.take(j),
                ) by {
                    if j < cut {
                        assert(dir[j] == path[j]);
                        assert(dir.take(j) == path.take(j));
                        let i = choose|i: int| 0 <= i < above.len() && above[i] == path.take(j);
                        assert(dirs[i] == path.take(j));
                    } else if j == cut {
                        assert(above[above.len() - 1] == dir);
                        assert(dirs[above.len() - 1] == path.take(j));
                    } else {
                        assert(name[j - cut - 1] == path[j]);
                        assert(name.contains(name[j - cut - 1]));
                    }
                }
                assert forall|i: int, j: int| 0 <= i < j < dirs.len() implies (#[trigger] dirs[i]).len() < (
                #[trigger] dirs[j]).len() by {
                    assert(dirs[i] == above[i]);
                    if j < above.len() {
                        assert(dirs[j] == above[j]);
                    } else {
                        assert(above[i].len() <= dir.len());
                    }
                }
            }
        },
    }
}

/// Of the pieces of a path, exactly those that are neither empty nor `.` lead into
/// a directory.
pub proof fn components_are_the_names(path: Seq<char>, piece: Seq<char>)
    ensures
        components(path).contains(piece) <==> pieces(path).contains(piece) && piece.len() > 0
            && piece != seq!['.'],
{
    names_are_kept(pieces(path), piece);
}

proof fn names_are_kept(list: Seq<Seq<char>>, piece: Seq<char>)
    ensures
        list.filter(|p: Seq<char>| descends(p)).contains(piece) <==> list.contains(piece)
            && piece.len() > 0 && piece != seq!['.'],
    decreases list.len(),
{
    reveal(Seq::filter);
    if list.len() > 0 {
        let before = list.drop_last();
        names_are_kept(before, piece);
        assert(list == before.push(list.last()));
        filter_of_push(before, list.last());
        let old_kept = before.filter(|p: Seq<char>| descends(p));
        let all_kept = list.filter(|p: Seq<char>| descends(p));
        if list.contains(piece) && piece != list.last() {
            let i = choose|i: int| 0 <= i < list.len() && list[i] == piece;
            assert(before[i] == piece);
        }
        if before.contains(piece) {
            let i = choose|i: int| 0 <= i < before.len() && before[i] == piece;
            assert(list[i] == piece);
        }
        if old_kept.contains(piece) {
            let i = choose|i: int| 0 <= i < old_kept.len() && old_kept[i] == piece;
            assert(all_kept[i] == piece);
        }
        if all_kept.contains(piece) && !old_kept.contains(piece) {
            let i = choose|i: int| 0 <= i < all_kept.len() && all_kept[i] == piece;
            if i < old_kept.len() {
                assert(old_kept[i] == piece);
            }
        }
        if piece == list.last() && descends(piece) {
            assert(all_kept[all_kept.len() - 1] == piece);
            assert(list[list.len() - 1] == piece);
        }
    }
}

/// The views of a list of texts are those of its texts, in their order.
pub proof fn texts_are_in_order(list: Seq<String>)
    ensures
        texts(list).len() == list.len(),
        forall|i: int| 0 <= i < list.len() ==> #[trigger] texts(list)[i] == list[i]@,
{
}

} // verus!
