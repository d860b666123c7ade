//! Paths as text, worked on without looking at the file system.
use vstd::prelude::*;
use crate::text;
use crate::text::{chars_of, join_texts, same, split_text, text_between};

verus! {

pub open spec fn is_absolute(path: Seq<char>) -> bool {
    path.len() > 0 && path[0] == '/'
}

/// A piece between slashes that names something.
pub open spec fn names_something(piece: Seq<char>) -> bool {
    piece.len() > 0 && piece != "."@
}

/// The pieces that name something, in order.
pub open spec fn named(pieces: Seq<Seq<char>>) -> Seq<Seq<char>>
    decreases pieces.len(),
{
    if pieces.len() == 0 {
        Seq::empty()
    } else if names_something(pieces.last()) {
        named(pieces.drop_last()).push(pieces.last())
    } else {
        named(pieces.drop_last())
    }
}

/// The components of a path below its root.
pub open spec fn components(path: Seq<char>) -> Seq<Seq<char>> {
    named(text::split(path, '/'))
}

/// One step down the components: `..` takes the last name back, is dropped at
/// the root, and stays where there is nothing to take back.
pub open spec fn step(
    absolute: bool,
    done: Seq<Seq<char>>,
    component: Seq<char>,
) -> Seq<Seq<char>> {
    if component != ".."@ {
        done.push(component)
    } else if done.len() > 0 && done.last() != ".."@ {
        done.drop_last()
    } else if absolute {
        done
    } else {
        done.push(component)
    }
}

pub open spec fn resolved(absolute: bool, components: Seq<Seq<char>>) -> Seq<Seq<char>>
    decreases components.len(),
{
    if components.len() == 0 {
        Seq::empty()
    } else {
        step(absolute, resolved(absolute, components.drop_last()), components.last())
    }
}

/// The text of a path with the given components.
pub open spec fn path_text(absolute: bool, components: Seq<Seq<char>>) -> Seq<char> {
    if absolute {
        "/"@ + text::join(components, "/"@)
    } else if components.len() == 0 {
        "."@
    } else {
        text::join(components, "/"@)
    }
}

/// The path without `.`, empty pieces and resolvable `..`.
pub open spec fn normalized(path: Seq<char>) -> Seq<char> {
    path_text(is_absolute(path), resolved(is_absolute(path), components(path)))
}

/// `rel` below `base`; an absolute `rel` stands for itself.
pub open spec fn joined(base: Seq<char>, rel: Seq<char>) -> Seq<char> {
    if is_absolute(rel) || base.len() == 0 {
        rel
    } else if base.last() == '/' {
        base + rel
    } else {
        base + "/"@ + rel
    }
}

/// The last component, where it is a name.
pub open spec fn file_name(path: Seq<char>) -> Option<Seq<char>> {
    let parts = components(path);
    if parts.len() == 0 || parts.last() == ".."@ {
        None
    } else {
        Some(parts.last())
    }
}

/// What follows the last dot of a file name that does not start with it.
pub open spec fn name_extension(name: Seq<char>) -> Option<Seq<char>>
    decreases name.len(),
{
    if name.len() <= 1 {
        None
    } else if name.last() == '.' {
        Some(Seq::empty())
    } else {
        match name_extension(name.drop_last()) {
            Some(rest) => Some(rest.push(name.last())),
            None => None,
        }
    }
}

pub open spec fn extension_of(path: Seq<char>) -> Option<Seq<char>> {
    match file_name(path) {
        Some(name) => name_extension(name),
        None => None,
    }
}

/// The components of `root` lead the components of `path`.
pub open spec fn within(root: Seq<char>, path: Seq<char>) -> bool {
    let above = components(root);
    let all = components(path);
    is_absolute(root) == is_absolute(path) && above.len() <= all.len() && all.take(
        above.len() as int,
    ) == above
}

pub fn absolute(path: &str) -> (r: bool)
    ensures
        r == is_absolute(path@),
{
    path.unicode_len() > 0 && path.get_char(0) == '/'
}

fn components_of(path: &str) -> (parts: Vec<String>)
    ensures
        text::views(parts@) == components(path@),
{
    let pieces = split_text(path, '/');
    let mut parts: Vec<String> = Vec::new();
    let mut i: usize = 0;
    assert(text::views(parts@) =~= named(text::views(pieces@).take(0)));
    while i < pieces.len()
        invariant
            i <= pieces.len(),
            text::views(parts@) == named(text::views(pieces@).take(i as int)),
        decreases pieces.len() - i,
    {
        proof {
            let next = text::views(pieces@).take(i + 1);
            assert(next.drop_last() =~= text::views(pieces@).take(i as int));
            assert(next.last() == pieces@[i as int]@);
            text::lemma_views_push(parts@, pieces@[i as int]);
        }
        if !pieces[i].as_str().is_empty() && !same(pieces[i].as_str(), ".") {
            parts.push(pieces[i].clone());
        }
        i = i + 1;
    }
    assert(text::views(pieces@).take(i as int) =~= text::views(pieces@));
    parts
}

/// Whether a path lies at or below `root`; both without links and `..`.
pub fn starts_with(path: &str, root: &str) -> (r: bool)
    ensures
        r == within(root@, path@),
{
    if absolute(root) != absolute(path) {
        return false;
    }
    let above = components_of(root);
    let all = components_of(path);
    if above.len() > all.len() {
        return false;
    }
    let ghost wanted = components(root@);
    let ghost given = components(path@);
    let mut i: usize = 0;
    while i < above.len()
        invariant
            i <= above@.len() <= all@.len(),
            wanted == components(root@),
            given == components(path@),
            text::views(above@) == wanted,
            text::views(all@) == given,
            forall|j: int| 0 <= j < i ==> given[j] == wanted[j],
        decreases above@.len() - i,
    {
        assert(wanted[i as int] == above@[i as int]@ && given[i as int] == all@[i as int]@);
        if !same(above[i].as_str(), all[i].as_str()) {
            proof {
                assert(given.take(wanted.len() as int)[i as int] == given[i as int]);
            }
            return false;
        }
        i = i + 1;
    }
    assert(given.take(wanted.len() as int) =~= wanted);
    true
}

/// Resolves `.` and `..` in a path by its text alone.
pub fn normalize_path(path: &str) -> (r: String)
    ensures
        r@ == normalized(path@),
{
    let rooted = absolute(path);
    let parts = components_of(path);
    let mut done: Vec<String> = Vec::new();
    let mut i: usize = 0;
    assert(text::views(done@) =~= resolved(rooted, text::views(parts@).take(0)));
    while i < parts.len()
        invariant
            i <= parts.len(),
            text::views(done@) == resolved(rooted, text::views(parts@).take(i as int)),
        decreases parts.len() - i,
    {
        proof {
            let next = text::views(parts@).take(i + 1);
            assert(next.drop_last() =~= text::views(parts@).take(i as int));
            assert(next.last() == parts@[i as int]@);
            text::lemma_views_push(done@, parts@[i as int]);
            if done@.len() > 0 {
                assert(text::views(done@).last() == done@[done@.len() - 1]@);
                assert(text::views(done@.drop_last()) =~= text::views(done@).drop_last());
            }
        }
        if !same(parts[i].as_str(), "..") {
            done.push(parts[i].clone());
        } else if done.len() > 0 && !same(done[done.len() - 1].as_str(), "..") {
            let _ = done.pop();
        } else if !rooted {
            done.push(parts[i].clone());
        }
        i = i + 1;
    }
    assert(text::views(parts@).take(i as int) =~= text::views(parts@));
    if rooted {
        let mut out = "/".to_owned();
        let rest = join_texts(&done, "/");
        out.append(rest.as_str());
        out
    } else if done.len() == 0 {
        ".".to_owned()
    } else {
        join_texts(&done, "/")
    }
}

pub fn join_path(base: &str, rel: &str) -> (r: String)
    ensures
        r@ == joined(base@, rel@),
{
    if absolute(rel) || base.is_empty() {
        rel.to_owned()
    } else {
        let mut out = base.to_owned();
        if base.get_char(base.unicode_len() - 1) != '/' {
            out.append("/");
        }
        out.append(rel);
        out
    }
}

/// Joins `p` to `base` where it is relative, and normalizes the outcome.
pub fn resolve_rel(base: &str, p: &str) -> (r: String)
    ensures
        r@ == normalized(
            if is_absolute(p@) {
                p@
            } else {
                joined(base@, p@)
            },
        ),
{
    if absolute(p) {
        normalize_path(p)
    } else {
        let whole = join_path(base, p);
        normalize_path(whole.as_str())
    }
}

pub fn filename(path: &str) -> (r: Option<String>)
    ensures
        text::view_of(r) == file_name(path@),
{
    let mut parts = components_of(path);
    if parts.len() == 0 || same(parts[parts.len() - 1].as_str(), "..") {
        None
    } else {
        let ghost all = parts@;
        let last = parts.pop();
        assert(text::views(all).last() == all.last()@);
        last
    }
}

pub fn extension(path: &str) -> (r: Option<String>)
    ensures
        text::view_of(r) == extension_of(path@),
{
    match filename(path) {
        None => None,
        Some(name) => {
            let chars = chars_of(name.as_str());
            let mut i: usize = chars.len();
            assert(chars@.take(i as int) =~= name@);
            assert(chars@.subrange(i as int, chars@.len() as int) =~= Seq::<char>::empty());
            proof {
                lemma_extension_tail(name@, Seq::empty());
                assert(name@ + Seq::<char>::empty() =~= name@);
            }
            while i > 1
                invariant
                    i <= chars.len(),
                    chars@.len() > 0 ==> i > 0,
                    chars@ == name@,
                    file_name(path@) == Some(name@),
                    forall|j: int| i <= j < chars@.len() ==> chars@[j] != '.',
                decreases i,
            {
                if chars[i - 1] == '.' {
                    let tail = text_between(&chars, i, chars.len());
                    proof {
                        let head = chars@.take(i as int);
                        assert(head.last() == '.');
                        assert(name_extension(head) == Some(Seq::<char>::empty()));
                        lemma_extension_tail(head, tail@);
                        assert(head + tail@ =~= name@);
                        assert(Seq::<char>::empty() + tail@ =~= tail@);
                    }
                    return Some(tail);
                }
                i = i - 1;
            }
            proof {
                let head = chars@.take(i as int);
                let tail = chars@.subrange(i as int, chars@.len() as int);
                assert(name_extension(head) is None);
                lemma_extension_tail(head, tail);
                assert(head + tail =~= name@);
            }
            None
        },
    }
}

proof fn lemma_extension_tail(head: Seq<char>, tail: Seq<char>)
    requires
        forall|j: int| 0 <= j < tail.len() ==> tail[j] != '.',
        head.len() > 0 || tail.len() == 0,
    ensures
        name_extension(head + tail) == (match name_extension(head) {
            Some(rest) => Some(rest + tail),
            None => None,
        }),
    decreases tail.len(),
{
    if tail.len() == 0 {
        assert(head + tail =~= head);
        match name_extension(head) {
            Some(rest) => {
                assert(rest + tail =~= rest);
            },
            None => {},
        }
    } else {
        lemma_extension_tail(head, tail.drop_last());
        assert((head + tail).drop_last() =~= head + tail.drop_last());
        assert((head + tail).last() == tail.last());
        match name_extension(head) {
            Some(rest) => {
                assert((rest + tail.drop_last()).push(tail.last()) =~= rest + tail);
            },
            None => {},
        }
    }
}

// ---------------------------------------------------------------------------
// Laws

/// Pieces that can stand between slashes.
spec fn sound(pieces: Seq<Seq<char>>) -> bool {
    forall|i: int| 0 <= i < pieces.len() ==> names_something(#[trigger] pieces[i]) && !pieces[i].contains('/')
}

/// `..` only where it leads a relative path.
pub open spec fn settled(absolute: bool, components: Seq<Seq<char>>) -> bool {
    forall|i: int|
        0 <= i < components.len() && #[trigger] components[i] == ".."@ ==> !absolute && forall|j: int|
            0 <= j < i ==> components[j] == ".."@
}

proof fn lemma_split_piece(piece: Seq<char>)
    requires
        !piece.contains('/'),
    ensures
        text::split(piece, '/') == seq![piece],
    decreases piece.len(),
{
    if piece.len() > 0 {
        assert(piece[piece.len() - 1] != '/');
        assert(!piece.drop_last().contains('/')) by {
            if piece.drop_last().contains('/') {
                let j = choose|j: int| 0 <= j < piece.drop_last().len() && piece.drop_last()[j] == '/';
                assert(piece[j] == '/');
            }
        }
        lemma_split_piece(piece.drop_last());
        assert(text::split(piece, '/') =~= seq![piece.drop_last().push(piece.last())]);
        assert(piece.drop_last().push(piece.last()) =~= piece);
    } else {
        assert(piece =~= Seq::<char>::empty());
        assert(text::split(piece, '/') =~= seq![piece]);
    }
}

/// Splitting `head`, a slash and a piece without one.
proof fn lemma_split_extend(head: Seq<char>, piece: Seq<char>)
    requires
        !piece.contains('/'),
    ensures
        text::split(head + "/"@ + piece, '/') == text::split(head, '/').push(piece),
    decreases piece.len(),
{
    reveal_strlit("/");
    let whole = head + "/"@ + piece;
    if piece.len() == 0 {
        assert(whole.drop_last() =~= head);
        assert(whole.last() == '/');
        assert(piece =~= Seq::<char>::empty());
    } else {
        assert(piece[piece.len() - 1] != '/');
        assert(!piece.drop_last().contains('/')) by {
            if piece.drop_last().contains('/') {
                let j = choose|j: int| 0 <= j < piece.drop_last().len() && piece.drop_last()[j] == '/';
                assert(piece[j] == '/');
            }
        }
        lemma_split_extend(head, piece.drop_last());
        assert(whole.drop_last() =~= head + "/"@ + piece.drop_last());
        assert(whole.last() == piece.last());
        let before = text::split(head, '/').push(piece.drop_last());
        assert(before.drop_last() =~= text::split(head, '/'));
        assert(before.last() == piece.drop_last());
        assert(piece.drop_last().push(piece.last()) =~= piece);
    }
}

proof fn lemma_split_join(pieces: Seq<Seq<char>>)
    requires
        pieces.len() > 0,
        sound(pieces),
    ensures
        text::split(text::join(pieces, "/"@), '/') == pieces,
    decreases pieces.len(),
{
    assert(names_something(pieces[pieces.len() - 1]) && !pieces[pieces.len() - 1].contains('/'));
    if pieces.len() == 1 {
        lemma_split_piece(pieces[0]);
        assert(seq![pieces[0]] =~= pieces);
    } else {
        assert(sound(pieces.drop_last())) by {
            assert forall|i: int| 0 <= i < pieces.drop_last().len() implies names_something(
                #[trigger] pieces.drop_last()[i],
            ) && !pieces.drop_last()[i].contains('/') by {
                assert(pieces.drop_last()[i] == pieces[i]);
            }
        }
        lemma_split_join(pieces.drop_last());
        lemma_split_extend(text::join(pieces.drop_last(), "/"@), pieces.last());
        assert(pieces.drop_last().push(pieces.last()) =~= pieces);
    }
}

proof fn lemma_named_sound(pieces: Seq<Seq<char>>)
    requires
        sound(pieces),
    ensures
        named(pieces) == pieces,
    decreases pieces.len(),
{
    if pieces.len() > 0 {
        assert(names_something(pieces[pieces.len() - 1]));
        assert(sound(pieces.drop_last())) by {
            assert forall|i: int| 0 <= i < pieces.drop_last().len() implies names_something(
                #[trigger] pieces.drop_last()[i],
            ) && !pieces.drop_last()[i].contains('/') by {
                assert(pieces.drop_last()[i] == pieces[i]);
            }
        }
        lemma_named_sound(pieces.drop_last());
        assert(pieces.drop_last().push(pieces.last()) =~= pieces);
    } else {
        assert(named(pieces) =~= pieces);
    }
}

proof fn lemma_named_nothing(pieces: Seq<Seq<char>>)
    requires
        forall|i: int| 0 <= i < pieces.len() ==> !names_something(#[trigger] pieces[i]),
    ensures
        named(pieces).len() == 0,
    decreases pieces.len(),
{
    if pieces.len() > 0 {
        assert(!names_something(pieces[pieces.len() - 1]));
        assert forall|i: int| 0 <= i < pieces.drop_last().len() implies !names_something(
            #[trigger] pieces.drop_last()[i],
        ) by {
            assert(pieces.drop_last()[i] == pieces[i]);
        }
        lemma_named_nothing(pieces.drop_last());
    }
}

proof fn lemma_split_pieces(path: Seq<char>)
    ensures
        forall|i: int|
            0 <= i < text::split(path, '/').len() ==> !(#[trigger] text::split(path, '/')[i]).contains('/'),
    decreases path.len(),
{
    let pieces = text::split(path, '/');
    if path.len() > 0 {
        lemma_split_pieces(path.drop_last());
        text::lemma_split_not_empty(path.drop_last(), '/');
        let before = text::split(path.drop_last(), '/');
        assert forall|i: int| 0 <= i < pieces.len() implies !(#[trigger] pieces[i]).contains('/') by {
            if path.last() == '/' {
                if i < before.len() {
                    assert(pieces[i] == before[i]);
                } else {
                    assert(pieces[i].len() == 0);
                }
            } else if i < before.len() - 1 {
                assert(pieces[i] == before[i]);
            } else {
                let last = before[before.len() - 1];
                assert(pieces[i] == last.push(path.last()));
                assert(!last.contains('/'));
                if pieces[i].contains('/') {
                    let j = choose|j: int| 0 <= j < pieces[i].len() && pieces[i][j] == '/';
                    assert(last[j] == '/');
                }
            }
        }
    } else {
        assert(pieces[0].len() == 0);
    }
}

proof fn lemma_named_keeps(pieces: Seq<Seq<char>>)
    requires
        forall|i: int| 0 <= i < pieces.len() ==> !(#[trigger] pieces[i]).contains('/'),
    ensures
        sound(named(pieces)),
    decreases pieces.len(),
{
    if pieces.len() > 0 {
        assert forall|i: int| 0 <= i < pieces.drop_last().len() implies !(
        #[trigger] pieces.drop_last()[i]).contains('/') by {
            assert(pieces.drop_last()[i] == pieces[i]);
        }
        lemma_named_keeps(pieces.drop_last());
        let before = named(pieces.drop_last());
        assert(!pieces[pieces.len() - 1].contains('/'));
        assert forall|i: int| 0 <= i < named(pieces).len() implies names_something(
            #[trigger] named(pieces)[i],
        ) && !named(pieces)[i].contains('/') by {
            if i < before.len() {
                assert(named(pieces)[i] == before[i]);
            }
        }
    }
}

proof fn lemma_resolved(absolute: bool, parts: Seq<Seq<char>>)
    requires
        sound(parts),
    ensures
        sound(resolved(absolute, parts)),
        settled(absolute, resolved(absolute, parts)),
    decreases parts.len(),
{
    if parts.len() > 0 {
        assert(sound(parts.drop_last())) by {
            assert forall|i: int| 0 <= i < parts.drop_last().len() implies names_something(
                #[trigger] parts.drop_last()[i],
            ) && !parts.drop_last()[i].contains('/') by {
                assert(parts.drop_last()[i] == parts[i]);
            }
        }
        lemma_resolved(absolute, parts.drop_last());
        let before = resolved(absolute, parts.drop_last());
        let after = resolved(absolute, parts);
        let c = parts[parts.len() - 1];
        assert(names_something(c) && !c.contains('/'));
        assert forall|i: int| 0 <= i < after.len() implies names_something(#[trigger] after[i])
            && !after[i].contains('/') by {
            if i < before.len() {
                assert(after[i] == before[i]);
            }
        }
        assert forall|i: int| 0 <= i < after.len() && #[trigger] after[i] == ".."@ implies !absolute
            && forall|j: int| 0 <= j < i ==> after[j] == ".."@ by {
            if i < before.len() {
                assert(after[i] == before[i]);
                assert forall|j: int| 0 <= j < i implies after[j] == ".."@ by {
                    assert(after[j] == before[j]);
                }
            } else {
                if before.len() > 0 {
                    assert(before[before.len() - 1] == ".."@);
                }
                assert forall|j: int| 0 <= j < i implies after[j] == ".."@ by {
                    assert(after[j] == before[j]);
                }
            }
        }
    }
}

proof fn lemma_settled_stays(absolute: bool, parts: Seq<Seq<char>>)
    requires
        settled(absolute, parts),
    ensures
        resolved(absolute, parts) == parts,
    decreases parts.len(),
{
    if parts.len() > 0 {
        assert(settled(absolute, parts.drop_last())) by {
            assert forall|i: int|
                0 <= i < parts.drop_last().len() && #[trigger] parts.drop_last()[i]
                    == ".."@ implies !absolute && forall|j: int|
                0 <= j < i ==> parts.drop_last()[j] == ".."@ by {
                assert(parts[i] == ".."@);
            }
        }
        lemma_settled_stays(absolute, parts.drop_last());
        let c = parts[parts.len() - 1];
        if c == ".."@ && parts.len() > 1 {
            assert(parts[parts.len() - 2] == ".."@);
        }
        assert(parts.drop_last().push(parts.last()) =~= parts);
    } else {
        assert(resolved(absolute, parts) =~= parts);
    }
}

proof fn lemma_join_starts(pieces: Seq<Seq<char>>)
    requires
        pieces.len() > 0,
        sound(pieces),
    ensures
        text::join(pieces, "/"@).len() > 0,
        text::join(pieces, "/"@)[0] == pieces[0][0],
    decreases pieces.len(),
{
    assert(names_something(pieces[0]));
    if pieces.len() > 1 {
        assert(sound(pieces.drop_last())) by {
            assert forall|i: int| 0 <= i < pieces.drop_last().len() implies names_something(
                #[trigger] pieces.drop_last()[i],
            ) && !pieces.drop_last()[i].contains('/') by {
                assert(pieces.drop_last()[i] == pieces[i]);
            }
        }
        lemma_join_starts(pieces.drop_last());
        assert(pieces.drop_last()[0] == pieces[0]);
    }
}

/// The components of a path made of resolved components are those components.
proof fn lemma_components_of_text(absolute: bool, parts: Seq<Seq<char>>)
    requires
        sound(parts),
    ensures
        is_absolute(path_text(absolute, parts)) == absolute,
        components(path_text(absolute, parts)) == parts,
{
    reveal_strlit("/");
    reveal_strlit(".");
    let path = path_text(absolute, parts);
    if absolute {
        let rest = text::join(parts, "/"@);
        assert(path[0] == '/');
        let none = Seq::<char>::empty();
        if parts.len() == 0 {
            assert(path =~= none + "/"@ + none);
            lemma_split_extend(none, none);
            lemma_split_piece(none);
            let pieces = text::split(path, '/');
            assert(pieces =~= seq![none, none]);
            lemma_named_nothing(pieces);
            assert(named(pieces) =~= parts);
        } else {
            lemma_split_rooted(parts);
            let pieces = text::split(path, '/');
            assert(pieces =~= seq![none] + parts);
            lemma_named_after_empty(parts);
        }
    } else if parts.len() == 0 {
        assert(!path.contains('/'));
        lemma_split_piece(path);
        let pieces = text::split(path, '/');
        lemma_named_nothing(pieces);
        assert(named(pieces) =~= parts);
    } else {
        lemma_split_join(parts);
        lemma_named_sound(parts);
        lemma_join_starts(parts);
        assert(!parts[0].contains('/'));
        assert(parts[0][0] != '/');
    }
}

proof fn lemma_split_rooted(parts: Seq<Seq<char>>)
    requires
        parts.len() > 0,
        sound(parts),
    ensures
        text::split("/"@ + text::join(parts, "/"@), '/') == seq![Seq::<char>::empty()] + parts,
    decreases parts.len(),
{
    reveal_strlit("/");
    let none = Seq::<char>::empty();
    assert(!parts[parts.len() - 1].contains('/')) by {
        assert(names_something(parts[parts.len() - 1]));
    }
    if parts.len() == 1 {
        lemma_split_extend(none, parts[0]);
        lemma_split_piece(none);
        assert(none + "/"@ + parts[0] =~= "/"@ + text::join(parts, "/"@));
        assert(seq![none].push(parts[0]) =~= seq![none] + parts);
    } else {
        assert(sound(parts.drop_last())) by {
            assert forall|i: int| 0 <= i < parts.drop_last().len() implies names_something(
                #[trigger] parts.drop_last()[i],
            ) && !parts.drop_last()[i].contains('/') by {
                assert(parts.drop_last()[i] == parts[i]);
            }
        }
        lemma_split_rooted(parts.drop_last());
        let head = "/"@ + text::join(parts.drop_last(), "/"@);
        lemma_split_extend(head, parts.last());
        assert(head + "/"@ + parts.last() =~= "/"@ + text::join(parts, "/"@));
        assert((seq![none] + parts.drop_last()).push(parts.last()) =~= seq![none] + parts);
    }
}

proof fn lemma_named_after_empty(parts: Seq<Seq<char>>)
    requires
        sound(parts),
    ensures
        named(seq![Seq::<char>::empty()] + parts) == parts,
    decreases parts.len(),
{
    let none = Seq::<char>::empty();
    let pieces = seq![none] + parts;
    if parts.len() == 0 {
        assert(pieces =~= seq![none]);
        lemma_named_nothing(pieces);
        assert(named(pieces) =~= parts);
    } else {
        assert(sound(parts.drop_last())) by {
            assert forall|i: int| 0 <= i < parts.drop_last().len() implies names_something(
                #[trigger] parts.drop_last()[i],
            ) && !parts.drop_last()[i].contains('/') by {
                assert(parts.drop_last()[i] == parts[i]);
            }
        }
        lemma_named_after_empty(parts.drop_last());
        assert(pieces.drop_last() =~= seq![none] + parts.drop_last());
        assert(pieces.last() == parts[parts.len() - 1]);
        assert(parts.drop_last().push(parts.last()) =~= parts);
    }
}

/// Normalizing a path twice changes nothing over doing it once.
pub proof fn law_normalized_twice(path: Seq<char>)
    ensures
        normalized(normalized(path)) == normalized(path),
{
    let rooted = is_absolute(path);
    lemma_split_pieces(path);
    lemma_named_keeps(text::split(path, '/'));
    lemma_resolved(rooted, components(path));
    let done = resolved(rooted, components(path));
    lemma_components_of_text(rooted, done);
    lemma_settled_stays(rooted, done);
}

/// A normalized path keeps its root, and `..` stands only at the start of a
/// relative one.
pub proof fn law_normalized_is_settled(path: Seq<char>)
    ensures
        is_absolute(normalized(path)) == is_absolute(path),
        settled(is_absolute(path), components(normalized(path))),
{
    let rooted = is_absolute(path);
    lemma_split_pieces(path);
    lemma_named_keeps(text::split(path, '/'));
    lemma_resolved(rooted, components(path));
    lemma_components_of_text(rooted, resolved(rooted, components(path)));
}

proof fn lemma_named_two(left: Seq<Seq<char>>, right: Seq<Seq<char>>)
    ensures
        named(left + right) == named(left) + named(right),
    decreases right.len(),
{
    if right.len() == 0 {
        assert(left + right =~= left);
        assert(named(left) + named(right) =~= named(left));
    } else {
        lemma_named_two(left, right.drop_last());
        assert((left + right).drop_last() =~= left + right.drop_last());
        assert(named(left + right) =~= named(left) + named(right));
    }
}

/// The components of two paths with a slash between them are those of the one,
/// then those of the other; the first decides whether the whole is absolute.
pub proof fn law_components_around_a_slash(left: Seq<char>, right: Seq<char>)
    ensures
        components(left + seq!['/'] + right) == components(left) + components(right),
        left.len() > 0 ==> is_absolute(left + seq!['/'] + right) == is_absolute(left),
{
    text::law_pieces_around_a_separator(left, right, '/');
    lemma_named_two(text::split(left, '/'), text::split(right, '/'));
}

/// A component stands for itself; an empty one and `.` stand for nothing.
pub proof fn law_single_component(name: Seq<char>)
    requires
        !name.contains('/'),
    ensures
        name.len() == 0 || name == "."@ ==> components(name).len() == 0,
        name.len() > 0 && name != "."@ ==> components(name) == seq![name],
{
    text::law_one_piece(name, '/');
    let pieces = seq![name];
    assert(pieces.drop_last() =~= Seq::<Seq<char>>::empty());
    assert(named(pieces.drop_last()).len() == 0);
    if name.len() > 0 && name != "."@ {
        assert(named(pieces) =~= seq![name]);
    }
}

/// A relative path goes below the one it is joined to; an absolute one takes
/// its place.
pub proof fn law_joined(base: Seq<char>, rel: Seq<char>)
    ensures
        is_absolute(rel) ==> joined(base, rel) == rel,
        !is_absolute(rel) ==> components(joined(base, rel)) == components(base) + components(rel),
        !is_absolute(rel) ==> is_absolute(joined(base, rel)) == is_absolute(base),
        !is_absolute(rel) && base.len() > 0 && base.last() != '/' ==> joined(base, rel) == base
            + seq!['/'] + rel,
{
    reveal_strlit("/");
    assert("/"@ =~= seq!['/']);
    if !is_absolute(rel) {
        if base.len() == 0 {
            assert(base =~= Seq::<char>::empty());
            law_single_component(base);
            assert(components(base) + components(rel) =~= components(rel));
        } else if base.last() == '/' {
            let head = base.drop_last();
            let nothing = Seq::<char>::empty();
            law_components_around_a_slash(head, rel);
            law_components_around_a_slash(head, nothing);
            law_single_component(nothing);
            assert(head + seq!['/'] + rel =~= base + rel);
            assert(head + seq!['/'] + nothing =~= base);
            assert(components(head) + components(nothing) =~= components(head));
        } else {
            law_components_around_a_slash(base, rel);
        }
    }
}

/// A path in normal form is its components with slashes between them, behind a
/// slash where it is absolute; a relative path without components is `.`.
pub proof fn law_normalized_text(path: Seq<char>)
    ensures
        is_absolute(path) ==> normalized(path) == "/"@ + text::join(
            components(normalized(path)),
            "/"@,
        ),
        !is_absolute(path) && components(normalized(path)).len() > 0 ==> normalized(path)
            == text::join(components(normalized(path)), "/"@),
        !is_absolute(path) && components(normalized(path)).len() == 0 ==> normalized(path) == "."@,
{
    lemma_normalized_components(path);
}

proof fn lemma_normalized_components(path: Seq<char>)
    ensures
        is_absolute(normalized(path)) == is_absolute(path),
        components(normalized(path)) == resolved(is_absolute(path), components(path)),
{
    lemma_split_pieces(path);
    lemma_named_keeps(text::split(path, '/'));
    lemma_resolved(is_absolute(path), components(path));
    lemma_components_of_text(is_absolute(path), resolved(is_absolute(path), components(path)));
}

/// One more component at the end of a path: a name goes below what stands
/// before it, `..` takes the last name off again. Above the root `..` changes
/// nothing; a relative path keeps it. `.` changes nothing.
pub proof fn law_normalized_step(path: Seq<char>, name: Seq<char>)
    requires
        path.len() > 0,
        name.len() > 0,
        !name.contains('/'),
    ensures
        ({
            let before = components(normalized(path));
            let after = components(normalized(path + seq!['/'] + name));
            &&& name == "."@ ==> after == before
            &&& name != "."@ && name != ".."@ ==> after == before.push(name)
            &&& name == ".."@ && before.len() > 0 && before.last() != ".."@ ==> after
                == before.drop_last()
            &&& name == ".."@ && (before.len() == 0 || before.last() == ".."@) ==> if is_absolute(
                path,
            ) {
                after == before
            } else {
                after == before.push(name)
            }
        }),
{
    let longer = path + seq!['/'] + name;
    reveal_strlit(".");
    reveal_strlit("..");
    assert("."@.len() != ".."@.len());
    law_components_around_a_slash(path, name);
    law_single_component(name);
    lemma_normalized_components(path);
    lemma_normalized_components(longer);
    if name == "."@ {
        assert(components(longer) =~= components(path));
    } else {
        assert(components(longer) =~= components(path).push(name));
        assert(components(longer).drop_last() =~= components(path));
    }
}

/// The file name of a path is its last component; `..` is none.
pub proof fn law_file_name(dir: Seq<char>, name: Seq<char>)
    requires
        name.len() > 0,
        name != "."@,
        !name.contains('/'),
    ensures
        name != ".."@ ==> file_name(name) == Some(name),
        name != ".."@ ==> file_name(dir + seq!['/'] + name) == Some(name),
        name == ".."@ ==> file_name(dir + seq!['/'] + name) is None,
        file_name(Seq::empty()) is None,
{
    law_single_component(name);
    law_single_component(Seq::empty());
    law_components_around_a_slash(dir, name);
    assert((components(dir) + components(name)).last() == name);
}

/// The extension of a file name is what stands behind its last dot, unless
/// nothing stands before that dot.
pub proof fn law_extension(stem: Seq<char>, rest: Seq<char>)
    requires
        forall|i: int| 0 <= i < rest.len() ==> rest[i] != '.',
    ensures
        stem.len() > 0 ==> name_extension(stem + seq!['.'] + rest) == Some(rest),
        name_extension(seq!['.'] + rest) is None,
        name_extension(rest) is None,
{
    let dotted = stem + seq!['.'];
    if stem.len() > 0 {
        assert(dotted.last() == '.');
        assert(name_extension(dotted) == Some(Seq::<char>::empty()));
        lemma_extension_tail(dotted, rest);
        assert(Seq::<char>::empty() + rest =~= rest);
    }
    lemma_extension_tail(seq!['.'], rest);
    if rest.len() > 0 {
        lemma_extension_tail(rest.take(1), rest.skip(1));
        assert(rest.take(1) + rest.skip(1) =~= rest);
    }
}

/// A path lies within another where that one's components begin it and both are
/// absolute or both are not; so what is joined to a path below it lies within.
pub proof fn law_within(root: Seq<char>, path: Seq<char>, rest: Seq<Seq<char>>)
    ensures
        is_absolute(root) == is_absolute(path) && components(path) == components(root) + rest
            ==> within(root, path),
        within(root, path) ==> is_absolute(root) == is_absolute(path) && components(path)
            == components(root) + components(path).skip(components(root).len() as int),
        !is_absolute(path) ==> within(root, joined(root, path)),
{
    if components(path) == components(root) + rest {
        assert(components(path).take(components(root).len() as int) =~= components(root));
    }
    if within(root, path) {
        assert(components(path) =~= components(path).take(components(root).len() as int)
            + components(path).skip(components(root).len() as int));
    }
    law_joined(root, path);
    assert((components(root) + components(path)).take(components(root).len() as int)
        =~= components(root));
}

/// A path is absolute where it begins with a slash.
pub proof fn law_absolute(rest: Seq<char>)
    ensures
        is_absolute(seq!['/'] + rest),
        rest.len() > 0 && rest[0] != '/' ==> !is_absolute(rest),
        !is_absolute(Seq::empty()),
{
}

} // verus!
