//! Server index keys and what makes one safe to use as a directory below the cache root.
use vstd::prelude::*;

use crate::paths::{
    divides, joined, lemma_lined_up_prefix, lemma_pieces_of_name, lemma_pieces_split,
    lemma_walked_stays, lined_up, pieces, prefix_len, verbatim_dir, verbatim_len, verbatim_names,
    walked, Dir,
};
use crate::text::{has_char, to_chars};

verus! {

/// The number of characters of `s` before its first `/`.
pub open spec fn first_slash(s: Seq<char>) -> nat
    decreases s.len(),
{
    if s.len() == 0 || s[0] == '/' {
        0
    } else {
        1 + first_slash(s.drop_first())
    }
}

/// The `/`-separated segments of `s`; there is always at least one.
pub open spec fn segments(s: Seq<char>) -> Seq<Seq<char>>
    decreases s.len(),
{
    let n = first_slash(s);
    if n >= s.len() {
        seq![s]
    } else {
        seq![s.take(n as int)] + segments(s.skip(n as int + 1))
    }
}

/// The segment that names the parent directory.
pub open spec fn parent_mark() -> Seq<char> {
    seq!['.', '.']
}

/// The segment that names the directory itself.
pub open spec fn self_mark() -> Seq<char> {
    seq!['.']
}

/// `c` is an ASCII letter.
pub open spec fn is_ascii_letter(c: char) -> bool {
    'a' <= c <= 'z' || 'A' <= c <= 'Z'
}

/// A key that stays below the root it is joined to: it is not empty, starts with no separator
/// and no drive letter, holds no backslash, and has no segment that names the parent directory.
pub open spec fn safe_key(key: Seq<char>) -> bool {
    &&& key.len() > 0
    &&& key[0] != '/'
    &&& key[0] != '\\'
    &&& !(key.len() >= 2 && key[1] == ':' && is_ascii_letter(key[0]))
    &&& !key.contains('\\')
    &&& !segments(key).contains(parent_mark())
}

proof fn lemma_first_slash(s: Seq<char>)
    ensures
        first_slash(s) <= s.len(),
        forall|i: int| 0 <= i < first_slash(s) ==> s[i] != '/',
        first_slash(s) < s.len() ==> s[first_slash(s) as int] == '/',
    decreases s.len(),
{
    if s.len() > 0 && s[0] != '/' {
        let t = s.drop_first();
        lemma_first_slash(t);
        assert forall|i: int| 0 <= i < first_slash(s) implies s[i] != '/' by {
            if i > 0 {
                assert(s[i] == t[i - 1]);
            }
        }
    }
}

/// `n` is where the first `/` of `s` stands, or the length of `s` when it has none.
proof fn lemma_first_slash_at(s: Seq<char>, n: int)
    requires
        0 <= n <= s.len(),
        forall|i: int| 0 <= i < n ==> s[i] != '/',
        n < s.len() ==> s[n] == '/',
    ensures
        first_slash(s) == n,
{
    lemma_first_slash(s);
    let m = first_slash(s) as int;
    if m < n {
        assert(s[m] != '/');
    } else if n < m {
        assert(s[n] != '/');
    }
}

proof fn lemma_contains_head(head: Seq<char>, rest: Seq<Seq<char>>, x: Seq<char>)
    ensures
        (seq![head] + rest).contains(x) <==> head == x || rest.contains(x),
{
    let all = seq![head] + rest;
    if head == x {
        assert(all[0] == x);
    }
    if rest.contains(x) {
        let i = choose|i: int| 0 <= i < rest.len() && rest[i] == x;
        assert(all[i + 1] == x);
    }
    if all.contains(x) {
        let i = choose|i: int| 0 <= i < all.len() && all[i] == x;
        if i > 0 {
            assert(rest[i - 1] == x);
        }
    }
}

/// Whether some segment of `key` names the parent directory.
fn names_parent(key: &Vec<char>) -> (r: bool)
    ensures
        r == segments(key@).contains(parent_mark()),
{
    let mut start: usize = 0;
    let mut i: usize = 0;
    assert(key@.skip(0) =~= key@);
    loop
        invariant
            start <= i <= key.len(),
            forall|j: int| start <= j < i ==> key@[j] != '/',
            segments(key@).contains(parent_mark()) == segments(key@.skip(start as int)).contains(
                parent_mark(),
            ),
        decreases key.len() - i + key.len() - start + 1,
    {
        if i < key.len() && key[i] != '/' {
            i = i + 1;
        } else {
            let found = i - start == 2 && key[start] == '.' && key[start + 1] == '.';
            proof {
                let s = key@.skip(start as int);
                lemma_first_slash_at(s, i - start);
                let head = s.take(i - start);
                if found {
                    assert(head =~= parent_mark());
                } else if head == parent_mark() {
                    assert(head.len() == 2 && head[0] == '.' && head[1] == '.');
                }
                if i < key.len() {
                    let rest = s.skip(i - start + 1);
                    assert(rest =~= key@.skip(i + 1));
                    lemma_contains_head(head, segments(rest), parent_mark());
                } else {
                    assert(head =~= s);
                    assert(segments(s) =~= seq![s]);
                    if s == parent_mark() {
                        assert(segments(s)[0] == parent_mark());
                    }
                }
            }
            if found {
                return true;
            }
            if i == key.len() {
                return false;
            }
            start = i + 1;
            i = start;
        }
    }
}

/// Whether `key` may be used as a directory below the cache root. Forward slashes are part of
/// real keys (a server behind a reverse-proxy sub-path); everything that could leave the root is
/// refused.
pub fn is_safe_index_key(key: &str) -> (r: bool)
    ensures
        r == safe_key(key@),
{
    let v = to_chars(key);
    if v.len() == 0 {
        return false;
    }
    if v[0] == '/' || v[0] == '\\' {
        return false;
    }
    if v.len() >= 2 && v[1] == ':' && (('a' <= v[0] && v[0] <= 'z') || ('A' <= v[0] && v[0]
        <= 'Z')) {
        return false;
    }
    if has_char(key, '\\') {
        return false;
    }
    !names_parent(&v)
}

/// Where following `steps` leads from the directory `at`, each step read as a file system does:
/// an empty step and `.` stay, `..` goes one directory up, any other step goes down.
pub open spec fn followed(at: Seq<Seq<char>>, steps: Seq<Seq<char>>) -> Seq<Seq<char>>
    decreases steps.len(),
{
    if steps.len() == 0 {
        at
    } else {
        let s = steps[0];
        let next = if s.len() == 0 || s == self_mark() {
            at
        } else if s == parent_mark() {
            if at.len() == 0 {
                at
            } else {
                at.drop_last()
            }
        } else {
            at.push(s)
        };
        followed(next, steps.drop_first())
    }
}

proof fn lemma_followed_stays(root: Seq<Seq<char>>, at: Seq<Seq<char>>, steps: Seq<Seq<char>>)
    requires
        root.is_prefix_of(at),
        !steps.contains(parent_mark()),
    ensures
        root.is_prefix_of(followed(at, steps)),
    decreases steps.len(),
{
    if steps.len() > 0 {
        let s = steps[0];
        assert(steps.contains(s));
        let next = if s.len() == 0 || s == self_mark() {
            at
        } else {
            at.push(s)
        };
        assert(root.is_prefix_of(next)) by {
            assert(next.subrange(0, root.len() as int) =~= at.subrange(0, root.len() as int));
        }
        let rest = steps.drop_first();
        if rest.contains(parent_mark()) {
            let i = choose|i: int| 0 <= i < rest.len() && rest[i] == parent_mark();
            assert(steps[i + 1] == parent_mark());
        }
        lemma_followed_stays(root, next, rest);
    }
}

/// A safe key never leads out of the directory it is joined to.
pub proof fn law_safe_key_stays_below_root(root: Seq<Seq<char>>, key: Seq<char>)
    requires
        safe_key(key),
    ensures
        root.is_prefix_of(followed(root, segments(key))),
{
    assert(root.subrange(0, root.len() as int) =~= root);
    lemma_followed_stays(root, root, segments(key));
}

/// Joining a safe key keeps the root in front: the key never replaces it. On a verbatim root it is
/// written anew (see [`law_safe_key_keeps_verbatim_root_in_front`]).
pub proof fn law_safe_key_keeps_root_in_front(root: Dir, key: Seq<char>)
    requires
        safe_key(key),
        !verbatim_dir(root),
    ensures
        root.path.is_prefix_of(joined(root, key).path),
        key.is_suffix_of(joined(root, key).path),
{
    let j = joined(root, key).path;
    assert(j.subrange(0, root.path.len() as int) =~= root.path);
    assert(j.subrange(j.len() - key.len(), j.len() as int) =~= key);
}

/// No name in a safe key goes up.
pub proof fn lemma_safe_key_never_goes_up(key: Seq<char>)
    requires
        !key.contains('\\'),
        !segments(key).contains(parent_mark()),
    ensures
        !pieces(false, key).contains(parent_mark()),
    decreases key.len(),
{
    lemma_first_slash(key);
    let n = first_slash(key) as int;
    let head = key.take(n);
    assert forall|i: int| 0 <= i < head.len() implies !divides(false, #[trigger] head[i]) by {
        assert(head[i] == key[i]);
        assert(key.contains(key[i]));
    }
    if n > 0 {
        lemma_pieces_of_name(false, head);
    }
    if n < key.len() {
        let rest = key.skip(n + 1);
        lemma_contains_head(head, segments(rest), parent_mark());
        if rest.contains('\\') {
            let i = choose|i: int| 0 <= i < rest.len() && rest[i] == '\\';
            assert(key[n + 1 + i] == '\\');
        }
        lemma_safe_key_never_goes_up(rest);
        assert(key =~= head.push('/') + rest);
        lemma_pieces_split(false, head, '/', rest);
        let all = pieces(false, key);
        if all.contains(parent_mark()) {
            let i = choose|i: int| 0 <= i < all.len() && all[i] == parent_mark();
            let first = pieces(false, head);
            if i < first.len() {
                assert(first[i] == head);
            } else {
                assert(pieces(false, rest)[i - first.len()] == parent_mark());
            }
        }
    } else {
        assert(head =~= key);
        assert(segments(key)[0] == key);
        let all = pieces(false, key);
        if all.contains(parent_mark()) {
            let i = choose|i: int| 0 <= i < all.len() && all[i] == parent_mark();
            assert(all[i] == key);
        }
    }
}

/// Joining a safe key to a verbatim root, whose names are written anew, keeps the root in front too:
/// its prefix and all its names come first.
pub proof fn law_safe_key_keeps_verbatim_root_in_front(root: Dir, key: Seq<char>)
    requires
        safe_key(key),
        verbatim_dir(root),
    ensures
        (root.path.take(verbatim_len(root.path)) + lined_up(
            '\\',
            verbatim_names(root.path),
        )).is_prefix_of(joined(root, key).path),
{
    lemma_safe_key_never_goes_up(key);
    let names = verbatim_names(root.path);
    let all = walked(names, pieces(false, key));
    lemma_walked_stays(names, pieces(false, key));
    lemma_lined_up_prefix('\\', names, all);
    let front = root.path.take(verbatim_len(root.path));
    let kept = front + lined_up('\\', names);
    let j = joined(root, key).path;
    assert(prefix_len(root.style, key) == 0) by {
        assert(!key.contains('\\'));
        assert(key.contains(key[0]));
    }
    let tail = if all.len() == 0 {
        assert(names.len() == 0);
        j.skip(front.len() as int)
    } else {
        lined_up('\\', all)
    };
    assert(j =~= front + tail);
    assert(j.subrange(0, kept.len() as int) =~= kept) by {
        if all.len() > 0 {
            let n = lined_up('\\', names).len() as int;
            assert(lined_up('\\', all).subrange(0, n) =~= lined_up('\\', names));
            assert(j.subrange(0, kept.len() as int) =~= front + lined_up('\\', all).subrange(0, n));
        }
    }
}

// ── Which keys are safe, in so many words ───────────────────────────────────
/// The parent directory is named at `i`: two dots that stand alone between slashes or ends.
pub open spec fn goes_up_at(key: Seq<char>, i: int) -> bool {
    &&& 0 <= i && i + 2 <= key.len()
    &&& key[i] == '.' && key[i + 1] == '.'
    &&& i == 0 || key[i - 1] == '/'
    &&& i + 2 == key.len() || key[i + 2] == '/'
}

proof fn lemma_goes_up(key: Seq<char>)
    ensures
        segments(key).contains(parent_mark()) <==> exists|i: int| goes_up_at(key, i),
    decreases key.len(),
{
    lemma_first_slash(key);
    let n = first_slash(key) as int;
    let head = key.take(n);
    if head == parent_mark() {
        assert(head.len() == 2 && head[0] == '.' && head[1] == '.');
        assert(key[0] == head[0] && key[1] == head[1]);
        assert(goes_up_at(key, 0));
    }
    if n < key.len() {
        let rest = key.skip(n + 1);
        lemma_goes_up(rest);
        lemma_contains_head(head, segments(rest), parent_mark());
        if exists|i: int| goes_up_at(rest, i) {
            let i = choose|i: int| goes_up_at(rest, i);
            assert(key[n + 1 + i] == rest[i] && key[n + 2 + i] == rest[i + 1]);
            if i > 0 {
                assert(key[n + i] == rest[i - 1]);
            }
            if i + 2 < rest.len() {
                assert(key[n + 3 + i] == rest[i + 2]);
            }
            assert(goes_up_at(key, n + 1 + i));
        }
        if exists|i: int| goes_up_at(key, i) {
            let i = choose|i: int| goes_up_at(key, i);
            if i <= n {
                if 0 < i {
                    assert(key[i - 1] != '/');
                }
                assert(i == 0);
                assert(n >= 2) by {
                    if n < 2 {
                        assert(key[n] == '/');
                    }
                }
                assert(n == 2) by {
                    if n > 2 {
                        assert(key[2] != '/');
                    }
                }
                assert(head =~= parent_mark());
            } else {
                let k = i - n - 1;
                assert(rest[k] == key[i] && rest[k + 1] == key[i + 1]);
                if k > 0 {
                    assert(rest[k - 1] == key[i - 1]);
                }
                if k + 2 < rest.len() {
                    assert(rest[k + 2] == key[i + 2]);
                }
                assert(goes_up_at(rest, k));
            }
        }
    } else {
        assert(head =~= key);
        assert(segments(key) =~= seq![key]);
        assert(seq![key].contains(parent_mark()) <==> key == parent_mark()) by {
            assert(seq![key][0] == key);
        }
        if exists|i: int| goes_up_at(key, i) {
            let i = choose|i: int| goes_up_at(key, i);
            if 0 < i {
                assert(key[i - 1] != '/');
            }
            assert(i == 0);
            if key.len() > 2 {
                assert(key[2] != '/');
            }
            assert(key =~= parent_mark());
        }
    }
}

/// A key is refused for these reasons and for no other: it is empty, it begins with a separator of
/// any system or with a drive, it holds a backslash, or it names the parent directory somewhere.
pub proof fn law_keys_are_refused_only_for_cause(key: Seq<char>)
    ensures
        safe_key(key) <==> {
            &&& key.len() > 0
            &&& key[0] != '/'
            &&& !(key.len() >= 2 && key[1] == ':' && ('a' <= key[0] <= 'z' || 'A' <= key[0]
                <= 'Z'))
            &&& forall|i: int| 0 <= i < key.len() ==> #[trigger] key[i] != '\\'
            &&& forall|i: int| !#[trigger] goes_up_at(key, i)
        },
{
    lemma_goes_up(key);
    assert(key.contains('\\') <==> exists|i: int| 0 <= i < key.len() && #[trigger] key[i] == '\\');
}

proof fn lemma_sub_path_stays_down(front: Seq<char>, name: Seq<char>)
    requires
        front.len() > 0,
        forall|i: int| !#[trigger] goes_up_at(front, i),
        !name.contains('/'),
        name != parent_mark(),
    ensures
        forall|i: int| !#[trigger] goes_up_at(front.push('/') + name, i),
{
    let key = front.push('/') + name;
    let n = front.len() as int;
    assert(key[n] == '/');
    assert forall|i: int| !#[trigger] goes_up_at(key, i) by {
        if goes_up_at(key, i) {
            if i + 2 <= n {
                assert(key[i] == front[i] && key[i + 1] == front[i + 1]);
                if i > 0 {
                    assert(key[i - 1] == front[i - 1]);
                }
                if i + 2 < n {
                    assert(key[i + 2] == front[i + 2]);
                }
                assert(goes_up_at(front, i));
            } else if i == n + 1 {
                assert(key[i] == name[0] && key[i + 1] == name[1]);
                if name.len() > 2 {
                    assert(key[i + 2] == name[2]);
                    assert(name.contains(name[2]));
                }
                assert(name =~= parent_mark());
            } else if i > n + 1 {
                assert(key[i - 1] == name[i - n - 2]);
                assert(name.contains(name[i - n - 2]));
            }
        }
    }
}

/// Every key of the shape `host[:port][/sub/path]` is safe: a host of at least two characters, which
/// is not `..`, a port, if any, and the names of a sub-path, if any, none of which is `..`. Neither
/// the port nor the sub-path, nor both together, make a key unsafe.
pub proof fn law_real_keys_are_safe(
    host: Seq<char>,
    port: Option<Seq<char>>,
    names: Seq<Seq<char>>,
)
    requires
        host.len() >= 2,
        host != parent_mark(),
        !host.contains('/') && !host.contains('\\') && !host.contains(':'),
        port matches Some(p) ==> !p.contains('/') && !p.contains('\\'),
        forall|i: int|
            0 <= i < names.len() ==> !(#[trigger] names[i]).contains('/') && !names[i].contains(
                '\\',
            ) && names[i] != parent_mark(),
    ensures
        safe_key(
            host + (match port {
                Some(p) => seq![':'] + p,
                None => Seq::empty(),
            }) + lined_up('/', names),
        ),
    decreases names.len(),
{
    let server = host + (match port {
        Some(p) => seq![':'] + p,
        None => Seq::empty(),
    });
    let key = server + lined_up('/', names);
    assert(server[0] == host[0] && server[1] == host[1]);
    assert(host.contains(host[0]) && host.contains(host[1]));
    if names.len() == 0 {
        assert(key =~= server);
        assert forall|i: int| 0 <= i < server.len() implies #[trigger] server[i] != '/' && server[i]
            != '\\' by {
            if i < host.len() {
                assert(host.contains(host[i]));
            } else if i > host.len() {
                assert(port->0.contains(port->0[i - host.len() - 1]));
            }
        }
        assert forall|i: int| !#[trigger] goes_up_at(key, i) by {
            if goes_up_at(key, i) {
                if i > 0 {
                    assert(server[i - 1] != '/');
                }
                if server.len() > 2 {
                    assert(server[2] != '/');
                }
                if port is Some {
                    assert(server.len() > 2);
                }
                assert(host =~= parent_mark());
            }
        }
    } else {
        let front = names.drop_last();
        let name = names.last();
        assert forall|i: int| 0 <= i < front.len() implies !(#[trigger] front[i]).contains('/')
            && !front[i].contains('\\') && front[i] != parent_mark() by {
            assert(front[i] == names[i]);
        }
        assert(names[names.len() - 1] == name);
        law_real_keys_are_safe(host, port, front);
        let before = server + lined_up('/', front);
        law_keys_are_refused_only_for_cause(before);
        assert(key =~= before.push('/') + name);
        lemma_sub_path_stays_down(before, name);
        assert forall|i: int| 0 <= i < key.len() implies #[trigger] key[i] != '\\' by {
            if i < before.len() {
                assert(before[i] != '\\');
            } else if i > before.len() {
                assert(name.contains(name[i - before.len() - 1]));
            }
        }
    }
    law_keys_are_refused_only_for_cause(key);
}

} // verus!
