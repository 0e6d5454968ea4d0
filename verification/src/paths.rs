//! Where things live on disk, in paths as the system writes them.
use vstd::prelude::*;
use vstd::string::*;

use crate::index_key::{is_ascii_letter, parent_mark, self_mark};
use crate::media::Platform;
use crate::text::{cat, decimal, law_decimal_reads_back, same, slice_text, to_chars, to_decimal, views};

verus! {

/// How a system writes paths.
#[derive(PartialEq, Eq, Structural, Clone, Copy, Debug)]
pub enum PathStyle {
    /// Names are separated by `/`.
    Unix,
    /// Names are separated by `\`, and `/` is read as one too. A drive or a share may stand in front.
    Windows,
}

/// A separator on some system.
pub open spec fn is_mark(c: char) -> bool {
    c == '/' || c == '\\'
}

impl PathStyle {
    /// What stands between two names.
    pub open spec fn mark(self) -> char {
        match self {
            PathStyle::Unix => '/',
            PathStyle::Windows => '\\',
        }
    }

    /// The character is read as a separator.
    pub open spec fn separates(self, c: char) -> bool {
        match self {
            PathStyle::Unix => c == '/',
            PathStyle::Windows => is_mark(c),
        }
    }

    /// How the platform writes paths.
    pub open spec fn on(platform: Platform) -> PathStyle {
        match platform {
            Platform::Windows => PathStyle::Windows,
            _ => PathStyle::Unix,
        }
    }

    /// How the platform writes paths.
    pub fn of(platform: Platform) -> (r: PathStyle)
        ensures
            r == PathStyle::on(platform),
    {
        match platform {
            Platform::Windows => PathStyle::Windows,
            _ => PathStyle::Unix,
        }
    }

    /// What stands between two names.
    pub fn separator(&self) -> (r: char)
        ensures
            r == self.mark(),
    {
        match self {
            PathStyle::Unix => '/',
            PathStyle::Windows => '\\',
        }
    }

    fn is_separator(&self, c: char) -> (r: bool)
        ensures
            r == self.separates(c),
    {
        match self {
            PathStyle::Unix => c == '/',
            PathStyle::Windows => c == '/' || c == '\\',
        }
    }
}

/// A directory, written as its system writes paths.
#[derive(Clone, PartialEq, Eq, Debug)]
pub struct Place {
    pub style: PathStyle,
    pub path: String,
}

/// A directory, in the abstract.
#[verifier::ext_equal]
pub ghost struct Dir {
    pub style: PathStyle,
    pub path: Seq<char>,
}

impl View for Place {
    type V = Dir;

    open spec fn view(&self) -> Dir {
        Dir { style: self.style, path: self.path@ }
    }
}

/// A drive stands in front: a letter and a colon.
pub open spec fn has_drive(s: Seq<char>) -> bool {
    s.len() >= 2 && s[1] == ':' && is_ascii_letter(s[0])
}

/// Everything in the path is meant as it is written: `\\?\` stands in front, and only `\` separates
/// names.
pub open spec fn is_verbatim(s: Seq<char>) -> bool {
    s.len() >= 4 && s[0] == '\\' && s[1] == '\\' && s[2] == '?' && s[3] == '\\'
}

/// The character separates names on Windows, in a path that is verbatim or not.
pub open spec fn divides(verbatim: bool, c: char) -> bool {
    c == '\\' || (!verbatim && c == '/')
}

/// Where the name that begins at `from` ends.
pub open spec fn name_end(verbatim: bool, s: Seq<char>, from: int) -> int
    decreases s.len() - from,
{
    if from >= s.len() {
        s.len() as int
    } else if divides(verbatim, s[from]) {
        from
    } else {
        name_end(verbatim, s, from + 1)
    }
}

/// How much of a verbatim path is its prefix: a share behind `UNC`, a drive, or the first name.
pub open spec fn verbatim_len(s: Seq<char>) -> int {
    if s.len() >= 8 && s[4] == 'U' && s[5] == 'N' && s[6] == 'C' && is_mark(s[7]) {
        let server = name_end(true, s, 8);
        let share = name_end(true, s, server + 1);
        if server + 1 < share {
            share
        } else {
            server
        }
    } else if has_drive(s.skip(4)) && (s.len() == 6 || is_mark(s[6])) {
        6
    } else {
        name_end(true, s, 4)
    }
}

/// How much of a path is a prefix: a drive (`C:`), a share (`\\server\share`), a device (`\\.\name`),
/// or what stands in front of a verbatim path. Only Windows has them.
pub open spec fn prefix_len(style: PathStyle, s: Seq<char>) -> int {
    if style == PathStyle::Unix {
        0
    } else if has_drive(s) {
        2
    } else if is_verbatim(s) {
        verbatim_len(s)
    } else if s.len() >= 4 && is_mark(s[0]) && is_mark(s[1]) && s[2] == '.' && is_mark(s[3]) {
        name_end(false, s, 4)
    } else if s.len() >= 2 && is_mark(s[0]) && is_mark(s[1]) {
        let server = name_end(false, s, 2);
        let share = name_end(false, s, server + 1);
        if 2 < server && server + 1 < share {
            share
        } else {
            0
        }
    } else {
        0
    }
}

/// The names in a path, without what separates them.
pub open spec fn pieces(verbatim: bool, s: Seq<char>) -> Seq<Seq<char>>
    decreases s.len(),
{
    if s.len() == 0 {
        Seq::empty()
    } else {
        let front = pieces(verbatim, s.drop_last());
        if divides(verbatim, s.last()) {
            front
        } else if s.len() == 1 || divides(verbatim, s[s.len() - 2]) {
            front.push(seq![s.last()])
        } else {
            front.drop_last().push(front.last().push(s.last()))
        }
    }
}

/// A name that stands for another directory than one of that name.
pub open spec fn is_dotted(name: Seq<char>) -> bool {
    name == self_mark() || name == parent_mark()
}

/// One step from the directory with these names: `.` stays, `..` takes the last name away where it
/// is a real one, any other name goes down.
pub open spec fn stepped(at: Seq<Seq<char>>, step: Seq<char>) -> Seq<Seq<char>> {
    if step == self_mark() {
        at
    } else if step == parent_mark() {
        if at.len() > 0 && !is_dotted(at.last()) {
            at.drop_last()
        } else {
            at
        }
    } else {
        at.push(step)
    }
}

/// Where a number of steps lead from the directory with these names.
pub open spec fn walked(at: Seq<Seq<char>>, steps: Seq<Seq<char>>) -> Seq<Seq<char>>
    decreases steps.len(),
{
    if steps.len() == 0 {
        at
    } else {
        stepped(walked(at, steps.drop_last()), steps.last())
    }
}

/// The names one behind the other, each with a separator in front.
pub open spec fn lined_up(mark: char, names: Seq<Seq<char>>) -> Seq<char>
    decreases names.len(),
{
    if names.len() == 0 {
        Seq::empty()
    } else {
        lined_up(mark, names.drop_last()).push(mark) + names.last()
    }
}

/// The names in a verbatim path, behind its prefix.
pub open spec fn verbatim_names(path: Seq<char>) -> Seq<Seq<char>> {
    let n = verbatim_len(path);
    if n < path.len() {
        pieces(true, path.skip(n + 1))
    } else {
        Seq::empty()
    }
}

/// `part` seen from the verbatim directory `path`. A verbatim path is never looked at again, so the
/// steps of `part` are taken here: its separators become `\`, and `.` and `..` go.
pub open spec fn verbatim_joined(path: Seq<char>, part: Seq<char>) -> Seq<char> {
    let n = verbatim_len(path);
    let from_root = is_mark(part[0]);
    let names = walked(
        if from_root {
            Seq::empty()
        } else {
            verbatim_names(path)
        },
        pieces(false, part),
    );
    path.take(n) + (if names.len() == 0 && (from_root || n < path.len()) {
        seq!['\\']
    } else {
        lined_up('\\', names)
    })
}

/// The directory is written verbatim.
pub open spec fn verbatim_dir(base: Dir) -> bool {
    base.style == PathStyle::Windows && is_verbatim(base.path)
}

/// `part` seen from `base`. A `part` with a prefix of its own replaces `base`; one that begins with a
/// separator replaces everything behind the prefix of `base`. Otherwise one separator stands between
/// the two, unless `base` is empty, already ends in one or is nothing but a drive. On a verbatim
/// `base` the steps of `part` are taken one by one.
pub open spec fn joined(base: Dir, part: Seq<char>) -> Dir {
    let style = base.style;
    let path = base.path;
    Dir {
        style,
        path: if prefix_len(style, part) > 0 {
            part
        } else if verbatim_dir(base) && part.len() > 0 {
            verbatim_joined(path, part)
        } else if part.len() > 0 && style.separates(part[0]) {
            path.take(prefix_len(style, path)) + part
        } else if path.len() == 0 || style.separates(path.last()) || (style == PathStyle::Windows
            && has_drive(path) && path.len() == 2) {
            path + part
        } else {
            path.push(style.mark()) + part
        },
    }
}

fn find_name_end(verbatim: bool, v: &Vec<char>, from: usize) -> (r: usize)
    ensures
        r == name_end(verbatim, v@, from as int),
        r <= v.len(),
        from <= v.len() ==> from <= r,
{
    let mut i: usize = from;
    while i < v.len() && v[i] != '\\' && (verbatim || v[i] != '/')
        invariant
            from <= i,
            from <= v.len() ==> i <= v.len(),
            name_end(verbatim, v@, from as int) == name_end(verbatim, v@, i as int),
        decreases v.len() - i,
    {
        i = i + 1;
    }
    if i < v.len() {
        i
    } else {
        v.len()
    }
}

fn drive_at(v: &Vec<char>, at: usize) -> (r: bool)
    requires
        at <= 4,
        at <= v.len(),
    ensures
        r == has_drive(v@.skip(at as int)),
{
    v.len() >= at + 2 && v[at + 1] == ':' && (('a' <= v[at] && v[at] <= 'z') || ('A' <= v[at]
        && v[at] <= 'Z'))
}

fn drive_in_front(v: &Vec<char>) -> (r: bool)
    ensures
        r == has_drive(v@),
{
    assert(v@.skip(0) =~= v@);
    drive_at(v, 0)
}

fn mark_at(v: &Vec<char>, i: usize) -> (r: bool)
    requires
        i < v.len(),
    ensures
        r == is_mark(v@[i as int]),
{
    v[i] == '/' || v[i] == '\\'
}

fn reads_verbatim(v: &Vec<char>) -> (r: bool)
    ensures
        r == is_verbatim(v@),
{
    v.len() >= 4 && v[0] == '\\' && v[1] == '\\' && v[2] == '?' && v[3] == '\\'
}

fn find_verbatim(v: &Vec<char>) -> (r: usize)
    requires
        is_verbatim(v@),
    ensures
        r == verbatim_len(v@),
        4 <= r <= v.len(),
{
    if v.len() >= 8 && v[4] == 'U' && v[5] == 'N' && v[6] == 'C' && mark_at(v, 7) {
        let server = find_name_end(true, v, 8);
        if server < v.len() {
            let share = find_name_end(true, v, server + 1);
            if server + 1 < share {
                return share;
            }
        }
        return server;
    }
    if drive_at(v, 4) && (v.len() == 6 || mark_at(v, 6)) {
        return 6;
    }
    find_name_end(true, v, 4)
}

fn find_prefix(style: PathStyle, v: &Vec<char>) -> (r: usize)
    ensures
        r == prefix_len(style, v@),
        r <= v.len(),
{
    if style == PathStyle::Unix {
        return 0;
    }
    if drive_in_front(v) {
        return 2;
    }
    if reads_verbatim(v) {
        return find_verbatim(v);
    }
    if v.len() >= 4 && mark_at(v, 0) && mark_at(v, 1) && v[2] == '.' && mark_at(v, 3) {
        return find_name_end(false, v, 4);
    }
    if v.len() >= 2 && mark_at(v, 0) && mark_at(v, 1) {
        let server = find_name_end(false, v, 2);
        if server < v.len() {
            let share = find_name_end(false, v, server + 1);
            if 2 < server && server + 1 < share {
                return share;
            }
        }
    }
    0
}

/// The names in a path, without what separates them.
pub fn split_names(verbatim: bool, v: &Vec<char>) -> (r: Vec<String>)
    ensures
        views(r@) == pieces(verbatim, v@),
{
    let mut names: Vec<String> = Vec::new();
    let mut name: String = String::new();
    let mut i: usize = 0;
    proof {
        assert(v@.take(0) =~= Seq::<char>::empty());
        assert(views(names@) =~= Seq::<Seq<char>>::empty());
        assert(name@ =~= Seq::<char>::empty());
    }
    while i < v.len()
        invariant
            i <= v.len(),
            name@.len() > 0 <==> i > 0 && !divides(verbatim, v@[i - 1]),
            pieces(verbatim, v@.take(i as int)) == (if name@.len() > 0 {
                views(names@).push(name@)
            } else {
                views(names@)
            }),
        decreases v.len() - i,
    {
        let ghost before = views(names@);
        let ghost held = name@;
        let ghost next = v@.take(i + 1);
        proof {
            assert(next.drop_last() =~= v@.take(i as int));
            assert(next.last() == v@[i as int]);
            assert(i > 0 ==> next[next.len() - 2] == v@[i - 1]);
            assert(before.push(held).drop_last() =~= before);
        }
        if v[i] == '\\' || (!verbatim && v[i] == '/') {
            if !name.as_str().is_empty() {
                names.push(name);
                name = String::new();
                assert(views(names@) =~= before.push(held));
            }
            assert(name@ =~= Seq::<char>::empty());
        } else {
            name.push(v[i]);
            proof {
                if held.len() == 0 {
                    assert(name@ =~= seq![v@[i as int]]);
                }
            }
        }
        i = i + 1;
    }
    assert(v@.take(v.len() as int) =~= v@);
    if !name.as_str().is_empty() {
        let ghost before = views(names@);
        let ghost held = name@;
        names.push(name);
        assert(views(names@) =~= before.push(held));
    }
    names
}

/// Where a number of steps lead from the directory with these names.
pub fn walk_names(at: Vec<String>, steps: &Vec<String>) -> (r: Vec<String>)
    ensures
        views(r@) == walked(views(at@), views(steps@)),
{
    let mut names = at;
    let ghost start = views(at@);
    let mut i: usize = 0;
    proof {
        reveal_strlit(".");
        reveal_strlit("..");
        assert("."@ =~= self_mark());
        assert(".."@ =~= parent_mark());
        assert(views(steps@).take(0) =~= Seq::<Seq<char>>::empty());
    }
    while i < steps.len()
        invariant
            i <= steps.len(),
            "."@ == self_mark(),
            ".."@ == parent_mark(),
            views(names@) == walked(start, views(steps@).take(i as int)),
        decreases steps.len() - i,
    {
        let ghost before = views(names@);
        let step = &steps[i];
        proof {
            let next = views(steps@).take(i + 1);
            assert(next.drop_last() =~= views(steps@).take(i as int));
            assert(next.last() == step@);
        }
        if same(step.as_str(), "..") {
            assert(self_mark().len() != parent_mark().len());
            if names.len() > 0 && !same(names[names.len() - 1].as_str(), ".") && !same(
                names[names.len() - 1].as_str(),
                "..",
            ) {
                names.pop();
                assert(views(names@) =~= before.drop_last());
            }
        } else if !same(step.as_str(), ".") {
            names.push(step.clone());
            assert(views(names@) =~= before.push(step@));
        }
        i = i + 1;
    }
    assert(views(steps@).take(steps.len() as int) =~= views(steps@));
    names
}

/// The names one behind the other, each with a separator in front.
pub fn line_up(mark: char, names: &Vec<String>) -> (r: String)
    ensures
        r@ == lined_up(mark, views(names@)),
{
    let mut r: String = String::new();
    let mut i: usize = 0;
    proof {
        assert(r@ =~= Seq::<char>::empty());
        assert(views(names@).take(0) =~= Seq::<Seq<char>>::empty());
    }
    while i < names.len()
        invariant
            i <= names.len(),
            r@ == lined_up(mark, views(names@).take(i as int)),
        decreases names.len() - i,
    {
        proof {
            let next = views(names@).take(i + 1);
            assert(next.drop_last() =~= views(names@).take(i as int));
            assert(next.last() == names@[i as int]@);
        }
        r.push(mark);
        r.append(names[i].as_str());
        i = i + 1;
    }
    assert(views(names@).take(names.len() as int) =~= views(names@));
    r
}

/// The names in front of a separator and those behind it are the names of the whole.
pub proof fn lemma_pieces_split(verbatim: bool, a: Seq<char>, mark: char, b: Seq<char>)
    requires
        divides(verbatim, mark),
    ensures
        pieces(verbatim, a.push(mark) + b) == pieces(verbatim, a) + pieces(verbatim, b),
    decreases b.len(),
{
    let s = a.push(mark) + b;
    let head = pieces(verbatim, a);
    if b.len() == 0 {
        assert(s =~= a.push(mark));
        assert(s.drop_last() =~= a);
        assert(pieces(verbatim, s) =~= head + pieces(verbatim, b));
    } else {
        let front = b.drop_last();
        lemma_pieces_split(verbatim, a, mark, front);
        assert(s.drop_last() =~= a.push(mark) + front);
        assert(s.last() == b.last());
        if b.len() == 1 {
            assert(s[s.len() - 2] == mark);
        } else {
            assert(s[s.len() - 2] == b[b.len() - 2]);
        }
        assert(pieces(verbatim, s) =~= head + pieces(verbatim, b));
    }
}

/// A text in which nothing separates names is one name.
pub proof fn lemma_pieces_of_name(verbatim: bool, name: Seq<char>)
    requires
        name.len() > 0,
        forall|i: int| 0 <= i < name.len() ==> !divides(verbatim, #[trigger] name[i]),
    ensures
        pieces(verbatim, name) == seq![name],
    decreases name.len(),
{
    let front = name.drop_last();
    if front.len() > 0 {
        assert forall|i: int| 0 <= i < front.len() implies !divides(
            verbatim,
            #[trigger] front[i],
        ) by {
            assert(front[i] == name[i]);
        }
        lemma_pieces_of_name(verbatim, front);
        assert(front.push(name.last()) =~= name);
        assert(!divides(verbatim, name[name.len() - 2]));
        assert(pieces(verbatim, name) =~= seq![name]);
    } else {
        assert(seq![name.last()] =~= name);
        assert(pieces(verbatim, front) =~= Seq::<Seq<char>>::empty());
        assert(pieces(verbatim, name) =~= seq![name]);
    }
}

/// Steps that never go up keep the directory that they start from in front.
pub proof fn lemma_walked_stays(at: Seq<Seq<char>>, steps: Seq<Seq<char>>)
    requires
        !steps.contains(parent_mark()),
    ensures
        at.is_prefix_of(walked(at, steps)),
    decreases steps.len(),
{
    let to = walked(at, steps);
    if steps.len() > 0 {
        let front = steps.drop_last();
        if front.contains(parent_mark()) {
            let i = choose|i: int| 0 <= i < front.len() && front[i] == parent_mark();
            assert(steps[i] == parent_mark());
        }
        lemma_walked_stays(at, front);
        assert(steps[steps.len() - 1] == steps.last());
        let before = walked(at, front);
        assert(to.subrange(0, at.len() as int) =~= before.subrange(0, at.len() as int));
    } else {
        assert(to.subrange(0, at.len() as int) =~= at);
    }
}

/// The first names stand in front of all of them.
pub proof fn lemma_lined_up_prefix(mark: char, a: Seq<Seq<char>>, b: Seq<Seq<char>>)
    requires
        a.is_prefix_of(b),
    ensures
        lined_up(mark, a).is_prefix_of(lined_up(mark, b)),
    decreases b.len(),
{
    let x = lined_up(mark, a);
    let y = lined_up(mark, b);
    if a.len() == b.len() {
        assert(a =~= b) by {
            assert(b.subrange(0, a.len() as int) =~= b);
        }
        assert(y.subrange(0, x.len() as int) =~= x);
    } else {
        let front = b.drop_last();
        assert(front.subrange(0, a.len() as int) =~= b.subrange(0, a.len() as int));
        lemma_lined_up_prefix(mark, a, front);
        let z = lined_up(mark, front);
        assert(y.subrange(0, x.len() as int) =~= z.subrange(0, x.len() as int));
    }
}

fn join_verbatim(b: &Vec<char>, p: &Vec<char>) -> (r: String)
    requires
        is_verbatim(b@),
        p.len() > 0,
    ensures
        r@ == verbatim_joined(b@, p@),
{
    let n = find_verbatim(b);
    let from_root = mark_at(p, 0);
    let start: Vec<String> = if from_root || n >= b.len() {
        let none: Vec<String> = Vec::new();
        assert(views(none@) =~= Seq::<Seq<char>>::empty());
        none
    } else {
        let rest = to_chars(slice_text(b, n + 1, b.len()).as_str());
        assert(rest@ =~= b@.skip(n + 1));
        split_names(true, &rest)
    };
    let names = walk_names(start, &split_names(false, p));
    let mut r = slice_text(b, 0, n);
    assert(r@ =~= b@.take(n as int));
    if names.len() == 0 && (from_root || n < b.len()) {
        r.push('\\');
        assert(r@ =~= verbatim_joined(b@, p@));
    } else {
        r.append(line_up('\\', &names).as_str());
    }
    r
}

/// Joins `part` onto `base`.
pub fn join(base: &Place, part: &str) -> (r: Place)
    ensures
        r@ == joined(base@, part@),
{
    let style = base.style;
    let b = to_chars(base.path.as_str());
    let p = to_chars(part);
    let path = if find_prefix(style, &p) > 0 {
        part.to_owned()
    } else if style == PathStyle::Windows && reads_verbatim(&b) && p.len() > 0 {
        join_verbatim(&b, &p)
    } else if p.len() > 0 && style.is_separator(p[0]) {
        let kept = slice_text(&b, 0, find_prefix(style, &b));
        let path = cat(kept.as_str(), part);
        assert(path@ =~= joined(base@, part@).path);
        path
    } else if b.len() == 0 || style.is_separator(b[b.len() - 1]) || (style == PathStyle::Windows
        && drive_in_front(&b) && b.len() == 2) {
        cat(base.path.as_str(), part)
    } else {
        let mut path = base.path.clone();
        path.push(style.separator());
        path.append(part);
        path
    };
    Place { style, path }
}

/// The bucket of one server.
pub open spec fn server_dir(root: Dir, server_index_key: Seq<char>) -> Dir {
    joined(root, server_index_key)
}

/// The bucket of one server.
pub fn cover_server_dir(root: &Place, server_index_key: &str) -> (r: Place)
    ensures
        r@ == server_dir(root@, server_index_key@),
{
    join(root, server_index_key)
}

/// The directory of one album or artist inside a server's bucket.
pub open spec fn entity_dir(
    root: Dir,
    server_index_key: Seq<char>,
    cache_kind: Seq<char>,
    cache_entity_id: Seq<char>,
) -> Dir {
    joined(joined(server_dir(root, server_index_key), cache_kind), cache_entity_id)
}

/// The directory of one album or artist inside a server's bucket.
pub fn cover_dir(
    root: &Place,
    server_index_key: &str,
    cache_kind: &str,
    cache_entity_id: &str,
) -> (r: Place)
    ensures
        r@ == entity_dir(root@, server_index_key@, cache_kind@, cache_entity_id@),
{
    let server = cover_server_dir(root, server_index_key);
    let kind = join(&server, cache_kind);
    join(&kind, cache_entity_id)
}

/// The file name of a canonical tier: the tier in decimal, then `.webp`.
pub open spec fn tier_name(tier: u32) -> Seq<char> {
    decimal(tier as nat) + ".webp"@
}

/// The file name of a canonical tier.
pub fn tier_file_name(tier: u32) -> (r: String)
    ensures
        r@ == tier_name(tier),
{
    let n = to_decimal(tier as u64);
    cat(n.as_str(), ".webp")
}

/// The file of a canonical tier inside an entity's directory.
pub open spec fn tier_file(dir: Dir, tier: u32) -> Seq<char> {
    joined(dir, tier_name(tier)).path
}

/// The file of a canonical tier inside an entity's directory.
pub fn tier_path(dir: &Place, tier: u32) -> (r: String)
    ensures
        r@ == tier_file(dir@, tier),
{
    let name = tier_file_name(tier);
    join(dir, name.as_str()).path
}

/// The characters of `s` behind its last separator.
pub open spec fn last_segment(style: PathStyle, s: Seq<char>) -> Seq<char>
    decreases s.len(),
{
    if s.len() == 0 || style.separates(s.last()) {
        Seq::empty()
    } else {
        last_segment(style, s.drop_last()).push(s.last())
    }
}

/// What follows the last separator of a path.
pub fn file_name(style: PathStyle, path: &str) -> (r: String)
    ensures
        r@ == last_segment(style, path@),
{
    let v = to_chars(path);
    let mut r: String = String::new();
    let mut i: usize = 0;
    assert(v@.take(0) =~= Seq::<char>::empty());
    while i < v.len()
        invariant
            i <= v.len(),
            r@ == last_segment(style, v@.take(i as int)),
        decreases v.len() - i,
    {
        let ghost next = v@.take(i + 1);
        assert(next.drop_last() =~= v@.take(i as int));
        assert(next.last() == v@[i as int]);
        if style.is_separator(v[i]) {
            r = String::new();
        } else {
            r.push(v[i]);
        }
        i = i + 1;
    }
    assert(v@.take(v.len() as int) =~= v@);
    r
}

// ── What a path looks like, in so many words ────────────────────────────────
/// On Unix, a relative part stands behind the base and one slash, which is not written twice; below
/// an empty base it stands alone, and an absolute part stands for itself.
pub proof fn law_unix_parts_hang_below_their_base(path: Seq<char>, part: Seq<char>)
    requires
        part.len() > 0,
    ensures
        joined(Dir { style: PathStyle::Unix, path }, part) == (Dir {
            style: PathStyle::Unix,
            path: if part[0] == '/' || path.len() == 0 {
                part
            } else if path.last() == '/' {
                path + part
            } else {
                path + seq!['/'] + part
            },
        }),
{
    assert(path.take(0) + part =~= part);
    assert(path.push('/') + part =~= path + seq!['/'] + part);
    if path.len() == 0 {
        assert(path + part =~= part);
    }
}

/// On Windows, a plain part stands behind the base and one backslash, which is not written twice and
/// never behind a bare drive; a part with a drive of its own stands for itself.
pub proof fn law_windows_parts_hang_below_their_base(path: Seq<char>, part: Seq<char>)
    requires
        part.len() > 0,
        part[0] != '/' && part[0] != '\\',
        path.len() > 0,
        !(path.len() >= 4 && path[0] == '\\' && path[1] == '\\' && path[2] == '?' && path[3]
            == '\\'),
    ensures
        ({
            let letter = |c: char| 'a' <= c <= 'z' || 'A' <= c <= 'Z';
            joined(Dir { style: PathStyle::Windows, path }, part) == (Dir {
                style: PathStyle::Windows,
                path: if part.len() >= 2 && letter(part[0]) && part[1] == ':' {
                    part
                } else if path.last() == '\\' || path.last() == '/' || (path.len() == 2 && letter(
                    path[0],
                ) && path[1] == ':') {
                    path + part
                } else {
                    path + seq!['\\'] + part
                },
            })
        }),
{
    assert(path.push('\\') + part =~= path + seq!['\\'] + part);
}

/// On Windows, a part that begins with a separator keeps the drive of the base and replaces the rest.
pub proof fn law_rooted_part_keeps_the_drive(path: Seq<char>, part: Seq<char>)
    requires
        path.len() >= 2,
        'a' <= path[0] <= 'z' || 'A' <= path[0] <= 'Z',
        path[1] == ':',
        part.len() > 0,
        part[0] == '/' || part[0] == '\\',
        part.len() >= 2 ==> part[1] != '/' && part[1] != '\\' && part[1] != ':',
    ensures
        joined(Dir { style: PathStyle::Windows, path }, part).path == seq![path[0], ':'] + part,
{
    assert(path.take(2) =~= seq![path[0], ':']);
}

/// A cover's directory lies below the root at `key/kind/id`, and the file of a tier in it is named
/// by the tier in decimal and `.webp`.
pub proof fn law_covers_lie_below_their_server(
    root: Seq<char>,
    key: Seq<char>,
    kind: Seq<char>,
    id: Seq<char>,
    tier: u32,
)
    requires
        root.len() > 0 && root.last() != '/',
        key.len() > 0 && key[0] != '/' && key.last() != '/',
        kind.len() > 0 && kind[0] != '/' && kind.last() != '/',
        id.len() > 0 && id[0] != '/' && id.last() != '/',
    ensures
        ({
            let base = Dir { style: PathStyle::Unix, path: root };
            let server = root + "/"@ + key;
            let dir = Dir { style: PathStyle::Unix, path: server + "/"@ + kind + "/"@ + id };
            &&& server_dir(base, key) == (Dir { style: PathStyle::Unix, path: server })
            &&& entity_dir(base, key, kind, id) == dir
            &&& tier_file(dir, tier) == dir.path + "/"@ + decimal(tier as nat) + ".webp"@
        }),
{
    reveal_strlit("/");
    reveal_strlit(".webp");
    assert("/"@ =~= seq!['/']);
    let base = Dir { style: PathStyle::Unix, path: root };
    let server = root + "/"@ + key;
    let below = server + "/"@ + kind;
    let dir = Dir { style: PathStyle::Unix, path: below + "/"@ + id };
    law_unix_parts_hang_below_their_base(root, key);
    assert(server.last() == key.last());
    law_unix_parts_hang_below_their_base(server, kind);
    assert(below.last() == kind.last());
    law_unix_parts_hang_below_their_base(below, id);
    assert(dir.path.last() == id.last());
    law_decimal_reads_back(tier as nat);
    let name = decimal(tier as nat) + ".webp"@;
    assert(name[0] == decimal(tier as nat)[0]);
    law_unix_parts_hang_below_their_base(dir.path, name);
    assert(tier_file(dir, tier) =~= dir.path + "/"@ + decimal(tier as nat) + ".webp"@);
}

/// On Windows the same directories and files are separated by backslashes.
pub proof fn law_covers_lie_below_their_server_on_windows(
    root: Seq<char>,
    key: Seq<char>,
    kind: Seq<char>,
    id: Seq<char>,
    tier: u32,
)
    requires
        root.len() > 2 && !is_mark(root.last()),
        !(root.len() >= 4 && root[0] == '\\' && root[1] == '\\' && root[2] == '?' && root[3]
            == '\\'),
        key.len() > 0 && !is_mark(key[0]) && !is_mark(key.last()),
        kind.len() > 0 && !is_mark(kind[0]) && !is_mark(kind.last()),
        id.len() > 0 && !is_mark(id[0]) && !is_mark(id.last()),
        key.len() >= 2 ==> key[1] != ':',
        kind.len() >= 2 ==> kind[1] != ':',
        id.len() >= 2 ==> id[1] != ':',
        !(root.len() == 3 && root[0] == '\\' && root[1] == '\\' && root[2] == '?'),
    ensures
        ({
            let base = Dir { style: PathStyle::Windows, path: root };
            let dir = Dir {
                style: PathStyle::Windows,
                path: root + "\\"@ + key + "\\"@ + kind + "\\"@ + id,
            };
            &&& entity_dir(base, key, kind, id) == dir
            &&& tier_file(dir, tier) == dir.path + "\\"@ + decimal(tier as nat) + ".webp"@
        }),
{
    reveal_strlit("\\");
    reveal_strlit(".webp");
    assert("\\"@ =~= seq!['\\']);
    let server = root + "\\"@ + key;
    let below = server + "\\"@ + kind;
    let dir = below + "\\"@ + id;
    law_windows_parts_hang_below_their_base(root, key);
    assert(server.last() == key.last());
    assert(server[0] == root[0] && server[1] == root[1] && server[2] == root[2]);
    assert(root.len() >= 4 ==> server[3] == root[3]);
    law_windows_parts_hang_below_their_base(server, kind);
    assert(below.last() == kind.last());
    assert(below[0] == root[0] && below[1] == root[1] && below[2] == root[2]);
    assert(below[3] == server[3]);
    law_windows_parts_hang_below_their_base(below, id);
    assert(dir.last() == id.last());
    assert(dir[0] == root[0] && dir[1] == root[1] && dir[2] == root[2]);
    assert(dir[3] == below[3]);
    law_decimal_reads_back(tier as nat);
    let name = decimal(tier as nat) + ".webp"@;
    assert(name[0] == decimal(tier as nat)[0]);
    assert(name[1] != ':') by {
        if decimal(tier as nat).len() > 1 {
            assert(name[1] == decimal(tier as nat)[1]);
        }
    }
    law_windows_parts_hang_below_their_base(dir, name);
    assert(joined(Dir { style: PathStyle::Windows, path: dir }, name).path =~= dir + "\\"@
        + decimal(tier as nat) + ".webp"@);
}

/// The last name of a path is what follows its last separator: `/`, and on Windows `\` as well.
pub proof fn law_last_name_follows_the_last_separator(style: PathStyle, s: Seq<char>)
    ensures
        ({
            let name = last_segment(style, s);
            let front = s.take(s.len() - name.len());
            let ends = |c: char| c == '/' || (style == PathStyle::Windows && c == '\\');
            &&& name.len() <= s.len()
            &&& s == front + name
            &&& front.len() > 0 ==> ends(front.last())
            &&& forall|i: int| 0 <= i < name.len() ==> !ends(#[trigger] name[i])
        }),
    decreases s.len(),
{
    let name = last_segment(style, s);
    if s.len() > 0 && !style.separates(s.last()) {
        let rest = s.drop_last();
        law_last_name_follows_the_last_separator(style, rest);
        let inner = last_segment(style, rest);
        assert(s.take(s.len() - name.len()) =~= rest.take(rest.len() - inner.len()));
        let front = rest.take(rest.len() - inner.len());
        assert(rest == front + inner);
        assert(s =~= rest.push(s.last()));
        assert(name == inner.push(s.last()));
        assert(s =~= front + name);
        assert forall|i: int| 0 <= i < name.len() implies !style.separates(#[trigger] name[i]) by {
            if i < inner.len() {
                assert(name[i] == inner[i]);
            }
        }
    } else {
        assert(s.take(s.len() as int) =~= s);
        assert(s =~= s + name);
    }
}

/// A path of plain names, each behind a separator, is read as those names.
pub proof fn law_names_are_read_back(names: Seq<Seq<char>>)
    requires
        forall|i: int| #![trigger names[i]]
            0 <= i < names.len() ==> names[i].len() > 0 && !names[i].contains('/')
                && !names[i].contains('\\'),
    ensures
        pieces(false, lined_up('/', names)) == names,
    decreases names.len(),
{
    if names.len() > 0 {
        let front = names.drop_last();
        let name = names.last();
        assert forall|i: int| #![trigger front[i]] 0 <= i < front.len() implies front[i].len() > 0
            && !front[i].contains('/') && !front[i].contains('\\') by {
            assert(front[i] == names[i]);
        }
        law_names_are_read_back(front);
        assert(names[names.len() - 1] == name);
        assert forall|i: int| 0 <= i < name.len() implies !divides(false, #[trigger] name[i]) by {
            assert(name.contains(name[i]));
        }
        lemma_pieces_of_name(false, name);
        lemma_pieces_split(false, lined_up('/', front), '/', name);
        assert(front + seq![name] =~= names);
    } else {
        assert(pieces(false, Seq::empty()) =~= names);
    }
}

/// A walk takes each plain name down, stays at `.`, and goes back up over the last name at `..`.
pub proof fn law_walk_takes_each_step(at: Seq<Seq<char>>, steps: Seq<Seq<char>>, name: Seq<char>)
    requires
        name != seq!['.'],
        name != seq!['.', '.'],
    ensures
        walked(at, steps.push(name)) == walked(at, steps).push(name),
        walked(at, steps.push(seq!['.'])) == walked(at, steps),
        walked(at, steps.push(name).push(seq!['.', '.'])) == walked(at, steps),
        walked(at, Seq::empty()) == at,
{
    let dot = seq!['.'];
    let up = seq!['.', '.'];
    assert(self_mark() =~= dot);
    assert(parent_mark() =~= up);
    assert(dot.len() != up.len());
    assert(steps.push(name).drop_last() =~= steps);
    assert(steps.push(dot).drop_last() =~= steps);
    assert(steps.push(name).push(up).drop_last() =~= steps.push(name));
    assert(walked(at, steps).push(name).drop_last() =~= walked(at, steps));
}

/// Going up takes a real name away; where there is none, or the last one is `.` or `..`, it stays.
pub proof fn law_going_up_takes_a_real_name(at: Seq<Seq<char>>, steps: Seq<Seq<char>>)
    ensures
        ({
            let here = walked(at, steps);
            let up = walked(at, steps.push(seq!['.', '.']));
            &&& here.len() == 0 ==> up == here
            &&& here.len() > 0 && (here.last() == seq!['.'] || here.last() == seq!['.', '.']) ==> up
                == here
            &&& here.len() > 0 && here.last() != seq!['.'] && here.last() != seq!['.', '.'] ==> up
                == here.drop_last()
        }),
{
    let dots = seq!['.', '.'];
    assert(self_mark() =~= seq!['.']);
    assert(parent_mark() =~= dots);
    assert(dots.len() != seq!['.'].len());
    assert(steps.push(dots).drop_last() =~= steps);
}

// ── Verbatim paths and shares, in so many words ─────────────────────────────
proof fn lemma_name_end(verbatim: bool, s: Seq<char>, from: int, to: int)
    requires
        0 <= from <= to <= s.len(),
        forall|i: int| from <= i < to ==> !divides(verbatim, #[trigger] s[i]),
        to == s.len() || divides(verbatim, s[to]),
    ensures
        name_end(verbatim, s, from) == to,
    decreases to - from,
{
    if from < to {
        assert(!divides(verbatim, s[from]));
        lemma_name_end(verbatim, s, from + 1, to);
    }
}

proof fn lemma_names_read_back(verbatim: bool, mark: char, names: Seq<Seq<char>>)
    requires
        divides(verbatim, mark),
        forall|i: int, j: int|
            #![trigger names[i][j]]
            0 <= i < names.len() && 0 <= j < names[i].len() ==> !divides(verbatim, names[i][j]),
        forall|i: int| #![trigger names[i]] 0 <= i < names.len() ==> names[i].len() > 0,
    ensures
        pieces(verbatim, lined_up(mark, names)) == names,
    decreases names.len(),
{
    if names.len() > 0 {
        let front = names.drop_last();
        let name = names.last();
        assert forall|i: int, j: int|
            #![trigger front[i][j]]
            0 <= i < front.len() && 0 <= j < front[i].len() implies !divides(
            verbatim,
            front[i][j],
        ) by {
            assert(front[i] == names[i]);
            assert(!divides(verbatim, names[i][j]));
        }
        lemma_names_read_back(verbatim, mark, front);
        assert(names[names.len() - 1] == name);
        assert forall|j: int| 0 <= j < name.len() implies !divides(verbatim, #[trigger] name[j]) by {
            assert(!divides(verbatim, names[names.len() - 1][j]));
        }
        lemma_pieces_of_name(verbatim, name);
        lemma_pieces_split(verbatim, lined_up(mark, front), mark, name);
        assert(front + seq![name] =~= names);
    } else {
        assert(pieces(verbatim, Seq::empty()) =~= names);
    }
}

proof fn lemma_lined_up_one(mark: char, names: Seq<Seq<char>>)
    requires
        names.len() == 1,
    ensures
        lined_up(mark, names) == seq![mark] + names[0],
{
    let none = names.drop_last();
    assert(none.len() == 0);
    assert(lined_up(mark, none) =~= Seq::<char>::empty());
    assert(lined_up(mark, names) =~= seq![mark] + names[0]);
}

proof fn lemma_lined_up_begins(mark: char, names: Seq<Seq<char>>)
    requires
        names.len() > 0,
        names[0].len() > 0,
    ensures
        lined_up(mark, names).len() > names[0].len(),
        lined_up(mark, names)[0] == mark,
        forall|i: int|
            0 <= i < names[0].len() ==> lined_up(mark, names)[i + 1] == #[trigger] names[0][i],
        names.len() > 1 ==> lined_up(mark, names).len() > names[0].len() + 1 && lined_up(
            mark,
            names,
        )[names[0].len() as int + 1] == mark,
    decreases names.len(),
{
    let all = lined_up(mark, names);
    if names.len() > 1 {
        let front = names.drop_last();
        assert(front[0] == names[0]);
        lemma_lined_up_begins(mark, front);
        let before = lined_up(mark, front);
        assert forall|i: int| 0 <= i < names[0].len() implies all[i + 1] == #[trigger] names[0][i] by {
            assert(before[i + 1] == names[0][i]);
        }
        assert(all[0] == before[0]);
        if front.len() == 1 {
            lemma_lined_up_one(mark, front);
            assert(before =~= seq![mark] + names[0]);
        }
    } else {
        lemma_lined_up_one(mark, names);
    }
}

proof fn lemma_walked_down(at: Seq<Seq<char>>, more: Seq<Seq<char>>)
    requires
        forall|i: int|
            #![trigger more[i]]
            0 <= i < more.len() ==> more[i] != self_mark() && more[i] != parent_mark(),
    ensures
        walked(at, more) == at + more,
    decreases more.len(),
{
    if more.len() > 0 {
        let front = more.drop_last();
        assert forall|i: int| #![trigger front[i]] 0 <= i < front.len() implies front[i]
            != self_mark() && front[i] != parent_mark() by {
            assert(front[i] == more[i]);
        }
        lemma_walked_down(at, front);
        assert(more[more.len() - 1] == more.last());
        assert((at + front).push(more.last()) =~= at + more);
    } else {
        assert(at + more =~= at);
    }
}

/// Names that go down: none is empty, `.` or `..`, and none holds a separator.
pub open spec fn plain_names(names: Seq<Seq<char>>) -> bool {
    forall|i: int|
        #![trigger names[i]]
        0 <= i < names.len() ==> names[i].len() > 0 && names[i] != seq!['.'] && names[i]
            != seq!['.', '.'] && !names[i].contains('/') && !names[i].contains('\\')
}

proof fn lemma_plain_read(more: Seq<Seq<char>>)
    requires
        plain_names(more),
        more.len() > 0,
    ensures
        pieces(false, lined_up('/', more)) == more,
        pieces(false, lined_up('/', more).skip(1)) == more,
        pieces(true, lined_up('\\', more).skip(1)) == more,
        forall|at: Seq<Seq<char>>| #[trigger] walked(at, more) == at + more,
{
    let part = lined_up('/', more);
    assert(self_mark() =~= seq!['.']);
    assert(parent_mark() =~= seq!['.', '.']);
    assert forall|i: int, j: int|
        #![trigger more[i][j]]
        0 <= i < more.len() && 0 <= j < more[i].len() implies !divides(false, more[i][j])
        && !divides(true, more[i][j]) by {
        assert(more[i].contains(more[i][j]));
    }
    lemma_names_read_back(false, '/', more);
    lemma_names_read_back(true, '\\', more);
    lemma_lined_up_begins('/', more);
    lemma_lined_up_begins('\\', more);
    assert(part =~= Seq::<char>::empty().push('/') + part.skip(1));
    lemma_pieces_split(false, Seq::empty(), '/', part.skip(1));
    assert(pieces(false, Seq::empty()) =~= Seq::<Seq<char>>::empty());
    assert(Seq::<Seq<char>>::empty() + pieces(false, part.skip(1)) =~= pieces(false, part.skip(1)));
    let back = lined_up('\\', more);
    assert(back =~= Seq::<char>::empty().push('\\') + back.skip(1));
    lemma_pieces_split(true, Seq::empty(), '\\', back.skip(1));
    assert(pieces(true, Seq::empty()) =~= Seq::<Seq<char>>::empty());
    assert(Seq::<Seq<char>>::empty() + pieces(true, back.skip(1)) =~= pieces(true, back.skip(1)));
    assert forall|at: Seq<Seq<char>>| #[trigger] walked(at, more) == at + more by {
        lemma_walked_down(at, more);
    }
}

proof fn lemma_verbatim_join(pre: Seq<char>, names: Seq<Seq<char>>, more: Seq<Seq<char>>)
    requires
        is_verbatim(pre),
        verbatim_len(pre + lined_up('\\', names)) == pre.len(),
        plain_names(names),
        plain_names(more),
        more.len() > 0,
        !more[0].contains(':'),
    ensures
        ({
            let base = Dir { style: PathStyle::Windows, path: pre + lined_up('\\', names) };
            let part = lined_up('/', more);
            &&& joined(base, part.skip(1)).path == pre + lined_up('\\', names + more)
            &&& joined(base, part).path == pre + lined_up('\\', more)
            &&& joined(base, seq!['/']).path == pre + seq!['\\']
        }),
{
    let path = pre + lined_up('\\', names);
    let base = Dir { style: PathStyle::Windows, path };
    let part = lined_up('/', more);
    let short = part.skip(1);
    lemma_plain_read(more);
    lemma_lined_up_begins('/', more);
    assert(path[0] == pre[0] && path[1] == pre[1] && path[2] == pre[2] && path[3] == pre[3]);
    assert(path.take(pre.len() as int) =~= pre);
    assert(more[0].contains(more[0][0]));
    assert(short[0] == more[0][0]);
    if short.len() >= 2 {
        if more[0].len() >= 2 {
            assert(short[1] == more[0][1]);
            assert(more[0].contains(more[0][1]));
        } else {
            if more.len() == 1 {
                lemma_lined_up_one('/', more);
            }
            assert(short[1] == '/');
        }
    }
    assert(part[1] == more[0][0]);
    assert(prefix_len(PathStyle::Windows, short) == 0);
    assert(prefix_len(PathStyle::Windows, part) == 0);
    assert(prefix_len(PathStyle::Windows, seq!['/']) == 0);
    assert(verbatim_names(path) == names) by {
        if names.len() > 0 {
            lemma_plain_read(names);
            lemma_lined_up_begins('\\', names);
            assert(path.skip(pre.len() as int + 1) =~= lined_up('\\', names).skip(1));
        } else {
            assert(lined_up('\\', names) =~= Seq::<char>::empty());
            assert(names =~= Seq::<Seq<char>>::empty());
        }
    }
    assert((names + more).len() > 0);
    assert(Seq::<Seq<char>>::empty() + more =~= more);
    let slash = seq!['/'];
    assert(slash.drop_last() =~= Seq::<char>::empty());
    assert(pieces(false, Seq::empty()) =~= Seq::<Seq<char>>::empty());
    assert(pieces(false, slash) =~= Seq::<Seq<char>>::empty());
}

/// Below a verbatim drive, the names of a part are added one by one behind backslashes, however the
/// part separates them; a part that begins with a separator starts anew below the drive.
pub proof fn law_verbatim_drive_takes_names_one_by_one(
    letter: char,
    names: Seq<Seq<char>>,
    more: Seq<Seq<char>>,
)
    requires
        'a' <= letter <= 'z' || 'A' <= letter <= 'Z',
        plain_names(names),
        plain_names(more),
        more.len() > 0,
        !more[0].contains(':'),
    ensures
        ({
            let drive = seq!['\\', '\\', '?', '\\', letter, ':'];
            let base = Dir { style: PathStyle::Windows, path: drive + lined_up('\\', names) };
            let part = lined_up('/', more);
            &&& joined(base, part.skip(1)).path == drive + lined_up('\\', names + more)
            &&& joined(base, part).path == drive + lined_up('\\', more)
            &&& joined(base, seq!['/']).path == drive + seq!['\\']
        }),
{
    let drive = seq!['\\', '\\', '?', '\\', letter, ':'];
    let path = drive + lined_up('\\', names);
    assert(path[4] == letter && path[5] == ':');
    assert(path.skip(4)[0] == letter && path.skip(4)[1] == ':');
    if names.len() > 0 {
        lemma_lined_up_begins('\\', names);
        assert(path[6] == lined_up('\\', names)[0]);
    } else {
        assert(lined_up('\\', names) =~= Seq::<char>::empty());
    }
    lemma_verbatim_join(drive, names, more);
}

/// Below a verbatim share it is the same: the server and the share stay in front.
pub proof fn law_verbatim_share_takes_names_one_by_one(
    server: Seq<char>,
    share: Seq<char>,
    names: Seq<Seq<char>>,
    more: Seq<Seq<char>>,
)
    requires
        server.len() > 0 && !server.contains('\\'),
        share.len() > 0 && !share.contains('\\'),
        plain_names(names),
        plain_names(more),
        more.len() > 0,
        !more[0].contains(':'),
    ensures
        ({
            let front = seq!['\\', '\\', '?', '\\', 'U', 'N', 'C', '\\'] + server + seq!['\\']
                + share;
            let base = Dir { style: PathStyle::Windows, path: front + lined_up('\\', names) };
            let part = lined_up('/', more);
            &&& joined(base, part.skip(1)).path == front + lined_up('\\', names + more)
            &&& joined(base, part).path == front + lined_up('\\', more)
            &&& joined(base, seq!['/']).path == front + seq!['\\']
        }),
{
    let front = seq!['\\', '\\', '?', '\\', 'U', 'N', 'C', '\\'] + server + seq!['\\'] + share;
    let path = front + lined_up('\\', names);
    let a = 8 + server.len() as int;
    let b = a + 1 + share.len();
    assert(path[4] == 'U' && path[5] == 'N' && path[6] == 'C' && path[7] == '\\');
    assert(path[a] == '\\');
    assert forall|i: int| 8 <= i < a implies !divides(true, #[trigger] path[i]) by {
        assert(path[i] == server[i - 8]);
        assert(server.contains(server[i - 8]));
    }
    assert forall|i: int| a + 1 <= i < b implies !divides(true, #[trigger] path[i]) by {
        assert(path[i] == share[i - a - 1]);
        assert(share.contains(share[i - a - 1]));
    }
    if names.len() > 0 {
        lemma_lined_up_begins('\\', names);
        assert(path[b] == lined_up('\\', names)[0]);
    } else {
        assert(lined_up('\\', names) =~= Seq::<char>::empty());
    }
    lemma_name_end(true, path, 8, a);
    lemma_name_end(true, path, a + 1, b);
    lemma_verbatim_join(front, names, more);
}

/// Below a verbatim device its name stays in front.
pub proof fn law_verbatim_device_takes_names_one_by_one(
    device: Seq<char>,
    names: Seq<Seq<char>>,
    more: Seq<Seq<char>>,
)
    requires
        device.len() > 0 && !device.contains('\\') && !device.contains(':') && device[0] != 'U',
        plain_names(names),
        plain_names(more),
        more.len() > 0,
        !more[0].contains(':'),
    ensures
        ({
            let front = seq!['\\', '\\', '?', '\\'] + device;
            let base = Dir { style: PathStyle::Windows, path: front + lined_up('\\', names) };
            let part = lined_up('/', more);
            &&& joined(base, part.skip(1)).path == front + lined_up('\\', names + more)
            &&& joined(base, part).path == front + lined_up('\\', more)
        }),
{
    let front = seq!['\\', '\\', '?', '\\'] + device;
    let path = front + lined_up('\\', names);
    let n = 4 + device.len() as int;
    assert(path[4] == device[0]);
    assert forall|i: int| 4 <= i < n implies !divides(true, #[trigger] path[i]) && path[i] != ':' by {
        assert(path[i] == device[i - 4]);
        assert(device.contains(device[i - 4]));
    }
    if names.len() > 0 {
        lemma_lined_up_begins('\\', names);
        assert(path[n] == lined_up('\\', names)[0]);
    } else {
        assert(lined_up('\\', names) =~= Seq::<char>::empty());
    }
    if path.len() > 5 {
        assert(path.skip(4)[1] == path[5]);
        assert(path[5] != ':');
    }
    lemma_name_end(true, path, 4, n);
    lemma_verbatim_join(front, names, more);
}

/// A part that begins with a separator keeps the share, or the device, that the base begins with, and
/// replaces the rest.
pub proof fn law_rooted_part_keeps_the_share(
    server: Seq<char>,
    share: Seq<char>,
    rest: Seq<char>,
    part: Seq<char>,
)
    requires
        server.len() > 0 && !server.contains('/') && !server.contains('\\'),
        server != seq!['?'] && server != seq!['.'],
        share.len() > 0 && !share.contains('/') && !share.contains('\\'),
        rest.len() > 0 ==> is_mark(rest[0]),
        part.len() > 0 && is_mark(part[0]),
        part.len() >= 2 ==> !is_mark(part[1]),
    ensures
        ({
            let front = seq!['\\', '\\'] + server + seq!['\\'] + share;
            let device = seq!['\\', '\\', '.', '\\'] + share;
            let on = |path: Seq<char>| Dir { style: PathStyle::Windows, path };
            &&& joined(on(front + rest), part).path == front + part
            &&& joined(on(device + rest), part).path == device + part
        }),
{
    let front = seq!['\\', '\\'] + server + seq!['\\'] + share;
    let path = front + rest;
    let a = 2 + server.len() as int;
    let b = a + 1 + share.len();
    assert(path[0] == '\\' && path[1] == '\\' && path[2] == server[0] && path[a] == '\\');
    assert forall|i: int| 2 <= i < a implies !divides(false, #[trigger] path[i]) by {
        assert(path[i] == server[i - 2]);
        assert(server.contains(server[i - 2]));
    }
    assert forall|i: int| a + 1 <= i < b implies !divides(false, #[trigger] path[i]) by {
        assert(path[i] == share[i - a - 1]);
        assert(share.contains(share[i - a - 1]));
    }
    if rest.len() > 0 {
        assert(path[b] == rest[0]);
    }
    lemma_name_end(false, path, 2, a);
    lemma_name_end(false, path, a + 1, b);
    if server.len() == 1 {
        assert(server =~= seq![server[0]]);
    } else {
        assert(!divides(false, path[3]));
    }
    assert(path.take(b) =~= front);
    assert(prefix_len(PathStyle::Windows, path) == b);
    assert(prefix_len(PathStyle::Windows, part) == 0);
    let device = seq!['\\', '\\', '.', '\\'] + share;
    let other = device + rest;
    let n = 4 + share.len() as int;
    assert(other[0] == '\\' && other[1] == '\\' && other[2] == '.' && other[3] == '\\');
    assert forall|i: int| 4 <= i < n implies !divides(false, #[trigger] other[i]) by {
        assert(other[i] == share[i - 4]);
        assert(share.contains(share[i - 4]));
    }
    if rest.len() > 0 {
        assert(other[n] == rest[0]);
    }
    lemma_name_end(false, other, 4, n);
    assert(prefix_len(PathStyle::Windows, other) == n);
    assert(other.take(n) =~= device);
}

/// A path is verbatim just where the four characters `\\?\` stand in front of it, on Windows.
pub proof fn law_verbatim_paths_begin_alike(rest: Seq<char>, path: Seq<char>, style: PathStyle)
    ensures
        is_verbatim(seq!['\\', '\\', '?', '\\'] + rest),
        is_verbatim(path) ==> path == seq!['\\', '\\', '?', '\\'] + path.skip(4),
        verbatim_dir(Dir { style, path }) <==> style == PathStyle::Windows && is_verbatim(path),
{
    let front = seq!['\\', '\\', '?', '\\'];
    let whole = front + rest;
    assert(whole[0] == '\\' && whole[1] == '\\' && whole[2] == '?' && whole[3] == '\\');
    if is_verbatim(path) {
        assert(path =~= front + path.skip(4));
    }
}

/// At the top of a verbatim drive, `.` stays and `..` has nowhere to go: the separator behind the
/// drive stays where there is one, and none is added.
pub proof fn law_verbatim_drive_has_a_top(letter: char)
    requires
        'a' <= letter <= 'z' || 'A' <= letter <= 'Z',
    ensures
        ({
            let drive = seq!['\\', '\\', '?', '\\', letter, ':'];
            let on = |path: Seq<char>| Dir { style: PathStyle::Windows, path };
            &&& joined(on(drive), seq!['.']).path == drive
            &&& joined(on(drive), seq!['.', '.']).path == drive
            &&& joined(on(drive.push('\\')), seq!['.']).path == drive.push('\\')
            &&& joined(on(drive.push('\\')), seq!['.', '.']).path == drive.push('\\')
        }),
{
    let drive = seq!['\\', '\\', '?', '\\', letter, ':'];
    let top = drive.push('\\');
    let dot = seq!['.'];
    let up = seq!['.', '.'];
    let none = Seq::<Seq<char>>::empty();
    assert(drive.skip(4)[0] == letter && drive.skip(4)[1] == ':');
    assert(top.skip(4)[0] == letter && top.skip(4)[1] == ':');
    assert(verbatim_len(drive) == 6 && verbatim_len(top) == 6);
    assert(top.skip(7) =~= Seq::<char>::empty());
    assert(pieces(true, Seq::empty()) =~= none);
    assert(verbatim_names(drive) =~= none && verbatim_names(top) =~= none);
    lemma_pieces_of_name(false, dot);
    lemma_pieces_of_name(false, up);
    assert(self_mark() =~= dot && parent_mark() =~= up);
    assert(dot.len() != up.len());
    assert(seq![dot].drop_last() =~= none && seq![up].drop_last() =~= none);
    assert(walked(none, none) == none);
    assert(walked(none, seq![dot]) == none && walked(none, seq![up]) == none);
    assert(lined_up('\\', none) =~= Seq::<char>::empty());
    assert(prefix_len(PathStyle::Windows, dot) == 0 && prefix_len(PathStyle::Windows, up) == 0);
    assert(drive.take(6) =~= drive && top.take(6) =~= drive);
    assert(drive + Seq::<char>::empty() =~= drive);
    assert(drive + seq!['\\'] =~= top);
}

} // verus!
