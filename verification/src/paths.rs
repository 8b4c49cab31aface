//! Paths as text.
//!
//! A path is read as a sequence of names separated by `/`.  Empty names and
//! `.` in any place but the first are skipped, so that `a//b`, `a/./b` and
//! `a/b/` all name the same path.  A path that begins with `/` is absolute; a
//! path whose first name is `.` begins in the current directory.  Platform
//! separators are applied by whoever turns the text into a filesystem path.

use crate::text::{from_chars, push_char, to_chars, views};
use vstd::prelude::*;
use vstd::std_specs::iter::IteratorSpec;
use vstd::string::StringExecFns;

verus! {

/// What a path's text stands for.
pub struct PathView {
    /// The path begins with `/`.
    pub root: bool,
    /// The path's first name is `.`.
    pub cur_dir: bool,
    /// The names that remain, none of them empty or `.`.
    pub names: Seq<Seq<char>>,
}

/// The stretches of `s` between its separators; there is always at least one.
pub open spec fn pieces(s: Seq<char>) -> Seq<Seq<char>>
    decreases s.len(),
{
    if s.len() == 0 {
        seq![Seq::<char>::empty()]
    } else {
        let before = pieces(s.drop_last());
        if s.last() == '/' {
            before.push(Seq::<char>::empty())
        } else {
            before.drop_last().push(before.last().push(s.last()))
        }
    }
}

/// Whether a piece counts as a name: it is neither empty nor `.`.
pub open spec fn is_name(piece: Seq<char>) -> bool {
    piece.len() > 0 && piece != seq!['.']
}

/// The pieces that are names, in order.
pub open spec fn kept(ps: Seq<Seq<char>>) -> Seq<Seq<char>>
    decreases ps.len(),
{
    if ps.len() == 0 {
        Seq::<Seq<char>>::empty()
    } else if is_name(ps.last()) {
        kept(ps.drop_last()).push(ps.last())
    } else {
        kept(ps.drop_last())
    }
}

/// Reads a path's text.
pub open spec fn parse(s: Seq<char>) -> PathView {
    let ps = pieces(s);
    PathView {
        root: ps.len() > 1 && ps[0].len() == 0,
        cur_dir: ps[0] == seq!['.'],
        names: kept(ps),
    }
}

/// The names with a `/` between each two.
pub open spec fn join(names: Seq<Seq<char>>) -> Seq<char>
    decreases names.len(),
{
    if names.len() == 0 {
        Seq::<char>::empty()
    } else if names.len() == 1 {
        names[0]
    } else {
        join(names.drop_last()) + seq!['/'] + names.last()
    }
}

/// The shortest text that `parse` reads as `p`.
pub open spec fn render(p: PathView) -> Seq<char> {
    if p.root {
        seq!['/'] + join(p.names)
    } else if p.cur_dir {
        if p.names.len() == 0 {
            seq!['.']
        } else {
            seq!['.', '/'] + join(p.names)
        }
    } else {
        join(p.names)
    }
}

/// Whether the path has neither a start marker nor a name.
pub open spec fn is_empty_path(p: PathView) -> bool {
    !p.root && !p.cur_dir && p.names.len() == 0
}

/// The path reached by following `relative` from `dir`: an absolute
/// `relative` stands alone, an empty `dir` adds nothing, and otherwise the
/// names of `relative` follow those of `dir`.
pub open spec fn assemble(dir: PathView, relative: PathView) -> PathView {
    if relative.root {
        PathView { root: true, cur_dir: false, names: relative.names }
    } else if is_empty_path(dir) {
        relative
    } else {
        PathView { root: dir.root, cur_dir: dir.cur_dir, names: dir.names + relative.names }
    }
}

/// A path taken apart.
pub struct PathParts {
    pub root: bool,
    pub cur_dir: bool,
    pub names: Vec<String>,
}

impl View for PathParts {
    type V = PathView;

    open spec fn view(&self) -> PathView {
        PathView { root: self.root, cur_dir: self.cur_dir, names: views(self.names@) }
    }
}

/// What is known of a piece while it is read.
#[derive(Clone, Copy, PartialEq, Eq, Structural)]
enum Shape {
    Empty,
    Dot,
    Name,
}

spec fn shape_of(piece: Seq<char>) -> Shape {
    if piece.len() == 0 {
        Shape::Empty
    } else if piece == seq!['.'] {
        Shape::Dot
    } else {
        Shape::Name
    }
}

impl PathParts {
    /// Takes a path's text apart.
    pub fn parse(s: &str) -> (parts: PathParts)
        ensures
            parts@ == parse(s@),
    {
        let mut names: Vec<String> = Vec::new();
        let mut cur = String::new();
        let mut cur_shape = Shape::Empty;
        let mut first_shape = Shape::Empty;
        let mut seen_sep = false;
        for c in it: s.chars()
            invariant
                it.seq() == s@,
                views(names@) == kept(pieces(s@.take(it.index() as int)).drop_last()),
                cur@ == pieces(s@.take(it.index() as int)).last(),
                cur_shape == shape_of(cur@),
                seen_sep == (pieces(s@.take(it.index() as int)).len() > 1),
                seen_sep ==> first_shape == shape_of(
                    pieces(s@.take(it.index() as int))[0],
                ),
                pieces(s@.take(it.index() as int)).len() >= 1,
        {
            let ghost before = s@.take(it.index() as int);
            let ghost after = s@.take(it.index() as int + 1);
            proof {
                assert(after.drop_last() =~= before);
                assert(after.last() == c);
            }
            if c == '/' {
                if !seen_sep {
                    first_shape = cur_shape;
                    seen_sep = true;
                }
                if cur_shape == Shape::Name {
                    let ghost old_names = names@;
                    names.push(cur);
                    proof {
                        assert(views(names@) =~= views(old_names).push(cur@));
                    }
                }
                cur = String::new();
                cur_shape = Shape::Empty;
                proof {
                    assert(pieces(after).drop_last() =~= pieces(before));
                }
            } else {
                push_char(&mut cur, c);
                cur_shape = if cur_shape == Shape::Empty && c == '.' {
                    Shape::Dot
                } else {
                    Shape::Name
                };
                proof {
                    assert(pieces(after).drop_last() =~= pieces(before).drop_last());
                    let ghost prev = pieces(before).last();
                    if prev.len() == 0 && c == '.' {
                        assert(prev.push(c) =~= seq!['.']);
                    } else if prev.len() == 0 {
                        assert(prev.push(c)[0] != '.');
                    } else {
                        assert(prev.push(c).len() != 1);
                    }
                }
            }
        }
        proof {
            assert(s@.take(s@.len() as int) =~= s@);
        }
        if !seen_sep {
            first_shape = cur_shape;
        }
        if cur_shape == Shape::Name {
            let ghost old_names = names@;
            names.push(cur);
            proof {
                assert(views(names@) =~= views(old_names).push(cur@));
            }
        }
        PathParts { root: seen_sep && first_shape == Shape::Empty, cur_dir: first_shape == Shape::Dot, names }
    }

    /// The text of the path.
    pub fn render(&self) -> (out: String)
        ensures
            out@ == render(self@),
    {
        let mut out = String::new();
        if self.root {
            push_char(&mut out, '/');
        } else if self.cur_dir {
            push_char(&mut out, '.');
            if self.names.len() > 0 {
                push_char(&mut out, '/');
            }
        }
        let ghost head = out@;
        let body = join_range(&self.names, 0, self.names.len());
        out.append(body.as_str());
        proof {
            assert(views(self.names@).subrange(0, self.names@.len() as int) =~= views(self.names@));
            assert(out@ =~= head + join(self@.names));
            if !self.root && !self.cur_dir {
                assert(out@ =~= join(self@.names));
            }
        }
        out
    }

    /// The path reached by following `relative` from `self`.
    pub fn assemble(self, relative: PathParts) -> (out: PathParts)
        ensures
            out@ == assemble(self@, relative@),
    {
        if relative.root {
            PathParts { root: true, cur_dir: false, names: relative.names }
        } else if !self.root && !self.cur_dir && self.names.len() == 0 {
            relative
        } else {
            let mut names = self.names;
            let mut more = relative.names;
            let ghost first = names@;
            let ghost second = more@;
            names.append(&mut more);
            proof {
                assert(views(names@) =~= views(first) + views(second));
            }
            PathParts { root: self.root, cur_dir: self.cur_dir, names }
        }
    }

    /// The start marker, if there is one, followed by the names.
    pub fn components(&self) -> (out: Vec<String>)
        ensures
            views(out@) == components(self@),
    {
        let mut out: Vec<String> = Vec::new();
        if self.root {
            let mut m = String::new();
            push_char(&mut m, '/');
            out.push(m);
        } else if self.cur_dir {
            let mut m = String::new();
            push_char(&mut m, '.');
            out.push(m);
        }
        let ghost head = views(out@);
        proof {
            assert(head =~= start_marker(self@));
        }
        let mut i: usize = 0;
        while i < self.names.len()
            invariant
                i <= self.names.len(),
                views(out@) == head + views(self.names@).take(i as int),
            decreases self.names.len() - i,
        {
            let ghost before = out@;
            out.push(self.names[i].clone());
            proof {
                assert(views(out@) =~= views(before).push(self.names@[i as int]@));
                assert(views(self.names@).take(i as int + 1) =~= views(self.names@).take(i as int).push(
                    self.names@[i as int]@,
                ));
            }
            i += 1;
        }
        proof {
            assert(views(self.names@).take(self.names@.len() as int) =~= views(self.names@));
        }
        out
    }
}

/// `/` for an absolute path, `.` for one that begins in the current
/// directory, nothing otherwise.
pub open spec fn start_marker(p: PathView) -> Seq<Seq<char>> {
    if p.root {
        seq![seq!['/']]
    } else if p.cur_dir {
        seq![seq!['.']]
    } else {
        Seq::<Seq<char>>::empty()
    }
}

/// The start marker, if there is one, followed by the names.
pub open spec fn components(p: PathView) -> Seq<Seq<char>> {
    start_marker(p) + p.names
}

/// Whether `b` begins with `a`.
pub open spec fn is_prefix(a: Seq<Seq<char>>, b: Seq<Seq<char>>) -> bool {
    a.len() <= b.len() && b.take(a.len() as int) == a
}

/// Whether `items` begins with `start`.
pub fn starts_with(items: &Vec<String>, start: &Vec<String>) -> (yes: bool)
    ensures
        yes == is_prefix(views(start@), views(items@)),
{
    if start.len() > items.len() {
        return false;
    }
    let mut i: usize = 0;
    while i < start.len()
        invariant
            i <= start.len(),
            start.len() <= items.len(),
            views(items@).take(i as int) == views(start@).take(i as int),
        decreases start.len() - i,
    {
        if items[i] != start[i] {
            proof {
                assert(views(items@).take(start@.len() as int)[i as int] == items@[i as int]@);
                assert(views(start@)[i as int] == start@[i as int]@);
            }
            return false;
        }
        proof {
            assert(views(items@).take(i as int + 1) =~= views(items@).take(i as int).push(
                items@[i as int]@,
            ));
            assert(views(start@).take(i as int + 1) =~= views(start@).take(i as int).push(
                start@[i as int]@,
            ));
        }
        i += 1;
    }
    proof {
        assert(views(start@).take(start@.len() as int) =~= views(start@));
    }
    true
}

/// The names from position `from` up to `to`, with a `/` between each two.
pub fn join_range(names: &Vec<String>, from: usize, to: usize) -> (out: String)
    requires
        from <= to <= names.len(),
    ensures
        out@ == join(views(names@).subrange(from as int, to as int)),
{
    let mut out = String::new();
    let mut i: usize = from;
    while i < to
        invariant
            from <= i <= to <= names.len(),
            out@ == join(views(names@).subrange(from as int, i as int)),
        decreases to - i,
    {
        let ghost done = views(names@).subrange(from as int, i as int);
        let ghost next = views(names@).subrange(from as int, i as int + 1);
        proof {
            assert(next.drop_last() =~= done);
            assert(next.last() == names@[i as int]@);
        }
        if i > from {
            push_char(&mut out, '/');
            out.append(names[i].as_str());
            proof {
                assert(out@ =~= join(done) + seq!['/'] + names@[i as int]@);
            }
        } else {
            out.append(names[i].as_str());
            proof {
                assert(out@ =~= names@[i as int]@);
            }
        }
        i += 1;
    }
    out
}

/// Joins two paths: the text of the path reached by following `relative`
/// from `dir`.
pub fn assemble_path(dir: &str, relative: &str) -> (out: String)
    ensures
        out@ == render(assemble(parse(dir@), parse(relative@))),
{
    PathParts::parse(dir).assemble(PathParts::parse(relative)).render()
}

/// The position of the last `.` in `name`, or -1 where it has none.
pub open spec fn last_dot(name: Seq<char>) -> int
    decreases name.len(),
{
    if name.len() == 0 {
        -1
    } else if name.last() == '.' {
        name.len() - 1
    } else {
        last_dot(name.drop_last())
    }
}

/// Whether a file name splits into a stem and an extension: it holds a `.`
/// that is not its first character, and it is not `..`.
pub open spec fn has_extension(name: Seq<char>) -> bool {
    last_dot(name) > 0 && name != seq!['.', '.']
}

/// A file name without its extension: what stands before the last `.`, or
/// the whole name where it has no extension.
pub open spec fn stem_of(name: Seq<char>) -> Seq<char> {
    if has_extension(name) {
        name.take(last_dot(name))
    } else {
        name
    }
}

/// A file name's extension: what follows the last `.`, if the name has one.
pub open spec fn extension_of(name: Seq<char>) -> Option<Seq<char>> {
    if has_extension(name) {
        Some(name.skip(last_dot(name) + 1))
    } else {
        None
    }
}

/// Whether `name` can be the last name of a path to a file: it is not
/// empty, holds no `/`, and is neither `.` nor `..`.
pub open spec fn is_plain_name(name: Seq<char>) -> bool {
    &&& name.len() > 0
    &&& forall|i: int| 0 <= i < name.len() ==> #[trigger] name[i] != '/'
    &&& name != seq!['.']
    &&& name != seq!['.', '.']
}

/// Where a file name's extension begins, if it has one: the position after
/// its last `.`.
fn split_point(chars: &Vec<char>) -> (at: Option<usize>)
    ensures
        at is Some <==> has_extension(chars@),
        at matches Some(k) ==> k == last_dot(chars@) + 1 && k <= chars@.len(),
{
    let mut dot: Option<usize> = None;
    let mut i: usize = 0;
    while i < chars.len()
        invariant
            i <= chars.len(),
            dot is None <==> last_dot(chars@.take(i as int)) == -1,
            dot matches Some(d) ==> d == last_dot(chars@.take(i as int)) && d < i,
        decreases chars.len() - i,
    {
        proof {
            assert(chars@.take(i as int + 1).drop_last() =~= chars@.take(i as int));
        }
        if chars[i] == '.' {
            dot = Some(i);
        }
        i += 1;
    }
    proof {
        assert(chars@.take(chars@.len() as int) =~= chars@);
    }
    let two_dots = chars.len() == 2 && chars[0] == '.' && chars[1] == '.';
    proof {
        if two_dots {
            assert(chars@ =~= seq!['.', '.']);
        }
    }
    match dot {
        Some(d) => if d > 0 && !two_dots {
            Some(d + 1)
        } else {
            None
        },
        None => None,
    }
}

/// A file name without its extension.
pub fn file_stem(name: &str) -> (stem: String)
    ensures
        stem@ == stem_of(name@),
{
    let chars = to_chars(name);
    match split_point(&chars) {
        Some(k) => {
            proof {
                assert(chars@.subrange(0, k as int - 1) =~= chars@.take(k as int - 1));
            }
            from_chars(&chars, 0, k - 1)
        },
        None => {
            proof {
                assert(chars@.subrange(0, chars@.len() as int) =~= chars@);
            }
            from_chars(&chars, 0, chars.len())
        },
    }
}

/// A file name's extension, if it has one.
pub fn extension(name: &str) -> (ext: Option<String>)
    ensures
        ext is Some <==> extension_of(name@) is Some,
        ext matches Some(e) ==> extension_of(name@) == Some(e@),
{
    let chars = to_chars(name);
    match split_point(&chars) {
        Some(k) => {
            proof {
                assert(chars@.subrange(k as int, chars@.len() as int) =~= chars@.skip(k as int));
            }
            Some(from_chars(&chars, k, chars.len()))
        },
        None => None,
    }
}

/// Whether `name` can be the last name of a path to a file.
pub fn is_plain_file_name(name: &str) -> (yes: bool)
    ensures
        yes == is_plain_name(name@),
{
    let chars = to_chars(name);
    if chars.len() == 0 {
        return false;
    }
    if chars.len() == 1 && chars[0] == '.' {
        proof {
            assert(chars@ =~= seq!['.']);
        }
        return false;
    }
    if chars.len() == 2 && chars[0] == '.' && chars[1] == '.' {
        proof {
            assert(chars@ =~= seq!['.', '.']);
        }
        return false;
    }
    let mut i: usize = 0;
    while i < chars.len()
        invariant
            i <= chars.len(),
            chars@ == name@,
            forall|j: int| 0 <= j < i ==> #[trigger] chars@[j] != '/',
        decreases chars.len() - i,
    {
        if chars[i] == '/' {
            proof {
                assert(name@[i as int] == '/');
            }
            return false;
        }
        i += 1;
    }
    true
}

/// Whether a text holds no separator.
pub open spec fn has_no_separator(s: Seq<char>) -> bool {
    forall|j: int| 0 <= j < s.len() ==> #[trigger] s[j] != '/'
}

/// Whether each of the names is a name and holds no separator.
pub open spec fn are_names(names: Seq<Seq<char>>) -> bool {
    forall|i: int|
        0 <= i < names.len() ==> is_name(#[trigger] names[i]) && has_no_separator(names[i])
}

/// The pieces of two texts with a separator between them are the pieces
/// of the first followed by the pieces of the second.
pub proof fn lemma_pieces_of_concat(a: Seq<char>, b: Seq<char>)
    ensures
        pieces(a + seq!['/'] + b) == pieces(a) + pieces(b),
        pieces(a).len() >= 1,
        pieces(b).len() >= 1,
    decreases b.len(),
{
    let whole = a + seq!['/'] + b;
    lemma_pieces_exist(a);
    lemma_pieces_exist(b);
    if b.len() == 0 {
        assert(whole.drop_last() =~= a);
        assert(pieces(b) =~= seq![Seq::<char>::empty()]);
        assert(pieces(whole) =~= pieces(a) + pieces(b));
    } else {
        let front = b.drop_last();
        lemma_pieces_of_concat(a, front);
        assert(whole.drop_last() =~= a + seq!['/'] + front);
        assert(whole.last() == b.last());
        let prev = pieces(a) + pieces(front);
        assert(pieces(whole.drop_last()) == prev);
        if b.last() == '/' {
            assert(pieces(whole) =~= pieces(a) + pieces(b));
        } else {
            assert(prev.last() == pieces(front).last());
            assert(prev.drop_last() =~= pieces(a) + pieces(front).drop_last());
            assert(pieces(whole) =~= pieces(a) + pieces(b));
        }
    }
}

/// A text has at least one piece.
pub proof fn lemma_pieces_exist(s: Seq<char>)
    ensures
        pieces(s).len() >= 1,
    decreases s.len(),
{
    if s.len() > 0 {
        lemma_pieces_exist(s.drop_last());
    }
}

/// A text without a separator is its own single piece.
pub proof fn lemma_pieces_of_name(name: Seq<char>)
    requires
        has_no_separator(name),
    ensures
        pieces(name) == seq![name],
    decreases name.len(),
{
    if name.len() == 0 {
        assert(name =~= Seq::<char>::empty());
    } else {
        let front = name.drop_last();
        assert(has_no_separator(front)) by {
            assert forall|j: int| 0 <= j < front.len() implies #[trigger] front[j] != '/' by {
                assert(name[j] != '/');
            }
        }
        lemma_pieces_of_name(front);
        assert(name[name.len() - 1] != '/');
        assert(front.push(name.last()) =~= name);
        let before = pieces(front);
        assert(before.last() == front);
        assert(before.drop_last() =~= Seq::<Seq<char>>::empty());
        assert(pieces(name) == before.drop_last().push(before.last().push(name.last())));
        assert(pieces(name) =~= seq![name]);
    }
}

/// The names among two runs of pieces are the names of the first followed
/// by the names of the second.
pub proof fn lemma_kept_of_concat(xs: Seq<Seq<char>>, ys: Seq<Seq<char>>)
    ensures
        kept(xs + ys) == kept(xs) + kept(ys),
    decreases ys.len(),
{
    if ys.len() == 0 {
        assert(xs + ys =~= xs);
        assert(kept(xs) + kept(ys) =~= kept(xs));
    } else {
        lemma_kept_of_concat(xs, ys.drop_last());
        assert((xs + ys).drop_last() =~= xs + ys.drop_last());
        assert((xs + ys).last() == ys.last());
        assert(kept(xs + ys) =~= kept(xs) + kept(ys));
    }
}

/// Pieces that are all names are all kept.
pub proof fn lemma_kept_of_names(names: Seq<Seq<char>>)
    requires
        are_names(names),
    ensures
        kept(names) == names,
    decreases names.len(),
{
    if names.len() == 0 {
        assert(kept(names) =~= names);
    } else {
        assert(are_names(names.drop_last())) by {
            assert forall|i: int| 0 <= i < names.drop_last().len() implies is_name(
                #[trigger] names.drop_last()[i],
            ) && has_no_separator(names.drop_last()[i]) by {
                assert(names.drop_last()[i] == names[i]);
            }
        }
        lemma_kept_of_names(names.drop_last());
        assert(is_name(names[names.len() - 1]));
        assert(kept(names) =~= names);
    }
}

/// The pieces of `first` followed by names, all joined, are the pieces of
/// `first` followed by the names.
pub proof fn lemma_pieces_of_joined(first: Seq<char>, names: Seq<Seq<char>>)
    requires
        are_names(names),
    ensures
        pieces(join(seq![first] + names)) == pieces(first) + names,
    decreases names.len(),
{
    let all = seq![first] + names;
    if names.len() == 0 {
        assert(all =~= seq![first]);
        assert(join(all) == first);
        assert(pieces(first) + names =~= pieces(first));
    } else {
        let front = names.drop_last();
        assert(are_names(front)) by {
            assert forall|i: int| 0 <= i < front.len() implies is_name(#[trigger] front[i])
                && has_no_separator(front[i]) by {
                assert(front[i] == names[i]);
            }
        }
        lemma_pieces_of_joined(first, front);
        assert(all.drop_last() =~= seq![first] + front);
        assert(all.last() == names.last());
        assert(join(all) == join(all.drop_last()) + seq!['/'] + names.last());
        lemma_pieces_of_concat(join(all.drop_last()), names.last());
        assert(is_name(names[names.len() - 1]) && has_no_separator(names[names.len() - 1]));
        lemma_pieces_of_name(names.last());
        assert(pieces(first) + front + seq![names.last()] =~= pieces(first) + names);
    }
}

/// Names joined by separators are read back as a path of just these names.
pub proof fn lemma_parse_of_joined_names(names: Seq<Seq<char>>)
    requires
        are_names(names),
    ensures
        parse(join(names)) == (PathView { root: false, cur_dir: false, names }),
{
    if names.len() == 0 {
        assert(join(names) =~= Seq::<char>::empty());
        assert(pieces(join(names)) =~= seq![Seq::<char>::empty()]);
        assert(kept(pieces(join(names)).drop_last()) =~= Seq::<Seq<char>>::empty());
        assert(kept(pieces(join(names))) =~= names);
        assert(pieces(join(names))[0] != seq!['.']);
    } else {
        let first = names[0];
        let rest = names.skip(1);
        assert(seq![first] + rest =~= names);
        assert(are_names(rest)) by {
            assert forall|i: int| 0 <= i < rest.len() implies is_name(#[trigger] rest[i])
                && has_no_separator(rest[i]) by {
                assert(rest[i] == names[i + 1]);
            }
        }
        lemma_pieces_of_joined(first, rest);
        assert(is_name(names[0]) && has_no_separator(names[0]));
        lemma_pieces_of_name(first);
        assert(pieces(first) + rest =~= names);
        lemma_kept_of_names(names);
    }
}

/// The names of a parsed path are names and hold no separator.
pub proof fn lemma_parsed_names(s: Seq<char>)
    ensures
        are_names(parse(s).names),
{
    lemma_pieces_without_separator(s);
    lemma_kept_come_from_pieces(pieces(s));
    let names = parse(s).names;
    assert forall|i: int| 0 <= i < names.len() implies is_name(#[trigger] names[i])
        && has_no_separator(names[i]) by {
        let k = choose|k: int| 0 <= k < pieces(s).len() && pieces(s)[k] == names[i];
        assert(has_no_separator(pieces(s)[k]));
    }
}

/// No piece of a text holds a separator.
pub proof fn lemma_pieces_without_separator(s: Seq<char>)
    ensures
        forall|i: int| 0 <= i < pieces(s).len() ==> has_no_separator(#[trigger] pieces(s)[i]),
    decreases s.len(),
{
    if s.len() > 0 {
        lemma_pieces_without_separator(s.drop_last());
        lemma_pieces_exist(s.drop_last());
        let before = pieces(s.drop_last());
        assert forall|i: int| 0 <= i < pieces(s).len() implies has_no_separator(
            #[trigger] pieces(s)[i],
        ) by {
            if i < before.len() - 1 {
                assert(pieces(s)[i] == before[i]);
            } else if s.last() == '/' {
                if i == before.len() - 1 {
                    assert(pieces(s)[i] == before[i]);
                }
            } else {
                assert(has_no_separator(before[before.len() - 1]));
                assert(pieces(s)[i] == before.last().push(s.last()));
            }
        }
    }
}

/// Each kept piece is a name, and is one of the pieces.
pub proof fn lemma_kept_come_from_pieces(ps: Seq<Seq<char>>)
    ensures
        forall|i: int|
            0 <= i < kept(ps).len() ==> is_name(#[trigger] kept(ps)[i]) && exists|k: int|
                0 <= k < ps.len() && ps[k] == kept(ps)[i],
    decreases ps.len(),
{
    if ps.len() > 0 {
        lemma_kept_come_from_pieces(ps.drop_last());
        assert forall|i: int| 0 <= i < kept(ps).len() implies is_name(#[trigger] kept(ps)[i])
            && exists|k: int| 0 <= k < ps.len() && ps[k] == kept(ps)[i] by {
            if is_name(ps.last()) && i == kept(ps).len() - 1 {
                assert(ps[ps.len() - 1] == kept(ps)[i]);
            } else {
                let k = choose|k: int|
                    0 <= k < ps.drop_last().len() && ps.drop_last()[k] == kept(ps.drop_last())[i];
                assert(ps[k] == kept(ps)[i]);
            }
        }
    }
}

} // verus!
