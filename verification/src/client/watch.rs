//! Finding the files to announce, and remembering which were announced.

use crate::client::{key_of, Watching};
use crate::hashing::DigestView;
use crate::paths::{
    are_names, assemble, components, extension, extension_of, has_no_separator, is_name, join,
    kept, lemma_kept_of_concat, lemma_kept_of_names, lemma_parse_of_joined_names,
    lemma_parsed_names, lemma_pieces_of_joined, parse, pieces, start_marker, PathParts,
};
use crate::protocol::{
    key_below, lies_under, path_below, relative_key, subdir_below, FileSpecView,
};
use crate::text::same_text;
use vstd::hash_set::StringHashSet;
use vstd::prelude::*;

verus! {

/// The files that the client has announced and of which it has not heard
/// the end, each by its path below the watched root.
pub struct InFlight {
    pub paths: StringHashSet,
}

impl View for InFlight {
    type V = Set<Seq<char>>;

    open spec fn view(&self) -> Set<Seq<char>> {
        self.paths@
    }
}

impl InFlight {
    /// No file is in flight.
    pub fn new() -> (db: InFlight)
        ensures
            db@ == Set::<Seq<char>>::empty(),
    {
        InFlight { paths: StringHashSet::new() }
    }

    /// Whether the file at `path` is in flight.
    pub fn contains(&self, path: &str) -> (found: bool)
        ensures
            found == self@.contains(path@),
    {
        self.paths.contains(path)
    }

    /// Forgets the file at `path`.  Says whether it was in flight.
    pub fn remove(&mut self, path: &str) -> (found: bool)
        ensures
            found == old(self)@.contains(path@),
            final(self)@ == old(self)@.remove(path@),
    {
        self.paths.remove(path)
    }
}

/// Remembers the file at `path` as in flight.  Says whether it was not in
/// flight before.
pub fn insert_path(db: &mut InFlight, path: &str) -> (fresh: bool)
    ensures
        fresh == !old(db)@.contains(path@),
        final(db)@ == old(db)@.insert(path@),
{
    if db.paths.contains(path) {
        proof {
            assert(db@.insert(path@) =~= db@);
        }
        false
    } else {
        db.paths.insert(path.to_owned())
    }
}

/// How long ago a file was last modified.
#[derive(Clone, Copy, Debug, PartialEq, Eq, Structural)]
pub struct Age {
    pub secs: u64,
    pub nanos: u32,
}

/// Whether an age is more than `secs` seconds.
pub open spec fn older_than(age: Age, secs: u64) -> bool {
    age.secs > secs || (age.secs == secs && age.nanos > 0)
}

/// Whether the file at `path` is one to announce: it lies below `root`,
/// has the watched extension, and was last modified more than
/// `last_modif_secs` seconds ago.  A file whose age is unknown is none.
pub open spec fn qualifies(
    root: Seq<char>,
    path: Seq<char>,
    age: Option<Age>,
    extension: Seq<char>,
    last_modif_secs: u64,
) -> bool {
    &&& lies_under(root, path)
    &&& extension_of(parse(path).names.last()) == Some(extension)
    &&& age matches Some(a) && older_than(a, last_modif_secs)
}

/// Whether the file at `path`, found below `root` and last modified `age`
/// ago, is to be announced now: it qualifies and is not in flight.  Such
/// a file is in flight from now on.
pub fn is_new_watched_path(
    root: &str,
    path: &str,
    age: Option<Age>,
    db: &mut InFlight,
    watching: &Watching,
) -> (fresh: bool)
    ensures
        fresh == (qualifies(root@, path@, age, watching.extension@, watching.last_modif_secs)
            && !old(db)@.contains(key_below(root@, path@))),
        final(db)@ == if qualifies(
            root@,
            path@,
            age,
            watching.extension@,
            watching.last_modif_secs,
        ) {
            old(db)@.insert(key_below(root@, path@))
        } else {
            old(db)@
        },
{
    let key = match relative_key(root, path) {
        Some(key) => key,
        None => {
            return false;
        },
    };
    let parts = PathParts::parse(path);
    let name = &parts.names[parts.names.len() - 1];
    let matches = match extension(name.as_str()) {
        Some(ext) => same_text(ext.as_str(), watching.extension.as_str()),
        None => false,
    };
    if !matches {
        return false;
    }
    let old_enough = match age {
        Some(a) => a.secs > watching.last_modif_secs || (a.secs == watching.last_modif_secs
            && a.nanos > 0),
        None => false,
    };
    if !old_enough {
        return false;
    }
    insert_path(db, key.as_str())
}

/// The description that a client makes of a file below the watched root.
pub open spec fn announced(
    client: Seq<char>,
    root: Seq<char>,
    client_path: Seq<char>,
    digest: DigestView,
) -> FileSpecView {
    FileSpecView {
        client,
        path: subdir_below(root, client_path),
        filename: parse(client_path).names.last(),
        digest,
    }
}

/// The key under which the watcher remembers a file that it has announced
/// is the key that the client forgets on a receipt for that file.
pub proof fn lemma_announced_file_is_forgotten_by_its_key(
    client: Seq<char>,
    root: Seq<char>,
    client_path: Seq<char>,
    digest: DigestView,
)
    requires
        lies_under(root, client_path),
    ensures
        key_of(announced(client, root, client_path, digest)) == key_below(root, client_path),
{
    let r = parse(root);
    let p = parse(client_path);
    let cr = components(r);
    let cp = components(p);
    let k = cr.len() as int;
    let rn = r.names.len() as int;
    let f = p.names.last();
    let front = p.names.drop_last();
    lemma_parsed_names(root);
    lemma_parsed_names(client_path);
    assert(is_name(p.names[p.names.len() - 1]) && has_no_separator(p.names[p.names.len() - 1]));
    assert(are_names(seq![f]));
    lemma_parse_of_joined_names(seq![f]);
    assert(join(seq![f]) == f);
    assert(are_names(front)) by {
        assert forall|i: int| 0 <= i < front.len() implies is_name(#[trigger] front[i])
            && has_no_separator(front[i]) by {
            assert(front[i] == p.names[i]);
        }
    }
    assert(cp.drop_last() =~= start_marker(p) + front);
    let rem = cp.drop_last().skip(k);
    if k == 0 && (p.root || p.cur_dir) {
        let m = start_marker(p)[0];
        assert(rem =~= seq![m] + front);
        lemma_pieces_of_joined(m, front);
        if p.root {
            assert(m =~= seq!['/']);
            assert(m.drop_last() =~= Seq::<char>::empty());
            assert(pieces(m.drop_last()) =~= seq![Seq::<char>::empty()]);
            assert(pieces(m) =~= seq![Seq::<char>::empty(), Seq::<char>::empty()]);
            assert(kept(pieces(m).drop_last().drop_last()) =~= Seq::<Seq<char>>::empty());
            assert(kept(pieces(m).drop_last()) =~= Seq::<Seq<char>>::empty());
        } else {
            assert(m =~= seq!['.']);
            assert(m.drop_last() =~= Seq::<char>::empty());
            assert(pieces(m.drop_last()) =~= seq![Seq::<char>::empty()]);
            assert(pieces(m.drop_last()).last().push('.') =~= seq!['.']);
            assert(pieces(m) =~= seq![seq!['.']]);
            assert(kept(pieces(m).drop_last()) =~= Seq::<Seq<char>>::empty());
        }
        assert(kept(pieces(m)) =~= Seq::<Seq<char>>::empty());
        lemma_kept_of_concat(pieces(m), front);
        lemma_kept_of_names(front);
        assert(kept(pieces(m)) + front =~= front);
        let dir = parse(join(rem));
        assert(dir.names == front);
        assert(dir.root == p.root);
        assert(dir.cur_dir == p.cur_dir);
        assert(front + seq![f] =~= p.names);
        assert(p.names.skip(0) =~= p.names);
        assert(assemble(dir, parse(f)) == p);
        assert(path_below(root, client_path) == p);
    } else {
        // what is left below the root are names alone
        if k > 0 {
            assert(cp.drop_last().take(k) == cr);
            assert(cp.drop_last().take(k)[0] == cr[0]);
            assert(cp[0] == cr[0]);
            if r.root || r.cur_dir {
                if !(p.root || p.cur_dir) {
                    assert(cp[0] == p.names[0]);
                    assert(is_name(p.names[0]) && has_no_separator(p.names[0]));
                    if r.root {
                        assert(cr[0] =~= seq!['/']);
                        assert(p.names[0][0] == '/');
                    }
                    assert(false);
                }
            } else {
                if p.root || p.cur_dir {
                    assert(cr[0] == r.names[0]);
                    assert(is_name(r.names[0]) && has_no_separator(r.names[0]));
                    if p.root {
                        assert(cp[0] =~= seq!['/']);
                        assert(r.names[0][0] == '/');
                    }
                    assert(false);
                }
            }
        }
        assert(rem =~= front.skip(rn));
        assert(are_names(rem)) by {
            assert forall|i: int| 0 <= i < rem.len() implies is_name(#[trigger] rem[i])
                && has_no_separator(rem[i]) by {
                assert(rem[i] == front[i + rn]);
            }
        }
        lemma_parse_of_joined_names(rem);
        assert(rem + seq![f] =~= p.names.skip(rn));
        let below = path_below(root, client_path);
        assert(!below.root && !below.cur_dir);
        assert(assemble(parse(join(rem)), parse(f)) == below);
    }
}

/// Once the client has forgotten a file on a receipt, the watcher takes
/// the file for new when it sees it again, as long as it still qualifies.
pub proof fn lemma_forgotten_file_is_new_again(
    in_flight: Set<Seq<char>>,
    client: Seq<char>,
    root: Seq<char>,
    client_path: Seq<char>,
    digest: DigestView,
)
    requires
        lies_under(root, client_path),
    ensures
        !in_flight.remove(key_of(announced(client, root, client_path, digest))).contains(
            key_below(root, client_path),
        ),
{
    lemma_announced_file_is_forgotten_by_its_key(client, root, client_path, digest);
}

} // verus!
