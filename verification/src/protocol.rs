//! The messages that a client and the server exchange.
//!
//! A client describes a file with a `FileSpec`; the server answers each one
//! with a `Receipt`.

use crate::hashing::{digest_of, is_sha256_hex, DigestView, FileDigest};
use crate::paths::{
    assemble, assemble_path, components, file_stem, is_name, is_plain_file_name, is_plain_name,
    is_prefix, join, join_range, parse, pieces, render, kept, starts_with, stem_of, PathParts,
};
use crate::text::{to_chars, views};
use vstd::prelude::*;

verus! {

/// What a `FileSpec` says.
pub struct FileSpecView {
    pub client: Seq<char>,
    pub path: Seq<char>,
    pub filename: Seq<char>,
    pub digest: DigestView,
}

/// A client's description of one file: who has it, the directory it lies in
/// below the watched root (names joined by `/`, possibly none), its name and
/// its digest.
#[derive(Debug)]
pub struct FileSpec {
    pub client: String,
    pub path: String,
    pub filename: String,
    pub sha256_digest: FileDigest,
}

impl View for FileSpec {
    type V = FileSpecView;

    open spec fn view(&self) -> FileSpecView {
        FileSpecView {
            client: self.client@,
            path: self.path@,
            filename: self.filename@,
            digest: self.sha256_digest@,
        }
    }
}

impl Clone for FileSpec {
    fn clone(&self) -> (res: Self)
        ensures
            res == *self,
    {
        FileSpec {
            client: self.client.clone(),
            path: self.path.clone(),
            filename: self.filename.clone(),
            sha256_digest: self.sha256_digest.clone(),
        }
    }
}

impl FileSpecView {
    /// The digest has the shape of a SHA-256 value and the file name can end
    /// a path.
    pub open spec fn wf(self) -> bool {
        is_sha256_hex(self.digest.hex) && is_plain_name(self.filename)
    }
}

/// Whether `client_path` names a file below `root`: it ends in a name other
/// than `..`, and what stands before that name begins with `root`.
pub open spec fn lies_under(root: Seq<char>, client_path: Seq<char>) -> bool {
    let p = parse(client_path);
    &&& p.names.len() >= 1
    &&& p.names.last() != seq!['.', '.']
    &&& is_prefix(components(parse(root)), components(p).drop_last())
}

/// The directory of `client_path` below `root`, its names joined by `/`.
pub open spec fn subdir_below(root: Seq<char>, client_path: Seq<char>) -> Seq<char> {
    join(components(parse(client_path)).drop_last().skip(components(parse(root)).len() as int))
}

/// The path of the file at `client_path` below `root`: what is left of
/// `client_path` once the names of `root` are taken from its front.
pub open spec fn path_below(root: Seq<char>, client_path: Seq<char>) -> crate::paths::PathView {
    let r = parse(root);
    let p = parse(client_path);
    let whole = components(r).len() == 0;
    crate::paths::PathView {
        root: p.root && whole,
        cur_dir: p.cur_dir && whole,
        names: p.names.skip(r.names.len() as int),
    }
}

/// The text of the path of the file at `client_path` below `root`, by
/// which a client remembers that it has announced the file.
pub open spec fn key_below(root: Seq<char>, client_path: Seq<char>) -> Seq<char> {
    render(path_below(root, client_path))
}

/// The text of the path of the file at `client_path` below `root`, if
/// `client_path` names a file below `root`.
pub fn relative_key(root: &str, client_path: &str) -> (key: Option<String>)
    ensures
        key is Some <==> lies_under(root@, client_path@),
        key matches Some(k) ==> k@ == key_below(root@, client_path@),
{
    if !FileSpec::lies_under(root, client_path) {
        return None;
    }
    let r = PathParts::parse(root);
    let p = PathParts::parse(client_path);
    let whole = !r.root && !r.cur_dir && r.names.len() == 0;
    let skip = r.names.len();
    proof {
        assert(components(r@).len() <= components(p@).len() - 1);
        assert(components(p@).len() <= p@.names.len() + 1);
        assert(views(r.names@).len() == r.names@.len());
        assert(views(p.names@).len() == p.names@.len());
    }
    let mut names = p.names;
    let rest = names.split_off(skip);
    let out = PathParts { root: p.root && whole, cur_dir: p.cur_dir && whole, names: rest };
    proof {
        assert(views(rest@) =~= parse(client_path@).names.skip(skip as int));
    }
    Some(out.render())
}

/// A name of a parsed path other than `..` can end a path to a file.
pub proof fn lemma_parsed_names_are_plain(s: Seq<char>, k: int)
    requires
        0 <= k < parse(s).names.len(),
        parse(s).names[k] != seq!['.', '.'],
    ensures
        is_plain_name(parse(s).names[k]),
{
    crate::paths::lemma_parsed_names(s);
    let name = parse(s).names[k];
    assert(is_name(name) && crate::paths::has_no_separator(name));
}

impl FileSpec {
    /// The digest has the shape of a SHA-256 value and the file name can end
    /// a path.
    pub open spec fn wf(&self) -> bool {
        self@.wf()
    }

    /// Whether the digest has the shape of a SHA-256 value and the file name
    /// can end a path.
    pub fn is_valid(&self) -> (yes: bool)
        ensures
            yes == self.wf(),
    {
        self.sha256_digest.is_valid() && is_plain_file_name(self.filename.as_str())
    }

    /// Whether `client_path` names a file below `root`.
    pub fn lies_under(root: &str, client_path: &str) -> (yes: bool)
        ensures
            yes == lies_under(root@, client_path@),
    {
        let parts = PathParts::parse(client_path);
        if parts.names.len() == 0 {
            return false;
        }
        let last = to_chars(parts.names[parts.names.len() - 1].as_str());
        if last.len() == 2 && last[0] == '.' && last[1] == '.' {
            proof {
                assert(last@ =~= seq!['.', '.']);
                assert(parts@.names.last() == last@);
            }
            return false;
        }
        proof {
            assert(parts@.names.last() == last@);
        }
        let mut comps = parts.components();
        let _ = comps.pop();
        let root_comps = PathParts::parse(root).components();
        proof {
            assert(views(comps@) =~= components(parse(client_path@)).drop_last());
        }
        starts_with(&comps, &root_comps)
    }

    /// Describes the file at `client_path`, found below the watched `root`,
    /// from what was read of it: its size and its content, of which a
    /// shallow digest needs no more than the first `SHALLOW_PREFIX_LEN`
    /// bytes.  The digest is taken under the name that the description
    /// gives to the file.
    pub fn new(
        client: &str,
        root: &str,
        client_path: &str,
        full_hash: bool,
        size: u64,
        content: &[u8],
    ) -> (spec: Self)
        requires
            lies_under(root@, client_path@),
        ensures
            spec@ == (FileSpecView {
                client: client@,
                path: subdir_below(root@, client_path@),
                filename: parse(client_path@).names.last(),
                digest: digest_of(parse(client_path@).names.last(), size, content@, full_hash),
            }),
            spec.wf(),
    {
        let parts = PathParts::parse(client_path);
        let mut comps = parts.components();
        let root_comps = PathParts::parse(root).components();
        let ghost all = views(comps@);
        let ghost whole = comps@;
        let popped = comps.pop();
        let filename = popped.unwrap();
        proof {
            assert(views(comps@) =~= all.drop_last());
            assert(filename@ == views(whole).last());
            assert(all.last() == parse(client_path@).names.last());
            lemma_parsed_names_are_plain(client_path@, parse(client_path@).names.len() - 1);
        }
        let path = join_range(&comps, root_comps.len(), comps.len());
        proof {
            assert(views(comps@).subrange(root_comps@.len() as int, comps@.len() as int)
                =~= all.drop_last().skip(root_comps@.len() as int));
        }
        let sha256_digest = FileDigest::new(filename.as_str(), size, content, full_hash);
        FileSpec { client: client.to_owned(), path, filename, sha256_digest }
    }

    /// The hexadecimal text of the digest, by which the server knows the
    /// file.
    pub fn hash(&self) -> (hex: &str)
        ensures
            hex@ == self@.digest.hex,
    {
        self.sha256_digest.hash()
    }

    /// The directory of the file below the watched root.
    pub fn relative_directory(&self) -> (dir: String)
        ensures
            dir@ == render(parse(self@.path)),
    {
        let dir = assemble_path(self.path.as_str(), "");
        proof {
            reveal_strlit("");
            assert(pieces(""@) =~= seq![Seq::<char>::empty()]);
            assert(kept(pieces(""@).drop_last()) =~= Seq::<Seq<char>>::empty());
            assert(kept(pieces(""@)) =~= Seq::<Seq<char>>::empty());
            assert(parse(self@.path).names + Seq::<Seq<char>>::empty() =~= parse(self@.path).names);
        }
        dir
    }

    /// The path of the file below the watched root.
    pub fn relative_path(&self) -> (path: String)
        ensures
            path@ == render(assemble(parse(self@.path), parse(self@.filename))),
    {
        assemble_path(self.path.as_str(), self.filename.as_str())
    }

    /// The file's name without its extension.
    pub fn file_stem(&self) -> (stem: String)
        ensures
            stem@ == stem_of(self@.filename),
    {
        file_stem(self.filename.as_str())
    }
}

/// What a `Receipt` says.
pub enum ReceiptView {
    Expecting { spec: FileSpecView, server_rel_path: Seq<char> },
    Received(FileSpecView),
    DifferentHash(FileSpecView),
    Error { spec: FileSpecView, server_rel_path: Seq<char>, error: Seq<char> },
}

/// The server's answer to a `FileSpec`.
#[derive(Debug)]
pub enum Receipt {
    /// The digest was unknown: deliver the bytes under `server_rel_path`,
    /// below the server's incoming directory, and send the same spec again.
    Expecting { spec: FileSpec, server_rel_path: String },
    /// The server has this digest: the local copy may go.
    Received(FileSpec),
    /// The file at the expected place has another digest: forget the path,
    /// so that a later scan may try again.
    DifferentHash(FileSpec),
    /// The file at the expected place could not be read: deliver again.
    Error { spec: FileSpec, server_rel_path: String, error: String },
}

impl View for Receipt {
    type V = ReceiptView;

    open spec fn view(&self) -> ReceiptView {
        match self {
            Receipt::Expecting { spec, server_rel_path } => ReceiptView::Expecting {
                spec: spec@,
                server_rel_path: server_rel_path@,
            },
            Receipt::Received(spec) => ReceiptView::Received(spec@),
            Receipt::DifferentHash(spec) => ReceiptView::DifferentHash(spec@),
            Receipt::Error { spec, server_rel_path, error } => ReceiptView::Error {
                spec: spec@,
                server_rel_path: server_rel_path@,
                error: error@,
            },
        }
    }
}

impl ReceiptView {
    /// The spec that the receipt answers.
    pub open spec fn spec(self) -> FileSpecView {
        match self {
            ReceiptView::Expecting { spec, .. } => spec,
            ReceiptView::Received(spec) => spec,
            ReceiptView::DifferentHash(spec) => spec,
            ReceiptView::Error { spec, .. } => spec,
        }
    }
}

impl Receipt {
    /// Whether the server goes on to process the file after this reply: it
    /// does after `Received`, and after no other.
    pub fn continue_processing(&self) -> (go_on: bool)
        ensures
            go_on == (self@ is Received),
    {
        match self {
            Receipt::Received(_) => true,
            _ => false,
        }
    }

    /// The spec that the receipt answers.
    pub fn spec(&self) -> (spec: &FileSpec)
        ensures
            spec@ == self@.spec(),
    {
        match self {
            Receipt::Expecting { spec, .. } => spec,
            Receipt::Received(spec) => spec,
            Receipt::DifferentHash(spec) => spec,
            Receipt::Error { spec, .. } => spec,
        }
    }
}

} // verus!
