//! The client's side of the pipeline: how a file gets to the server, and
//! what the client does on each receipt.

pub mod watch;

use crate::paths::{assemble, assemble_path, parse, render};
use crate::protocol::{FileSpec, FileSpecView, Receipt, ReceiptView};
use crate::server::processing::{byte_views, filled};
use crate::substitute::{replace_os_strings, replacement_views, Replacement, ReplacementView};
use crate::text::views;
use vstd::prelude::*;
use vstd::string::StrSliceExecFns;
use vstd::string::StringSliceAdditionalSpecFns;
use vstd::utf8::encode_utf8;

verus! {

/// How the client gets a file to the server.
#[derive(Debug)]
pub enum CopyToServer {
    /// Rename it into the server's incoming directory, on the same
    /// filesystem.
    Move { move_in_same_fs_to: String },
    /// Copy it into the server's incoming directory.
    Copy { destination: String },
    /// Run a program with arguments.
    Command(Vec<String>),
}

/// What a `CopyToServer` says.
pub enum CopyToServerView {
    Move { move_in_same_fs_to: Seq<char> },
    Copy { destination: Seq<char> },
    Command(Seq<Seq<char>>),
}

impl View for CopyToServer {
    type V = CopyToServerView;

    open spec fn view(&self) -> CopyToServerView {
        match self {
            CopyToServer::Move { move_in_same_fs_to } => CopyToServerView::Move {
                move_in_same_fs_to: move_in_same_fs_to@,
            },
            CopyToServer::Copy { destination } => CopyToServerView::Copy {
                destination: destination@,
            },
            CopyToServer::Command(items) => CopyToServerView::Command(views(items@)),
        }
    }
}

impl CopyToServer {
    /// A command names a program.
    pub open spec fn wf(&self) -> bool {
        self@ matches CopyToServerView::Command(items) ==> items.len() >= 1
    }

    /// Whether a command names a program.
    pub fn is_valid(&self) -> (yes: bool)
        ensures
            yes == self.wf(),
    {
        match self {
            CopyToServer::Command(items) => items.len() >= 1,
            _ => true,
        }
    }

    /// Whether the file is still at the client once it has got to the
    /// server, so that the client has to remove it: not after a move, but
    /// after a copy and after a command.
    pub fn requires_cleanup(&self) -> (cleanup: bool)
        ensures
            cleanup == !(self@ is Move),
    {
        match self {
            CopyToServer::Move { .. } => false,
            CopyToServer::Copy { .. } => true,
            CopyToServer::Command(_) => true,
        }
    }
}

/// How the client authenticates to the SSH host.
#[derive(Debug)]
pub enum SshAuth {
    NoAuth { user: String },
    Password { user: String },
    Key { user: String, public_key: String },
}

/// The tunnel through which the client reaches the server.
#[derive(Debug)]
pub struct SshTunnelConfig {
    pub ssh_host: String,
    pub ssh_port: u16,
    pub ssh_auth: SshAuth,
    pub keepalive_every_secs: u64,
    pub server_addr_from_host: String,
    pub server_port_from_host: u16,
    pub accepted_ssh_keys: Vec<String>,
}

/// Where the server is.
#[derive(Debug)]
pub enum Server {
    Direct { address: String },
    SshTunnel(SshTunnelConfig),
}

/// What the client watches, and how.
#[derive(Debug)]
pub struct Watching {
    /// The root below which files are looked for.
    pub directory: String,
    /// The extension of the files to announce.
    pub extension: String,
    /// How long a file must have been left alone, in seconds.
    pub last_modif_secs: u64,
    pub refresh_every_secs: u64,
    pub max_concurrent_hashes: usize,
    /// Whether digests cover the whole content.
    pub full_hash: bool,
}

/// The client's settings.
#[derive(Debug)]
pub struct Config {
    pub name: String,
    pub copy_to_server: CopyToServer,
    pub server: Server,
    pub watching: Watching,
}

/// The path at the client of the file that `spec` describes, below the
/// watched directory `directory`.
pub open spec fn watched_path_of(directory: Seq<char>, spec: FileSpecView) -> Seq<char> {
    render(assemble(parse(directory), parse(key_of(spec))))
}

/// The text of the path of a file below the watched root, by which the
/// client remembers that it has announced the file.
pub open spec fn key_of(spec: FileSpecView) -> Seq<char> {
    render(assemble(parse(spec.path), parse(spec.filename)))
}

impl Config {
    /// The path at the client of the file that `spec` describes.
    pub fn watched_path(&self, spec: &FileSpec) -> (path: String)
        ensures
            path@ == watched_path_of(self.watching.directory@, spec@),
    {
        let relative = spec.relative_path();
        assemble_path(self.watching.directory.as_str(), relative.as_str())
    }
}

/// How an attempt to get a file to the server ended.
#[derive(Debug)]
pub enum CopyOutcome {
    /// The file has got to the server.
    Copied,
    /// The command ran and did not succeed; its exit code, if it has one.
    ErrCommand(Option<i32>),
    /// The attempt failed, for the reason given.
    Failed(String),
}

/// What a `CopyOutcome` says.
pub enum CopyOutcomeView {
    Copied,
    ErrCommand(Option<i32>),
    Failed(Seq<char>),
}

impl View for CopyOutcome {
    type V = CopyOutcomeView;

    open spec fn view(&self) -> CopyOutcomeView {
        match self {
            CopyOutcome::Copied => CopyOutcomeView::Copied,
            CopyOutcome::ErrCommand(code) => CopyOutcomeView::ErrCommand(*code),
            CopyOutcome::Failed(error) => CopyOutcomeView::Failed(error@),
        }
    }
}

impl CopyOutcome {
    /// The outcome of a command, from how it ended: with an exit code, or
    /// without one, or not at all.  Only the exit code 0 is a success.
    pub fn from_exit(value: Result<Option<i32>, String>) -> (outcome: CopyOutcome)
        ensures
            outcome@ == match value {
                Ok(Some(0)) => CopyOutcomeView::Copied,
                Ok(code) => CopyOutcomeView::ErrCommand(code),
                Err(error) => CopyOutcomeView::Failed(error@),
            },
    {
        match value {
            Ok(Some(0)) => CopyOutcome::Copied,
            Ok(code) => CopyOutcome::ErrCommand(code),
            Err(error) => CopyOutcome::Failed(error),
        }
    }

    /// The outcome of a rename or a copy.
    pub fn from_io(value: Result<(), String>) -> (outcome: CopyOutcome)
        ensures
            outcome@ == match value {
                Ok(_) => CopyOutcomeView::Copied,
                Err(error) => CopyOutcomeView::Failed(error@),
            },
    {
        match value {
            Ok(_) => CopyOutcome::Copied,
            Err(error) => CopyOutcome::Failed(error),
        }
    }

    /// Whether the client announces the file again: it does when the file
    /// has got to the server, and not otherwise.
    pub fn announce_again(&self) -> (yes: bool)
        ensures
            yes == (self@ is Copied),
    {
        match self {
            CopyOutcome::Copied => true,
            _ => false,
        }
    }
}

/// What getting a file to the server comes to.
#[derive(Debug)]
pub enum CopyPlan {
    Rename { from: String, to: String },
    CopyFile { from: String, to: String },
    /// Run the program with the arguments; it succeeds if it exits with 0.
    Spawn { program: String, args: Vec<Vec<u8>> },
}

/// What a `CopyPlan` says.
pub enum CopyPlanView {
    Rename { from: Seq<char>, to: Seq<char> },
    CopyFile { from: Seq<char>, to: Seq<char> },
    Spawn { program: Seq<char>, args: Seq<Seq<u8>> },
}

impl View for CopyPlan {
    type V = CopyPlanView;

    open spec fn view(&self) -> CopyPlanView {
        match self {
            CopyPlan::Rename { from, to } => CopyPlanView::Rename { from: from@, to: to@ },
            CopyPlan::CopyFile { from, to } => CopyPlanView::CopyFile { from: from@, to: to@ },
            CopyPlan::Spawn { program, args } => CopyPlanView::Spawn {
                program: program@,
                args: byte_views(args@),
            },
        }
    }
}

/// The placeholders of a copy command and what takes their place: the
/// path on the server, relative to its incoming directory, and the path of
/// the file at the client.
pub open spec fn copy_replacements(server_rel_path: Seq<char>, from: Seq<char>) -> Seq<
    ReplacementView,
> {
    seq![
        ReplacementView {
            token: "{server_filename}"@,
            value: encode_utf8(render(parse(server_rel_path))),
        },
        ReplacementView { token: "{client_path}"@, value: encode_utf8(from) },
    ]
}

/// What getting the file at `from` to `server_rel_path` on the server comes
/// to under the method `method`.
pub open spec fn copy_plan_of(method: CopyToServerView, from: Seq<char>, server_rel_path: Seq<char>)
    -> CopyPlanView {
    match method {
        CopyToServerView::Move { move_in_same_fs_to } => CopyPlanView::Rename {
            from,
            to: render(assemble(parse(move_in_same_fs_to), parse(server_rel_path))),
        },
        CopyToServerView::Copy { destination } => CopyPlanView::CopyFile {
            from,
            to: render(assemble(parse(destination), parse(server_rel_path))),
        },
        CopyToServerView::Command(items) => CopyPlanView::Spawn {
            program: items[0],
            args: Seq::new(
                (items.len() - 1) as nat,
                |i: int| filled(items[i + 1], copy_replacements(server_rel_path, from)),
            ),
        },
    }
}

/// Plans how the file that `spec` describes gets to `server_rel_path` below
/// the server's incoming directory, by the configured method.
pub fn send_file_to_server(spec: &FileSpec, server_rel_path: &str, conf: &Config) -> (plan:
    CopyPlan)
    requires
        conf.copy_to_server.wf(),
    ensures
        plan@ == copy_plan_of(
            conf.copy_to_server@,
            watched_path_of(conf.watching.directory@, spec@),
            server_rel_path@,
        ),
{
    let from = conf.watched_path(spec);
    match &conf.copy_to_server {
        CopyToServer::Move { move_in_same_fs_to } => {
            let to = assemble_path(move_in_same_fs_to.as_str(), server_rel_path);
            CopyPlan::Rename { from, to }
        },
        CopyToServer::Copy { destination } => {
            let to = assemble_path(destination.as_str(), server_rel_path);
            CopyPlan::CopyFile { from, to }
        },
        CopyToServer::Command(items) => {
            let rel_path = assemble_path(server_rel_path, "");
            proof {
                reveal_strlit("");
                assert(crate::paths::pieces(""@) =~= seq![Seq::<char>::empty()]);
                assert(crate::paths::kept(crate::paths::pieces(""@).drop_last()) =~= Seq::<
                    Seq<char>,
                >::empty());
                assert(crate::paths::kept(crate::paths::pieces(""@)) =~= Seq::<Seq<char>>::empty());
                assert(parse(server_rel_path@).names + Seq::<Seq<char>>::empty() =~= parse(
                    server_rel_path@,
                ).names);
                assert(rel_path@ == render(parse(server_rel_path@)));
            }
            let mut reps: Vec<Replacement> = Vec::new();
            reps.push(
                Replacement {
                    token: "{server_filename}".to_owned(),
                    value: rel_path.as_str().as_bytes_vec(),
                },
            );
            reps.push(
                Replacement { token: "{client_path}".to_owned(), value: from.as_str().as_bytes_vec() },
            );
            proof {
                assert(replacement_views(reps@) =~= copy_replacements(server_rel_path@, from@));
            }
            let mut args: Vec<Vec<u8>> = Vec::new();
            let mut i: usize = 1;
            while i < items.len()
                invariant
                    1 <= i <= items.len(),
                    args@.len() == i - 1,
                    forall|j: int|
                        0 <= j < args@.len() ==> (#[trigger] args@[j])@ == filled(
                            items@[j + 1]@,
                            replacement_views(reps@),
                        ),
                decreases items.len() - i,
            {
                args.push(replace_os_strings(items[i].as_str(), &reps));
                i += 1;
            }
            let plan = CopyPlan::Spawn { program: items[0].clone(), args };
            proof {
                assert(plan@->Spawn_args =~= copy_plan_of(
                    conf.copy_to_server@,
                    from@,
                    server_rel_path@,
                )->Spawn_args);
            }
            plan
        },
    }
}

/// What the client does first on a receipt.
#[derive(Debug)]
pub enum ClientAction {
    /// Get the file to the server as planned; if that succeeds, announce
    /// `spec` again.
    Deliver { plan: CopyPlan, spec: FileSpec },
    /// Remove the file at `path`; if that succeeds, forget `key`.
    RemoveSource { path: String, key: String },
    /// Forget `key`, so that a later scan may announce the file again.
    Forget { key: String },
}

/// What a `ClientAction` says.
pub enum ClientActionView {
    Deliver { plan: CopyPlanView, spec: FileSpecView },
    RemoveSource { path: Seq<char>, key: Seq<char> },
    Forget { key: Seq<char> },
}

impl View for ClientAction {
    type V = ClientActionView;

    open spec fn view(&self) -> ClientActionView {
        match self {
            ClientAction::Deliver { plan, spec } => ClientActionView::Deliver {
                plan: plan@,
                spec: spec@,
            },
            ClientAction::RemoveSource { path, key } => ClientActionView::RemoveSource {
                path: path@,
                key: key@,
            },
            ClientAction::Forget { key } => ClientActionView::Forget { key: key@ },
        }
    }
}

/// The key that the client forgets once an action has been carried out,
/// with success or without: none after a delivery, the key of a removal
/// that succeeded, and the key that was to be forgotten.
pub open spec fn forgotten_after(action: ClientActionView, succeeded: bool) -> Option<Seq<char>> {
    match action {
        ClientActionView::Deliver { .. } => None,
        ClientActionView::RemoveSource { path, key } => if succeeded {
            Some(key)
        } else {
            None
        },
        ClientActionView::Forget { key } => Some(key),
    }
}

impl ClientAction {
    /// The key to forget once the action has been carried out, with
    /// success or without.  A file that could not be removed stays in
    /// flight.
    pub fn key_to_forget(&self, succeeded: bool) -> (key: Option<&str>)
        ensures
            key is Some <==> forgotten_after(self@, succeeded) is Some,
            key matches Some(k) ==> forgotten_after(self@, succeeded) == Some(k@),
    {
        match self {
            ClientAction::Deliver { .. } => None,
            ClientAction::RemoveSource { path, key } => if succeeded {
                Some(key.as_str())
            } else {
                None
            },
            ClientAction::Forget { key } => Some(key.as_str()),
        }
    }
}

/// The client forgets a file only on `Received` and on `DifferentHash`, and
/// then under the key of the file that the receipt is about; on `Received`
/// it does so only once the file is gone from the watched directory, where
/// the copy method leaves it there.
pub proof fn lemma_only_final_receipts_forget(
    receipt: ReceiptView,
    directory: Seq<char>,
    method: CopyToServerView,
    succeeded: bool,
)
    ensures
        forgotten_after(action_on(receipt, directory, method), succeeded) matches Some(key) ==> {
            &&& receipt is Received || receipt is DifferentHash
            &&& key == key_of(receipt.spec())
            &&& receipt is Received && !(method is Move) ==> succeeded
        },
        receipt is DifferentHash ==> forgotten_after(
            action_on(receipt, directory, method),
            succeeded,
        ) is Some,
        receipt is Received && succeeded ==> forgotten_after(
            action_on(receipt, directory, method),
            succeeded,
        ) is Some,
{
}

/// What the client does first on `receipt`, watching `directory` and
/// getting files to the server by `method`: on `Expecting` and on `Error`
/// it delivers the file; on `Received` it removes the file where the
/// method leaves it behind, and forgets it where not; on `DifferentHash`
/// it forgets the file.
pub open spec fn action_on(receipt: ReceiptView, directory: Seq<char>, method: CopyToServerView)
    -> ClientActionView {
    match receipt {
        ReceiptView::Expecting { spec, server_rel_path } => ClientActionView::Deliver {
            plan: copy_plan_of(method, watched_path_of(directory, spec), server_rel_path),
            spec,
        },
        ReceiptView::Error { spec, server_rel_path, error } => ClientActionView::Deliver {
            plan: copy_plan_of(method, watched_path_of(directory, spec), server_rel_path),
            spec,
        },
        ReceiptView::Received(spec) => if method is Move {
            ClientActionView::Forget { key: key_of(spec) }
        } else {
            ClientActionView::RemoveSource {
                path: watched_path_of(directory, spec),
                key: key_of(spec),
            }
        },
        ReceiptView::DifferentHash(spec) => ClientActionView::Forget { key: key_of(spec) },
    }
}

/// Says what the client does first on a receipt of the server.
pub fn listen_to_server(receipt: &Receipt, conf: &Config) -> (action: ClientAction)
    requires
        conf.copy_to_server.wf(),
    ensures
        action@ == action_on(receipt@, conf.watching.directory@, conf.copy_to_server@),
{
    match receipt {
        Receipt::Expecting { spec, server_rel_path } => ClientAction::Deliver {
            plan: send_file_to_server(spec, server_rel_path.as_str(), conf),
            spec: spec.clone(),
        },
        Receipt::Received(spec) => {
            if conf.copy_to_server.requires_cleanup() {
                ClientAction::RemoveSource {
                    path: conf.watched_path(spec),
                    key: spec.relative_path(),
                }
            } else {
                ClientAction::Forget { key: spec.relative_path() }
            }
        },
        Receipt::DifferentHash(spec) => ClientAction::Forget { key: spec.relative_path() },
        Receipt::Error { spec, server_rel_path, error } => ClientAction::Deliver {
            plan: send_file_to_server(spec, server_rel_path.as_str(), conf),
            spec: spec.clone(),
        },
    }
}

} // verus!
