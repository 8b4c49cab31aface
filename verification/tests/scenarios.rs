use pipeline::client::watch::{is_new_watched_path, Age, InFlight};
use pipeline::client::{
    listen_to_server, ClientAction, Config as ClientConfig, CopyPlan, CopyToServer, Server, Watching,
};
use pipeline::server::database::{ProcessStatus, Registry};
use pipeline::server::processing::{InnerProc, Processing, Step};
use pipeline::server::{
    process_file, processing_pipeline, restart_failed_tasks, Concurrency, Config, Event, Permit,
    Pipeline, Request, StatusAfterProcessing,
};
use pipeline::{FileDigest, FileSpec, Receipt};
use std::collections::HashMap;

const HI: &str = "8f434346648f6b96df89dda901c5176b10a6d83961dd3c1ac88b59b2dc327aa4";

struct World {
    registry: Registry,
    files: HashMap<String, Vec<u8>>,
    sent: Vec<Receipt>,
    requests: Vec<Request>,
    runs: usize,
    processing_succeeds: bool,
}

fn world() -> World {
    World {
        registry: Registry::new(),
        files: HashMap::new(),
        sent: Vec::new(),
        requests: Vec::new(),
        runs: 0,
        processing_succeeds: true,
    }
}

fn server_config(command: &str, after: StatusAfterProcessing) -> Config {
    Config {
        address: "127.0.0.1:12345".to_string(),
        incoming_directory: "/incoming".to_string(),
        unix_mode: None,
        processing: Processing(InnerProc::One(Step::ExternalCommand(vec![command.to_string()]))),
        status_after_processing: after,
        retry_tasks_every_secs: 30,
        prune_every_secs: 60,
        concurrency: Concurrency { max_hashes: 2, max_processing: 2 },
    }
}

fn client_config() -> ClientConfig {
    ClientConfig {
        name: "c1".to_string(),
        copy_to_server: CopyToServer::Copy { destination: "/incoming".to_string() },
        server: Server::Direct { address: "127.0.0.1:12345".to_string() },
        watching: Watching {
            directory: "/watched".to_string(),
            extension: "mrc".to_string(),
            last_modif_secs: 0,
            refresh_every_secs: 1,
            max_concurrent_hashes: 1,
            full_hash: true,
        },
    }
}

fn run(mut p: Pipeline, w: &mut World, config: &Config) -> Pipeline {
    let mut command = p.command();
    loop {
        w.requests.push(command.request);
        let event = match command.request {
            Request::CreateBucket => Event::BucketCreated(true),
            Request::Contains | Request::ReadStatus | Request::InsertNew => {
                let event = w.registry.answer(&p, "2026-01-01 00:00:00").unwrap();
                assert!(!matches!(event, Event::RegistryFailed));
                event
            }
            Request::Recompute => {
                assert_eq!(command.permit, Permit::Hash);
                match w.files.get(&p.server_path(config)) {
                    Some(content) => {
                        Event::Digest(FileDigest::with_spec(&p.file, content.len() as u64, content))
                    }
                    None => Event::HashFailed("No such file or directory".to_string()),
                }
            }
            Request::Send => {
                w.sent.push(p.receipt());
                Event::Sent
            }
            Request::SetStatus(_) => {
                assert_eq!(command.permit, Permit::Processing);
                w.registry.answer(&p, "2026-01-01 00:00:01").unwrap()
            }
            Request::Process => {
                assert_eq!(command.permit, Permit::Processing);
                w.runs += 1;
                Event::Processed(w.processing_succeeds)
            }
            Request::Nothing => return p,
        };
        command = p.step(event).expect("the event answers the request");
        assert_eq!(command.delay_secs, 0);
    }
}

fn hi_spec(client: &str, path: &str, filename: &str) -> FileSpec {
    FileSpec {
        client: client.to_string(),
        path: path.to_string(),
        filename: filename.to_string(),
        sha256_digest: FileDigest::new(filename, 2, b"hi", true),
    }
}

fn statuses_set(w: &World) -> Vec<ProcessStatus> {
    w.requests
        .iter()
        .filter_map(|r| match r {
            Request::SetStatus(s) => Some(*s),
            _ => None,
        })
        .collect()
}

fn expect_received(receipt: &Receipt, hash: &str) {
    match receipt {
        Receipt::Received(spec) => assert_eq!(spec.hash(), hash),
        other => panic!("expected Received, got {other:?}"),
    }
}

#[test]
fn fresh_file_single_client() {
    let server = server_config("true", StatusAfterProcessing::Done);
    let client = client_config();
    let mut w = world();
    let mut in_flight = InFlight::new();
    let mut client_files: HashMap<String, Vec<u8>> = HashMap::new();
    client_files.insert("/watched/a.mrc".to_string(), b"hi".to_vec());

    // the watcher finds the file and announces it
    let age = Some(Age { secs: 0, nanos: 1 });
    assert!(is_new_watched_path("/watched", "/watched/a.mrc", age, &mut in_flight, &client.watching));
    assert!(in_flight.contains("a.mrc"));
    let content = &client_files["/watched/a.mrc"];
    let spec = FileSpec::new("c1", "/watched", "/watched/a.mrc", true, 2, content);
    assert_eq!(spec.path, "");
    assert_eq!(spec.filename, "a.mrc");
    assert_eq!(spec.hash(), HI);

    // the server expects the bytes
    let p = run(processing_pipeline(spec.clone(), &server), &mut w, &server);
    assert!(p.is_finished());
    assert_eq!(w.sent.len(), 1);
    let receipt = w.sent.pop().unwrap();
    match &receipt {
        Receipt::Expecting { spec, server_rel_path } => {
            assert_eq!(spec.hash(), HI);
            assert_eq!(server_rel_path, &format!("8f/43/{HI}"));
        }
        other => panic!("expected Expecting, got {other:?}"),
    }
    assert_eq!(w.registry.status(HI), Ok(ProcessStatus::AwaitFromClient));
    assert_eq!(w.runs, 0);

    // the client copies and announces again
    let again = match listen_to_server(&receipt, &client) {
        ClientAction::Deliver { plan: CopyPlan::CopyFile { from, to }, spec } => {
            assert_eq!(from, "/watched/a.mrc");
            assert_eq!(to, format!("/incoming/8f/43/{HI}"));
            w.files.insert(to, client_files[&from].clone());
            spec
        }
        other => panic!("expected a copy, got {other:?}"),
    };

    // the server verifies, acknowledges and processes
    w.requests.clear();
    let p = run(processing_pipeline(again, &server), &mut w, &server);
    assert!(p.is_finished());
    assert_eq!(w.sent.len(), 1);
    let receipt = w.sent.pop().unwrap();
    expect_received(&receipt, HI);
    assert!(receipt.continue_processing());
    assert_eq!(statuses_set(&w), vec![ProcessStatus::Processing, ProcessStatus::Done]);
    assert_eq!(w.runs, 1);
    assert_eq!(w.registry.status(HI), Ok(ProcessStatus::Done));

    // the client removes its copy and forgets the file
    match listen_to_server(&receipt, &client) {
        ClientAction::RemoveSource { path, key } => {
            assert_eq!(path, "/watched/a.mrc");
            assert!(client_files.remove(&path).is_some());
            assert!(in_flight.remove(&key));
        }
        other => panic!("expected a removal, got {other:?}"),
    }
    assert!(!in_flight.contains("a.mrc"));
    assert!(client_files.is_empty());
}

fn after_fresh_file(after: StatusAfterProcessing, command: &str, succeeds: bool) -> (World, Config) {
    let server = server_config(command, after);
    let mut w = world();
    w.processing_succeeds = succeeds;
    let spec = hi_spec("c1", "", "a.mrc");
    run(processing_pipeline(spec.clone(), &server), &mut w, &server);
    w.files.insert(format!("/incoming/8f/43/{HI}"), b"hi".to_vec());
    run(processing_pipeline(spec, &server), &mut w, &server);
    w.sent.clear();
    w.requests.clear();
    (w, server)
}

#[test]
fn retransmission_safety() {
    let (mut w, server) = after_fresh_file(StatusAfterProcessing::Done, "true", true);
    assert_eq!(w.runs, 1);
    let p = run(processing_pipeline(hi_spec("c1", "", "a.mrc"), &server), &mut w, &server);
    assert!(p.is_finished());
    assert_eq!(w.sent.len(), 1);
    expect_received(&w.sent[0], HI);
    assert_eq!(
        w.requests,
        vec![
            Request::CreateBucket,
            Request::Contains,
            Request::ReadStatus,
            Request::Send,
            Request::Nothing
        ]
    );
    assert_eq!(w.runs, 1);
    assert_eq!(w.registry.status(HI), Ok(ProcessStatus::Done));
    assert_eq!(w.registry.content().len(), 1);
}

#[test]
fn hash_mismatch_on_server() {
    let server = server_config("true", StatusAfterProcessing::Done);
    let client = client_config();
    let mut w = world();
    let mut in_flight = InFlight::new();
    let age = Some(Age { secs: 5, nanos: 0 });
    assert!(is_new_watched_path("/watched", "/watched/a.mrc", age, &mut in_flight, &client.watching));
    let spec = hi_spec("c1", "", "a.mrc");
    run(processing_pipeline(spec.clone(), &server), &mut w, &server);
    w.sent.clear();
    w.files.insert(format!("/incoming/8f/43/{HI}"), b"HI".to_vec());
    w.requests.clear();
    let p = run(processing_pipeline(spec, &server), &mut w, &server);
    assert!(p.is_finished());
    assert_eq!(w.sent.len(), 1);
    let receipt = w.sent.pop().unwrap();
    match &receipt {
        Receipt::DifferentHash(spec) => assert_eq!(spec.hash(), HI),
        other => panic!("expected DifferentHash, got {other:?}"),
    }
    assert!(!receipt.continue_processing());
    assert_eq!(w.registry.status(HI), Ok(ProcessStatus::AwaitFromClient));
    assert_eq!(statuses_set(&w), vec![]);
    assert_eq!(w.runs, 0);
    match listen_to_server(&receipt, &client) {
        ClientAction::Forget { key } => {
            assert_eq!(key, "a.mrc");
            assert!(in_flight.remove(&key));
        }
        other => panic!("expected to forget, got {other:?}"),
    }
    assert!(!in_flight.contains("a.mrc"));
}

#[test]
fn missing_file_on_server_is_an_error_reply() {
    let server = server_config("true", StatusAfterProcessing::Done);
    let mut w = world();
    let spec = hi_spec("c1", "", "a.mrc");
    run(processing_pipeline(spec.clone(), &server), &mut w, &server);
    w.sent.clear();
    run(processing_pipeline(spec, &server), &mut w, &server);
    match &w.sent[0] {
        Receipt::Error { spec, server_rel_path, error } => {
            assert_eq!(spec.hash(), HI);
            assert_eq!(server_rel_path, &format!("8f/43/{HI}"));
            assert_eq!(error, "No such file or directory");
        }
        other => panic!("expected Error, got {other:?}"),
    }
    assert_eq!(w.registry.status(HI), Ok(ProcessStatus::AwaitFromClient));
    assert_eq!(w.runs, 0);
}

#[test]
fn failed_processing_and_retry() {
    let (mut w, server) = after_fresh_file(StatusAfterProcessing::Done, "false", false);
    assert_eq!(w.runs, 1);
    assert_eq!(w.registry.status(HI), Ok(ProcessStatus::Failed));

    // one tick of the retry loop, the command still failing
    let failed = w.registry.tasks_with_status(ProcessStatus::Failed);
    assert_eq!(failed.len(), 1);
    let courses = restart_failed_tasks(failed, &server);
    assert_eq!(courses.len(), 1);
    for course in courses {
        let p = run(course, &mut w, &server);
        assert!(p.is_finished());
    }
    assert_eq!(statuses_set(&w), vec![ProcessStatus::Processing, ProcessStatus::Failed]);
    assert_eq!(w.runs, 2);
    assert!(w.sent.is_empty());
    assert_eq!(w.registry.status(HI), Ok(ProcessStatus::Failed));

    // the command is mended and the server restarted
    let server = server_config("true", StatusAfterProcessing::Done);
    w.processing_succeeds = true;
    w.requests.clear();
    let courses = restart_failed_tasks(w.registry.tasks_with_status(ProcessStatus::Failed), &server);
    for course in courses {
        run(course, &mut w, &server);
    }
    assert_eq!(statuses_set(&w), vec![ProcessStatus::Processing, ProcessStatus::Done]);
    assert_eq!(w.runs, 3);
    assert_eq!(w.registry.status(HI), Ok(ProcessStatus::Done));
    assert!(restart_failed_tasks(w.registry.tasks_with_status(ProcessStatus::Failed), &server)
        .is_empty());
}

#[test]
fn prune() {
    let (mut w, server) = after_fresh_file(StatusAfterProcessing::ToPrune, "true", true);
    assert_eq!(w.registry.status(HI), Ok(ProcessStatus::ToPrune));
    for row in w.registry.tasks_with_status(ProcessStatus::ToPrune) {
        let spec = FileSpec::from(row);
        assert!(spec.is_valid());
        let path = server.path_of(&spec, true);
        assert_eq!(path, format!("/incoming/8f/43/{HI}"));
        assert!(w.files.remove(&path).is_some());
        w.registry.remove(spec.hash());
    }
    assert!(w.files.is_empty());
    assert!(!w.registry.contains(HI));
    assert!(w.registry.content().is_empty());

    let p = run(processing_pipeline(hi_spec("c1", "", "a.mrc"), &server), &mut w, &server);
    assert!(p.is_finished());
    match &w.sent[0] {
        Receipt::Expecting { server_rel_path, .. } => {
            assert_eq!(server_rel_path, &format!("8f/43/{HI}"))
        }
        other => panic!("expected Expecting, got {other:?}"),
    }
    assert_eq!(w.registry.status(HI), Ok(ProcessStatus::AwaitFromClient));
}

#[test]
fn two_clients_identical_content() {
    let server = server_config("true", StatusAfterProcessing::Done);
    let mut w = world();
    let first = hi_spec("c1", "x", "a.mrc");
    let second = hi_spec("c2", "y/z", "b.mrc");
    assert_eq!(first.hash(), second.hash());

    run(processing_pipeline(first.clone(), &server), &mut w, &server);
    assert!(matches!(w.sent[0], Receipt::Expecting { .. }));
    w.files.insert(format!("/incoming/8f/43/{HI}"), b"hi".to_vec());
    run(processing_pipeline(first, &server), &mut w, &server);
    assert_eq!(w.registry.status(HI), Ok(ProcessStatus::Done));
    assert_eq!(w.runs, 1);

    w.sent.clear();
    w.requests.clear();
    run(processing_pipeline(second, &server), &mut w, &server);
    assert_eq!(w.sent.len(), 1);
    match &w.sent[0] {
        Receipt::Received(spec) => {
            assert_eq!(spec.client, "c2");
            assert_eq!(spec.path, "y/z");
            assert_eq!(spec.filename, "b.mrc");
        }
        other => panic!("expected Received, got {other:?}"),
    }
    assert_eq!(statuses_set(&w), vec![]);
    assert!(!w.requests.contains(&Request::InsertNew));
    assert_eq!(w.runs, 1);
    assert_eq!(w.registry.content().len(), 1);
    assert_eq!(w.registry.content()[0].client, "c1");

    // the second client still cleans up
    let mut client = client_config();
    client.name = "c2".to_string();
    match listen_to_server(&w.sent[0], &client) {
        ClientAction::RemoveSource { path, key } => {
            assert_eq!(path, "/watched/y/z/b.mrc");
            assert_eq!(key, "y/z/b.mrc");
        }
        other => panic!("expected a removal, got {other:?}"),
    }
}

#[test]
fn received_then_cleanup_then_seen_again() {
    // the same path, seen again after its file was acknowledged and removed,
    // is announced again and acknowledged at once
    let (mut w, server) = after_fresh_file(StatusAfterProcessing::Done, "true", true);
    let client = client_config();
    let mut in_flight = InFlight::new();
    let age = Some(Age { secs: 1, nanos: 0 });
    assert!(is_new_watched_path("/watched", "/watched/a.mrc", age, &mut in_flight, &client.watching));
    assert!(!is_new_watched_path("/watched", "/watched/a.mrc", age, &mut in_flight, &client.watching));
    let receipt = Receipt::Received(hi_spec("c1", "", "a.mrc"));
    match listen_to_server(&receipt, &client) {
        ClientAction::RemoveSource { key, .. } => assert!(in_flight.remove(&key)),
        other => panic!("expected a removal, got {other:?}"),
    }
    assert!(is_new_watched_path("/watched", "/watched/a.mrc", age, &mut in_flight, &client.watching));
    let spec = FileSpec::new("c1", "/watched", "/watched/a.mrc", true, 2, b"hi");
    run(processing_pipeline(spec, &server), &mut w, &server);
    assert_eq!(w.sent.len(), 1);
    expect_received(&w.sent[0], HI);
    assert_eq!(w.runs, 1);
}

#[test]
fn registry_answers_only_what_it_is_asked() {
    let server = server_config("true", StatusAfterProcessing::Done);
    let mut registry = Registry::new();
    let mut p = processing_pipeline(hi_spec("c1", "", "a.mrc"), &server);
    // the bucket is no matter of the registry
    assert!(registry.answer(&p, "t").is_none());
    p.step(Event::BucketCreated(true)).unwrap();
    assert!(matches!(registry.answer(&p, "t"), Some(Event::Contains(false))));
    p.step(Event::Contains(true)).unwrap();
    // the status of a digest without a row is an error
    assert!(matches!(registry.answer(&p, "t"), Some(Event::RegistryFailed)));
    assert!(registry.content().is_empty());
    let mut q = processing_pipeline(hi_spec("c1", "", "a.mrc"), &server);
    q.step(Event::BucketCreated(true)).unwrap();
    q.step(Event::Contains(false)).unwrap();
    assert!(matches!(registry.answer(&q, "t0"), Some(Event::Inserted)));
    // a second insert of the digest is an error and changes nothing
    assert!(matches!(registry.answer(&q, "t1"), Some(Event::RegistryFailed)));
    assert_eq!(registry.content().len(), 1);
    assert_eq!(registry.content()[0].date_utc, "t0");
    assert!(matches!(
        registry.answer(&p, "t"),
        Some(Event::Status(ProcessStatus::AwaitFromClient))
    ));
}

#[test]
fn manual_status_leaves_processing() {
    let (w, _) = after_fresh_file(StatusAfterProcessing::Manual, "true", true);
    assert_eq!(w.runs, 1);
    let mut w = w;
    assert_eq!(w.registry.status(HI), Ok(ProcessStatus::Processing));
    // a retry of a file that is being processed does nothing
    let server = server_config("true", StatusAfterProcessing::Manual);
    let p = run(process_file(hi_spec("c1", "", "a.mrc"), &server), &mut w, &server);
    assert!(p.is_finished());
    assert_eq!(w.requests, vec![Request::CreateBucket, Request::ReadStatus, Request::Nothing]);
    assert_eq!(w.runs, 1);
}

#[test]
fn registry_errors_are_retried_after_a_second() {
    let server = server_config("true", StatusAfterProcessing::Done);
    let mut p = processing_pipeline(hi_spec("c1", "", "a.mrc"), &server);
    assert_eq!(p.command().request, Request::CreateBucket);
    let c = p.step(Event::BucketCreated(false)).unwrap();
    assert_eq!((c.delay_secs, c.request), (0, Request::Contains));
    let c = p.step(Event::RegistryFailed).unwrap();
    assert_eq!((c.delay_secs, c.request), (1, Request::Contains));
    let c = p.step(Event::RegistryFailed).unwrap();
    assert_eq!((c.delay_secs, c.request), (1, Request::Contains));
    let c = p.step(Event::Contains(false)).unwrap();
    assert_eq!((c.delay_secs, c.request), (0, Request::InsertNew));
    let c = p.step(Event::RegistryFailed).unwrap();
    assert_eq!((c.delay_secs, c.request), (1, Request::InsertNew));
    let c = p.step(Event::Inserted).unwrap();
    assert_eq!((c.delay_secs, c.request), (0, Request::Send));
    // the bucket could not be made: the file goes directly below the incoming directory
    match p.receipt() {
        Receipt::Expecting { server_rel_path, .. } => assert_eq!(server_rel_path, HI),
        other => panic!("expected Expecting, got {other:?}"),
    }
    assert_eq!(p.server_path(&server), format!("/incoming/{HI}"));
    // an event that answers nothing is refused and changes nothing
    assert!(p.step(Event::Processed(true)).is_none());
    assert!(p.step(Event::RegistryFailed).is_none());
    assert_eq!(p.command().request, Request::Send);
    let c = p.step(Event::Sent).unwrap();
    assert_eq!(c.request, Request::Nothing);
    assert!(p.step(Event::Sent).is_none());
}
