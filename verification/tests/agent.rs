use lion_assist::agent::commands::{CommandEvent, CommandNeed};
use lion_assist::agent::config::{AgentConfig, Command};
use lion_assist::agent::daemon::{acknowledgement, control, Controls, ResidentEvent, ResidentNeed};
use lion_assist::agent::discord::{self, Author, Draft, Message};
use lion_assist::agent::email::{self, Decision, MailAction, MailEvent, Move};
use lion_assist::agent::errands::{Need, Reply, Shape};
use lion_assist::agent::intake::{Seek, SeekEvent, SeekNeed};
use lion_assist::agent::research::{self, Selection};
use lion_assist::agent::runtime::{activity_name, structured, voice_command, FilingNeed, Runtime};
use lion_assist::agent::state::{Announcement, Job, State, Status, Work};
use lion_assist::agent::ticking::{PollNeed, Source, TickEvent, TickNeed};
use lion_assist::base::config::{Config, Limits, Model, Models, Provider, Research, Voice};
use lion_assist::base::limits::{digest, Store, WriteAction, WriteEvent};
use lion_assist::base::models::{answer, Router};
use lion_assist::error::Error;
use lion_assist::failure::Failure;
use lion_assist::json::{parse, render, Json};
use lion_assist::os::monitor::{receive, Received, RetryAfter};
use lion_assist::tasks::aerospace::compress::{compress, decompress};
use lion_assist::tasks::aerospace::storage::Paper;
use lion_assist::tasks::email::Tier;
use std::collections::{BTreeMap, BTreeSet};

// ---------------------------------------------------------------------------
// A world to run the agent in

struct World {
    objects: BTreeMap<String, Vec<u8>>,
    jobs: BTreeMap<String, Job>,
    papers: BTreeMap<String, Paper>,
    files: BTreeMap<String, Vec<u8>>,
    dirs: BTreeSet<String>,
    replies: Vec<(u16, String)>,
    requests: Vec<String>,
    names: Vec<String>,
    entries: Vec<String>,
    saves: usize,
}

impl World {
    fn new(replies: Vec<(u16, String)>) -> World {
        World {
            objects: BTreeMap::new(),
            jobs: BTreeMap::new(),
            papers: BTreeMap::new(),
            files: BTreeMap::new(),
            dirs: BTreeSet::new(),
            replies,
            requests: Vec::new(),
            names: Vec::new(),
            entries: Vec::new(),
            saves: 0,
        }
    }

    fn fetch(&mut self, request: String) -> Result<Vec<u8>, Failure> {
        self.requests.push(request);
        assert!(!self.replies.is_empty(), "unexpected request");
        let (status, body) = self.replies.remove(0);
        let seconds = parse(body.as_bytes()).ok().and_then(|json| match json.get("retry_after") {
            Some(Json::Number(n)) => n.parse::<f64>().ok().map(|n| n.ceil() as u64),
            _ => None,
        });
        match receive(status, body.into_bytes(), seconds, 1_000_000) {
            Received::Body(bytes) => Ok(bytes),
            Received::Later(retry) => Err(Failure::Later(retry)),
            Received::Status(code) => Err(Failure::Outside(format!("HTTP {code}"))),
            Received::Refused(error) => Err(Failure::Refused(error)),
        }
    }
}

fn text_of(json: &Json, name: &str) -> String {
    match json.get(name) {
        Some(Json::Text(text)) => text.clone(),
        _ => String::new(),
    }
}

fn flag_of(json: &Json, name: &str) -> bool {
    matches!(json.get(name), Some(Json::Bool(true)))
}

fn list_of(json: Option<&Json>) -> Vec<Json> {
    match json {
        Some(Json::List(items)) => items.clone(),
        _ => Vec::new(),
    }
}

fn author_of(json: &Json) -> Author {
    Author { id: text_of(json, "id"), username: text_of(json, "username"), bot: flag_of(json, "bot") }
}

fn message_of(json: &Json) -> Message {
    Message {
        id: text_of(json, "id"),
        channel_id: text_of(json, "channel_id"),
        author: author_of(json.get("author").unwrap()),
        content: text_of(json, "content"),
        mentions: list_of(json.get("mentions")).iter().map(author_of).collect(),
        webhook_id: None,
        message_reference: json.get("message_reference").cloned(),
        nonce: None,
    }
}

fn messages_of(bytes: &[u8]) -> Vec<Message> {
    list_of(parse(bytes).ok().as_ref()).iter().map(message_of).collect()
}

fn decision_of(json: &Json) -> Result<Decision, String> {
    let tier = match text_of(json, "tier").as_str() {
        "critical" => Tier::Critical,
        "important" => Tier::Important,
        "news" => Tier::News,
        "other" => Tier::Other,
        other => return Err(format!("unknown tier {other}")),
    };
    Ok(Decision {
        tier,
        reason: text_of(json, "reason"),
        evidence: list_of(json.get("evidence"))
            .iter()
            .map(|quote| match quote {
                Json::Text(text) => text.clone(),
                _ => String::new(),
            })
            .collect(),
        needs_review: flag_of(json, "needs_review"),
    })
}

fn draft_of(json: &Json) -> Result<Draft, String> {
    match json.get("answer") {
        Some(_) => Ok(Draft {
            answer: text_of(json, "answer"),
            should_reply: flag_of(json, "should_reply"),
            needs_review: flag_of(json, "needs_review"),
            reason: text_of(json, "reason"),
        }),
        None => Err("missing field `answer`".to_owned()),
    }
}

fn move_of(json: &Json) -> Result<Move, String> {
    Ok(Move {
        source: text_of(json, "source"),
        destination: text_of(json, "destination"),
        hash: text_of(json, "hash"),
    })
}

fn model_reply(app: &Runtime, world: &mut World, need: Need) -> Reply {
    let (complexity, instruction, data, shape) = match need {
        Need::Model { complexity, instruction, data, shape } => (complexity, instruction, data, shape),
        _ => unreachable!(),
    };
    let mut router = Router::new();
    let key = Ok("key".to_owned());
    let call = match router.ask(&app.config, complexity, &instruction, &data, &key) {
        Ok(call) => call,
        Err(error) => return Reply::Failed(Failure::Refused(error)),
    };
    let provider = router.choose_model(&app.config, complexity).provider;
    let bytes = match world.fetch(format!("POST {} {}", call.url, render(&call.body))) {
        Ok(bytes) => bytes,
        Err(failure) => return Reply::Failed(failure),
    };
    let text = match answer(provider, &bytes) {
        Ok(text) => text,
        Err(error) => return Reply::Failed(Failure::Refused(error)),
    };
    let inner = parse(structured(&text).as_bytes()).ok();
    let missing = || Err("not a document".to_owned());
    match shape {
        Shape::Text => Reply::Answer(text),
        Shape::Decision => {
            let parsed = inner.as_ref().map_or_else(missing, decision_of);
            Reply::Decision { text, parsed }
        }
        Shape::Draft => Reply::Draft(match &inner {
            Some(json) => draft_of(json),
            None => Err("not a document".to_owned()),
        }),
        Shape::Selection => Reply::Selection(match &inner {
            Some(json) => Ok(Selection {
                relevant: flag_of(json, "relevant"),
                needs_review: flag_of(json, "needs_review"),
                summary: text_of(json, "summary"),
                reason: text_of(json, "reason"),
            }),
            None => Err("not a document".to_owned()),
        }),
    }
}

fn mail_event(world: &mut World, root: &str, action: &MailAction) -> MailEvent {
    match action {
        MailAction::Root => MailEvent::Root(Some(root.to_owned())),
        MailAction::Inspect(path) => MailEvent::Directory(world.dirs.contains(path)),
        MailAction::Exists(path) => {
            MailEvent::Exists(world.files.contains_key(path) || world.dirs.contains(path))
        }
        MailAction::Create(path) => {
            world.dirs.insert(path.clone());
            MailEvent::Done
        }
        MailAction::Read(path) => match world.files.get(path) {
            Some(bytes) => MailEvent::Bytes(bytes.clone()),
            None => MailEvent::Failed(Error::Outside("No such file".to_owned())),
        },
        MailAction::Link(from, to) => {
            assert!(!world.files.contains_key(to));
            let bytes = world.files[from].clone();
            world.files.insert(to.clone(), bytes);
            MailEvent::Done
        }
        MailAction::Sync(_) => MailEvent::Done,
        MailAction::Remove(path) => {
            world.files.remove(path);
            MailEvent::Done
        }
        MailAction::Planned(_) | MailAction::Applied(_) => unreachable!(),
    }
}

fn plan(world: &mut World, root: &str, source: &str, hash: &str, tier: Tier) -> Result<Move, Error> {
    let (mut plan, mut action) = email::plan(source.to_owned(), hash.to_owned(), tier);
    loop {
        if let MailAction::Planned(res) = action {
            return res;
        }
        let event = mail_event(world, root, &action);
        (plan, action) = plan.next(event);
    }
}

fn apply(world: &mut World, root: &str, movement: Move) -> Result<(), Error> {
    let (mut apply, mut action) = email::apply(movement);
    loop {
        if let MailAction::Applied(res) = action {
            return res;
        }
        let event = mail_event(world, root, &action);
        (apply, action) = apply.next(event);
    }
}

fn copy(movement: &Move) -> Move {
    Move {
        source: movement.source.clone(),
        destination: movement.destination.clone(),
        hash: movement.hash.clone(),
    }
}

fn execute(app: &mut Runtime, world: &mut World, job: Job, time: u64) -> (Job, Result<Json, Failure>) {
    let (mut errand, mut need) = app.execute(job, time);
    loop {
        let reply = match need {
            Need::Finish(res) => return (errand.job, res),
            Need::Save => {
                world.saves += 1;
                Reply::Done
            }
            Need::Model { .. } => model_reply(app, world, need),
            Need::MailRoot { maildir } => Reply::Root(maildir),
            Need::ReadMail { path } => match world.files.get(&path) {
                Some(bytes) => Reply::Bytes(bytes.clone()),
                None => Reply::Failed(Failure::Outside("No such file".to_owned())),
            },
            Need::Decision(json) => Reply::Decision { text: String::new(), parsed: decision_of(&json) },
            Need::Draft(json) => Reply::Draft(draft_of(&json)),
            Need::Movement(json) => Reply::Movement(move_of(&json)),
            Need::Plan { maildir, path, hash, tier } => match plan(world, &maildir, &path, &hash, tier) {
                Ok(movement) => Reply::Movement(Ok(movement)),
                Err(error) => Reply::Failed(Failure::Refused(error)),
            },
            Need::Apply { maildir, movement, .. } => match apply(world, &maildir, movement) {
                Ok(()) => Reply::Done,
                Err(error) => Reply::Failed(Failure::Refused(error)),
            },
            Need::Delivered { channel, after } => {
                match discord::messages(&app.config.agent.discord, &channel, Some(&after), &token()) {
                    Err(error) => Reply::Failed(Failure::Refused(error)),
                    Ok(fetch) => match world.fetch(format!("GET {} after={after}", fetch.url)) {
                        Ok(bytes) => Reply::Messages(messages_of(&bytes)),
                        Err(failure) => Reply::Failed(failure),
                    },
                }
            }
            Need::Around { channel, id } => {
                match discord::context(&app.config.agent.discord, &channel, &id, &token()) {
                    Err(error) => Reply::Failed(Failure::Refused(error)),
                    Ok(fetch) => match world.fetch(format!("GET {} around={id}", fetch.url)) {
                        Ok(bytes) => Reply::Messages(messages_of(&bytes)),
                        Err(failure) => Reply::Failed(failure),
                    },
                }
            }
            Need::Send { channel, body } => {
                match discord::send(&app.config.agent.discord, &channel, &token()) {
                    Err(error) => Reply::Failed(Failure::Refused(error)),
                    Ok(fetch) => match world.fetch(format!("POST {}\r\n\r\n{}", fetch.url, render(&body))) {
                        Ok(bytes) => Reply::Sent(message_of(&parse(&bytes).unwrap())),
                        Err(failure) => Reply::Failed(failure),
                    },
                }
            }
            Need::Crawl { .. } => Reply::Saved(2),
            Need::Feed { .. } => Reply::Papers(vec![world.papers.values().next().unwrap().clone(); 2]),
            Need::SavePaper { paper } => {
                let fresh = !world.objects.contains_key(&paper.object());
                world.objects.entry(paper.object()).or_insert(Vec::new());
                Reply::Kept(fresh)
            }
            Need::Paper { object } => {
                let paper = world.papers[&object].clone();
                let text = render(&paper.json());
                Reply::Paper { paper, text }
            }
            Need::Keep { name, body } => {
                let fresh = !world.objects.contains_key(&name);
                world.objects.entry(name).or_insert(render(&body).into_bytes());
                Reply::Kept(fresh)
            }
            Need::Transcript { .. } => Reply::Transcript("[]".to_owned()),
            Need::Activity { object } => match world.jobs.get(&object) {
                Some(job) => Reply::Job(job.clone()),
                None => Reply::Failed(Failure::Outside("No such file".to_owned())),
            },
        };
        (errand, need) = app.proceed(errand, reply);
    }
}

fn token() -> Result<String, String> {
    Ok("token".to_owned())
}

fn archive(app: &mut Runtime, world: &mut World) {
    let (mut filing, mut need) = app.archive_done();
    loop {
        match need {
            FilingNeed::Finish(res) => return res.unwrap(),
            FilingNeed::Keep { name, job } => {
                world.objects.entry(name.clone()).or_insert(render(&job.json()).into_bytes());
                world.jobs.entry(name).or_insert(job);
            }
        }
        (filing, need) = app.archive_on(filing, Ok(()));
    }
}

fn seek(app: &mut Runtime, world: &mut World, begun: (Seek, SeekNeed)) -> Result<(), Failure> {
    let (mut seek, mut need) = begun;
    loop {
        let event = match need {
            SeekNeed::Finish(res) => return res,
            SeekNeed::LookUp(name) => SeekEvent::Known(world.objects.contains_key(&name)),
            SeekNeed::Save => {
                world.saves += 1;
                SeekEvent::Done
            }
            SeekNeed::Root { maildir } => SeekEvent::Root(maildir),
            SeekNeed::OpenMail { root, name } => {
                let prefix = format!("{root}/{name}/");
                if !world.dirs.contains(&format!("{root}/{name}")) {
                    SeekEvent::Missing
                } else {
                    world.entries = world.files.keys().filter(|path| path.starts_with(&prefix)).cloned().collect();
                    SeekEvent::Opened(true)
                }
            }
            SeekNeed::NextMail => {
                if world.entries.is_empty() {
                    SeekEvent::End
                } else {
                    SeekEvent::Entry { path: world.entries.remove(0), regular: true }
                }
            }
            SeekNeed::ReadMail { path } => SeekEvent::Bytes(world.files[&path].clone()),
            SeekNeed::OpenPapers => {
                world.names = world.objects.keys().cloned().collect();
                SeekEvent::Done
            }
            SeekNeed::NextPaper => {
                if world.names.is_empty() {
                    SeekEvent::End
                } else {
                    SeekEvent::Name(world.names.remove(0))
                }
            }
            SeekNeed::Messages { channel } => {
                match discord::messages(&app.config.agent.discord, &channel, None, &token()) {
                    Err(error) => SeekEvent::Failed(Failure::Refused(error)),
                    Ok(fetch) => match world.fetch(format!("GET {}", fetch.url)) {
                        Ok(bytes) => SeekEvent::Messages(messages_of(&bytes)),
                        Err(failure) => SeekEvent::Failed(failure),
                    },
                }
            }
            SeekNeed::Before { channel, id } => {
                match discord::before(&app.config.agent.discord, &channel, &id, &token()) {
                    Err(error) => SeekEvent::Failed(Failure::Refused(error)),
                    Ok(fetch) => {
                        let (name, value) = fetch.position.unwrap();
                        match world.fetch(format!("GET {}?{name}={value}", fetch.url)) {
                            Ok(bytes) => SeekEvent::Messages(messages_of(&bytes)),
                            Err(failure) => SeekEvent::Failed(failure),
                        }
                    }
                }
            }
        };
        (seek, need) = app.seek_on(seek, event);
    }
}

fn poll_sources(app: &mut Runtime, world: &mut World, time: u64) -> Result<(), Failure> {
    let (mut stage, mut need) = Runtime::poll_sources();
    loop {
        let res = match need {
            PollNeed::Finish(res) => return res,
            PollNeed::Save => {
                world.saves += 1;
                Ok(())
            }
            PollNeed::Discover(source) => {
                let begun = match source {
                    Source::Email => app.discover_email(time),
                    Source::Papers => app.discover_papers(time),
                    Source::Discord => app.discover_discord(time),
                };
                seek(app, world, begun)
            }
        };
        (stage, need) = app.poll_on(time, stage, res);
    }
}

fn schedule(app: &mut Runtime, world: &mut World, time: u64) -> Result<(), Failure> {
    let begun = app.schedule(time);
    seek(app, world, begun)
}

fn tick(app: &mut Runtime, world: &mut World, time: u64) -> Result<(), Failure> {
    let (mut tick, mut need) = app.tick(time);
    loop {
        let event = match need {
            TickNeed::Finish(res) => return res,
            TickNeed::Archive => {
                archive(app, world);
                TickEvent::Done
            }
            TickNeed::Save => {
                world.saves += 1;
                TickEvent::Done
            }
            TickNeed::Schedule => match schedule(app, world, time) {
                Ok(()) => TickEvent::Done,
                Err(failure) => TickEvent::Failed(failure),
            },
            TickNeed::Poll => match poll_sources(app, world, time) {
                Ok(()) => TickEvent::Done,
                Err(failure) => TickEvent::Failed(failure),
            },
            TickNeed::Execute { job } => {
                let (job, res) = execute(app, world, job, time);
                TickEvent::Executed { job, res }
            }
        };
        (tick, need) = app.tick_on(tick, event);
    }
}

fn command(app: &mut Runtime, world: &mut World, command: Command, time: u64) -> Result<Json, Failure> {
    let (mut request, mut need) = app.command(command, time);
    loop {
        let event = match need {
            CommandNeed::Respond(res) => return res,
            CommandNeed::LookUp(name) => CommandEvent::Known(world.objects.contains_key(&name)),
            CommandNeed::Save => {
                world.saves += 1;
                CommandEvent::Done
            }
            CommandNeed::Activity { object } => match world.jobs.get(&object) {
                Some(job) => CommandEvent::Job(job.clone()),
                None => CommandEvent::Failed(Failure::Outside("No such file".to_owned())),
            },
            CommandNeed::Archive => {
                archive(app, world);
                CommandEvent::Done
            }
        };
        (request, need) = app.command_on(request, event);
    }
}

fn enqueue(app: &mut Runtime, world: &World, id: &str, work: Work, time: u64) -> Result<bool, Error> {
    let archived = world.objects.contains_key(&activity_name(id));
    app.enqueue(id.to_owned(), work, time, archived)
}

fn config() -> Config {
    let mut agent = AgentConfig::default("/run/lion".to_owned());
    agent.daily_model_calls = 100;
    Config {
        agent,
        data_dir: "/var/lib/lion".to_owned(),
        limits: Limits {
            disk_bytes: 50_000_000_000,
            reserve_bytes: 1_000_000_000,
            max_input_bytes: 8_388_608,
            max_response_bytes: 8_388_608,
            max_prompt_bytes: 200_000,
            max_output_tokens: 2048,
            max_model_calls_per_run: 20,
            request_timeout_secs: 60,
            poll_secs: 30,
            max_emails_per_tick: 20,
        },
        models: Models {
            cheap: Model {
                provider: Provider::Gemini,
                model: "gemini-3-flash-preview".to_owned(),
                base_url: "https://generativelanguage.googleapis.com/v1beta".to_owned(),
                api_key_env: "GEMINI_API_KEY".to_owned(),
            },
            advanced: Model {
                provider: Provider::Gemini,
                model: "gemini-3.1-pro-preview".to_owned(),
                base_url: "https://generativelanguage.googleapis.com/v1beta".to_owned(),
                api_key_env: "GEMINI_API_KEY".to_owned(),
            },
        },
        voice: Voice {
            enabled: false,
            speak_command: vec!["espeak-ng".to_owned()],
            listen_command: Vec::new(),
            timeout_secs: 30,
        },
        research: Research { max_results: 20, interval_secs: 3, download_pdfs: false },
    }
}

fn runtime_with(config: Config, kept: Option<State>) -> Runtime {
    let mut app = Runtime::new(config, kept).unwrap();
    app.state.next_poll = u64::MAX;
    app.state.next_rundown = u64::MAX;
    app
}

fn runtime(config: Config) -> Runtime {
    runtime_with(config, None)
}

fn model(text: &str) -> (u16, String) {
    let part = Json::empty().and(Json::object().with("text", Json::string(text)));
    let candidate = Json::object().with("content", Json::object().with("parts", part));
    let body = Json::object().with("candidates", Json::empty().and(candidate));
    (200, render(&body))
}

fn mention() -> Message {
    Message {
        id: "1000".to_owned(),
        channel_id: "123".to_owned(),
        author: Author { id: "234".to_owned(), username: "friend".to_owned(), bot: false },
        content: "<@999> What is an ion thruster?".to_owned(),
        mentions: vec![Author { id: "999".to_owned(), username: String::new(), bot: false }],
        webhook_id: None,
        message_reference: None,
        nonce: None,
    }
}

fn question() -> Work {
    Work::Discord { channel: "123".to_owned(), message: Box::new(mention()) }
}

fn discord_config() -> Config {
    let mut config = config();
    config.agent.discord.enabled = true;
    config.agent.discord.channels = vec!["123".to_owned()];
    config.agent.discord.bot_id = "999".to_owned();
    config.agent.discord.owner_name = "the user".to_owned();
    config.agent.discord.away = true;
    config.agent.discord.allow_send = true;
    config
}

const DRAFT: &str = r#"{"answer":"An ion thruster accelerates ions to produce thrust.","should_reply":true,"needs_review":false,"reason":"Factual question."}"#;

fn channel_reply(messages: &Vec<Message>) -> (u16, String) {
    (200, render(&discord::messages_document(messages)))
}

// ---------------------------------------------------------------------------
// The agent at work

#[test]
fn atomic_checkpoint_replaces_and_restarts_without_losing_state() {
    let mut state = State::load(None, false).unwrap();
    let mut job = Job::new("test".to_owned(), Work::Ask { text: "hello".to_owned() }, 100);
    job.status = Status::Running;
    job.calls = 2;
    job.action = Some(Json::object().with("attempted", Json::Bool(true)));
    state.jobs.push(job);
    state.model_calls = 9;
    state.away = true;
    assert!(State::save(1_000_000).is_ok());
    let restored = State::load(Some(state), false).unwrap();
    assert!(restored.away);
    assert_eq!(restored.jobs[0].status, Status::Pending);
    assert_eq!(restored.model_calls, 9);
    assert_eq!(restored.jobs[0].calls, 2);
    assert!(restored.jobs[0].action.is_some());
}

/// Writes an object the way the store asks for, in a directory whose usage is given by its bytes.
fn write(store: &Store, disk: &mut BTreeMap<String, Vec<u8>>, name: &str, bytes: &[u8], replacing: bool) -> Result<bool, Error> {
    let used = |disk: &BTreeMap<String, Vec<u8>>| disk.values().map(|b| (b.len() as u64).div_ceil(4096) * 4096).sum::<u64>() + 4096;
    let len = bytes.len() as u64;
    let (mut write, mut action) = if replacing { store.replace(name, len) } else { store.put(name, len) };
    let mut staged = Vec::new();
    loop {
        let event = match action {
            WriteAction::Finish(res) => return res,
            WriteAction::LookUp => WriteEvent::Exists(disk.contains_key(name)),
            WriteAction::Measure => WriteEvent::Used(used(disk) + (staged.len() as u64).div_ceil(4096) * 4096),
            WriteAction::Stage => WriteEvent::Done,
            WriteAction::Fill => {
                staged = bytes.to_vec();
                WriteEvent::Done
            }
            WriteAction::Rename => {
                disk.insert(name.to_owned(), staged.clone());
                staged.clear();
                WriteEvent::Done
            }
            WriteAction::Sync => WriteEvent::Done,
            WriteAction::Discard => {
                staged.clear();
                WriteEvent::Done
            }
        };
        (write, action) = write.next(store, event);
    }
}

#[test]
fn checkpoint_quota_failure_preserves_previous_checkpoint() {
    let store = Store::open(100_000, 10_000).unwrap();
    let mut disk = BTreeMap::new();
    write(&store, &mut disk, "state.json", b"old", true).unwrap();
    assert!(write(&store, &mut disk, "state.json", &vec![b'x'; 90_000], true).is_err());
    assert_eq!(disk["state.json"], b"old");
}

fn mailbox(world: &mut World, name: &str, content: &[u8]) -> String {
    world.dirs.insert("/mail".to_owned());
    world.dirs.insert("/mail/new".to_owned());
    let path = format!("/mail/new/{name}");
    world.files.insert(path.clone(), content.to_vec());
    path
}

#[test]
fn full_model_email_decision_moves_and_undo_restores_exact_bytes() {
    let content = b"From: colleague@example.test\nSubject: Meeting\n\nPlease respond by tomorrow.";
    let decision = r#"{"tier":"important","reason":"A colleague needs a response tomorrow.","evidence":["Please respond by tomorrow."],"needs_review":false}"#;
    let mut world = World::new(vec![model(decision), model(decision)]);
    let source = mailbox(&mut world, "message", content);
    let mut cfg = config();
    cfg.agent.email.maildir = Some("/mail".to_owned());
    cfg.agent.email.apply_moves = true;
    let mut app = runtime(cfg);
    let work = Work::Email { path: source.clone(), hash: digest(content) };
    enqueue(&mut app, &world, "email-test", work, 100).unwrap();
    tick(&mut app, &mut world, 100).unwrap();
    assert!(app.state.jobs.is_empty());
    assert!(!world.files.contains_key(&source));
    let action = move_of(app.state.recent[0].action.as_ref().unwrap()).unwrap();
    assert_eq!(world.files[&action.destination], content);
    assert_eq!(app.state.model_calls, 2);
    assert_eq!(app.state.announcements.len(), 1);
    let undo = Command::Undo { job_id: "email-test".to_owned() };
    command(&mut app, &mut world, undo, 101).unwrap();
    tick(&mut app, &mut world, 101).unwrap();
    assert_eq!(world.files[&source], content);
    assert!(!world.files.contains_key(&action.destination));
    let mut restarted = runtime_with(config(), Some(app.state));
    assert_eq!(restarted.state.model_calls, 2);
    let duplicate = Work::Ask { text: "duplicate".to_owned() };
    assert!(!enqueue(&mut restarted, &world, "email-test", duplicate, 102).unwrap());
    assert!(world.requests[0].contains("gemini-3-flash"));
    assert!(world.requests[1].contains("gemini-3.1-pro"));
}

#[test]
fn interrupted_mail_move_is_idempotent_and_conflicts_never_overwrite() {
    let mut world = World::new(Vec::new());
    let source = mailbox(&mut world, "message", b"hello");
    let movement = plan(&mut world, "/mail", &source, &digest(b"hello"), Tier::News).unwrap();
    assert_eq!(movement.destination, format!("/mail/.Lion-News/cur/lion-{}:2,", digest(b"hello")));
    world.files.insert(movement.destination.clone(), b"hello".to_vec());
    apply(&mut world, "/mail", copy(&movement)).unwrap();
    apply(&mut world, "/mail", copy(&movement)).unwrap();
    assert!(!world.files.contains_key(&source));
    assert_eq!(world.files[&movement.destination], b"hello");
    world.files.insert(source.clone(), b"different".to_vec());
    assert!(matches!(apply(&mut world, "/mail", copy(&movement)), Err(Error::SourceChanged)));
    assert_eq!(world.files[&source], b"different");
}

#[test]
fn a_move_there_and_back_restores_the_mailbox() {
    let mut world = World::new(Vec::new());
    mailbox(&mut world, "other", b"other");
    let source = mailbox(&mut world, "message", b"hello");
    let movement = plan(&mut world, "/mail", &source, &digest(b"hello"), Tier::News).unwrap();
    let before = world.files.clone();
    apply(&mut world, "/mail", copy(&movement)).unwrap();
    let moved = world.files.clone();
    assert_eq!(moved[&movement.destination], b"hello");
    assert!(!moved.contains_key(&source));
    apply(&mut world, "/mail", copy(&movement)).unwrap();
    assert_eq!(world.files, moved);
    apply(&mut world, "/mail", copy(&movement).reverse()).unwrap();
    assert_eq!(world.files, before);
}

#[test]
fn invalid_model_evidence_cannot_move_email() {
    let decision = r#"{"tier":"other","reason":"No deadline.","evidence":["fabricated evidence"],"needs_review":false}"#;
    let mut world = World::new(vec![model(decision), model(decision)]);
    let content = b"Subject: hello\n\nLunch?";
    let source = mailbox(&mut world, "m", content);
    let mut cfg = config();
    cfg.agent.email.maildir = Some("/mail".to_owned());
    cfg.agent.email.apply_moves = true;
    cfg.agent.max_attempts = 1;
    let mut app = runtime(cfg);
    let work = Work::Email { path: source.clone(), hash: digest(content) };
    enqueue(&mut app, &world, "invalid", work, 100).unwrap();
    tick(&mut app, &mut world, 100).unwrap();
    assert_eq!(app.state.jobs[0].status, Status::Review);
    assert_eq!(
        app.state.jobs[0].error.as_deref(),
        Some("email decision cites evidence absent from the message")
    );
    assert!(world.files.contains_key(&source));
}

#[test]
fn daily_budget_is_durable_and_does_not_replenish_on_clock_rollback() {
    let mut world = World::new(Vec::new());
    let mut app = runtime(config());
    app.state.budget_day = 2;
    app.state.model_calls = app.config.agent.daily_model_calls;
    let work = Work::Ask { text: "hello".to_owned() };
    enqueue(&mut app, &world, "budget", work, 172800).unwrap();
    tick(&mut app, &mut world, 172800).unwrap();
    assert_eq!(app.state.jobs[0].status, Status::Pending);
    assert_eq!(app.state.jobs[0].calls, 0);
    assert_eq!(app.state.jobs[0].next_attempt, 259200);
    assert_eq!(app.state.jobs[0].attempts, 0);
    let mut app = runtime_with(config(), Some(app.state));
    app.state.reset_budget(86400);
    assert_eq!(app.state.model_calls, 100);
    app.state.reset_budget(259200);
    assert_eq!(app.state.model_calls, 0);
}

#[test]
fn cheap_research_selection_is_saved_once_and_announced_after_selection() {
    let selection = r#"{"relevant":true,"needs_review":false,"summary":"A new propulsion experiment.","reason":"Matches electric propulsion."}"#;
    let mut world = World::new(vec![model(selection)]);
    let mut app = runtime(config());
    let paper = Paper {
        source: "web".to_owned(),
        id: "https://example.test/paper".to_owned(),
        title: "Electric propulsion".to_owned(),
        abstract_text: "A new experiment".to_owned(),
        url: "https://example.test/paper".to_owned(),
        published: "2026-09-01".to_owned(),
    };
    let object = paper.object();
    world.papers.insert(object.clone(), paper);
    enqueue(&mut app, &world, "selection", Work::Paper { object }, 100).unwrap();
    tick(&mut app, &mut world, 100).unwrap();
    assert_eq!(world.objects.keys().filter(|name| name.starts_with("reading-")).count(), 1);
    assert_eq!(app.state.announcements.len(), 1);
    assert_eq!(
        app.state.announcements[0].text,
        "I found research you may want to read: Electric propulsion. Matches electric propulsion."
    );
    tick(&mut app, &mut world, 101).unwrap();
    assert_eq!(app.state.announcements.len(), 1);
    assert_eq!(world.requests.len(), 1);
}

#[test]
fn feeds_and_article_extraction_preserve_sources_and_exclude_scripts() {
    let rss = br#"<rss><channel><item><title>New engine</title><link>/engine</link><description>&lt;p&gt;Electric propulsion&lt;/p&gt;</description><pubDate>Today</pubDate></item></channel></rss>"#;
    let items = vec![research::Item {
        title: "New engine".to_owned(),
        link: "/engine".to_owned(),
        description: "<p>Electric propulsion</p>".to_owned(),
        date: "Today".to_owned(),
    }];
    let papers =
        research::parse("https://example.test/feed", rss.to_vec(), &Some(items), &None, 10).unwrap();
    assert_eq!(papers.len(), 1);
    assert_eq!(papers[0].url, "https://example.test/engine");
    assert_eq!(papers[0].abstract_text, "Electric propulsion");
    let page = br#"<html><title>Aerospace article</title><body><nav>ignore nav</nav><article>Real <b>content</b><script>ignore script</script></article></body></html>"#;
    let papers =
        research::parse("https://example.test/article", page.to_vec(), &None, &None, 10).unwrap();
    assert_eq!(papers[0].abstract_text, "Real content");
    assert_eq!(papers[0].title, "Aerospace article");
    assert_eq!(papers[0].source, "web");
}

#[test]
fn discord_reply_has_disclosure_no_pings_and_verified_delivery() {
    let cfg = discord_config();
    let body = discord::payload(
        &cfg.agent.discord,
        &mention().id,
        "An ion thruster accelerates ions to produce thrust.",
    )
    .unwrap();
    let bot = Json::object().with("id", Json::string("999")).with("bot", Json::Bool(true));
    let response = Json::object()
        .with("id", Json::string("1001"))
        .with("channel_id", Json::string("123"))
        .with("author", bot)
        .with("content", body.get("content").unwrap().clone());
    let mut world =
        World::new(vec![channel_reply(&vec![mention()]), model(DRAFT), (200, render(&response))]);
    let mut app = runtime(cfg);
    enqueue(&mut app, &world, "reply", question(), 100).unwrap();
    tick(&mut app, &mut world, 100).unwrap();
    assert!(flag_of(app.state.recent[0].result.as_ref().unwrap(), "sent"));
    assert_eq!(app.state.announcements.len(), 1);
    let sent = parse(world.requests[2].split_once("\r\n\r\n").unwrap().1.as_bytes()).unwrap();
    assert!(text_of(&sent, "content").starts_with("I'm the user's AI assistant"));
    let mentions = sent.get("allowed_mentions").unwrap();
    assert!(matches!(mentions.get("parse"), Some(Json::List(items)) if items.is_empty()));
    assert!(matches!(mentions.get("replied_user"), Some(Json::Bool(false))));
    assert!(flag_of(&sent, "enforce_nonce"));
}

#[test]
fn uncertain_discord_delivery_is_not_reposted_after_restart() {
    let mut world = World::new(vec![
        channel_reply(&vec![mention()]),
        model(DRAFT),
        (500, r#"{"error":"lost response"}"#.to_owned()),
        (200, "[]".to_owned()),
    ]);
    let mut app = runtime(discord_config());
    enqueue(&mut app, &world, "uncertain", question(), 100).unwrap();
    tick(&mut app, &mut world, 100).unwrap();
    assert!(app.state.jobs[0].action.is_some());
    let mut app = runtime_with(discord_config(), Some(app.state));
    tick(&mut app, &mut world, 200).unwrap();
    assert_eq!(app.state.jobs[0].status, Status::Review);
    assert!(app.state.announcements.iter().all(|a| !a.text.contains("answered a question")));
    let retry = Command::Retry { job_id: "uncertain".to_owned() };
    assert!(command(&mut app, &mut world, retry, 201).is_err());
    assert_eq!(world.requests.iter().filter(|r| r.contains("POST ") && r.contains("/channels/")).count(), 1);
}

#[test]
fn present_user_and_bot_messages_never_trigger_replies() {
    let mut cfg = discord_config();
    cfg.agent.discord.away = false;
    let mut message = mention();
    assert!(discord::eligible(&message, &cfg.agent.discord));
    message.author.bot = true;
    assert!(!discord::eligible(&message, &cfg.agent.discord));
    let mut world = World::new(Vec::new());
    let mut app = runtime(cfg);
    enqueue(&mut app, &world, "present", question(), 100).unwrap();
    tick(&mut app, &mut world, 100).unwrap();
    assert_eq!(app.state.model_calls, 0);
    let result = app.state.recent[0].result.as_ref().unwrap();
    assert!(matches!(result.get("sent"), Some(Json::Bool(false))));
}

#[test]
fn paused_agent_keeps_jobs_and_voice_controls_are_typed() {
    let mut world = World::new(Vec::new());
    let mut app = runtime(config());
    command(&mut app, &mut world, Command::Pause, 100).unwrap();
    let work = Work::Ask { text: "hello".to_owned() };
    enqueue(&mut app, &world, "waiting", work, 100).unwrap();
    tick(&mut app, &mut world, 101).unwrap();
    assert_eq!(app.state.jobs[0].attempts, 0);
    assert!(voice_command("hello", "Lion").is_none());
    assert!(matches!(voice_command("Lion, pause!", "Lion"), Some(Command::Pause)));
    assert!(matches!(voice_command("Lion undo that", "Lion"), Some(Command::UndoLast)));
    assert!(matches!(voice_command("rm -rf /", ""), Some(Command::Ask { .. })));
}

#[test]
fn daemon_control_remains_available_and_shutdown_persists_preferences() {
    let mut world = World::new(Vec::new());
    let mut app = runtime(config());
    let mut controls = Controls::new(false, false);
    let mut queue = Vec::new();
    let away = Command::Away { enabled: true };
    let reply = control(&away, Json::Null, &mut controls, Ok(()));
    assert!(flag_of(&reply, "accepted"));
    queue.push(away);
    control(&Command::Pause, Json::Null, &mut controls, Ok(()));
    queue.push(Command::Pause);
    let reply = control(&Command::Status, app.status(), &mut controls, Ok(()));
    assert!(flag_of(&reply, "paused_requested"));
    let refused = control(
        &Command::Rundown,
        Json::Null,
        &mut controls,
        Err("sending on a full channel".to_owned()),
    );
    assert_eq!(text_of(&refused, "error"), "control queue full; command not accepted: sending on a full channel");
    control(&Command::Stop, Json::Null, &mut controls, Ok(()));
    queue.push(Command::Stop);
    let mut rounds = 0;
    let (mut stage, mut need) = app.reside();
    loop {
        app.set_controls(controls);
        let event = match need {
            ResidentNeed::Finish(res) => {
                res.unwrap();
                break;
            }
            ResidentNeed::Receive => ResidentEvent::Received {
                command: if queue.is_empty() { None } else { Some(queue.remove(0)) },
            },
            ResidentNeed::Obey(order) => {
                let answer = command(&mut app, &mut world, order, 100);
                controls = app.controls;
                ResidentEvent::Answered { answer }
            }
            ResidentNeed::Listen => ResidentEvent::Answered { answer: Ok(Json::Null) },
            ResidentNeed::Tick => {
                rounds += 1;
                tick(&mut app, &mut world, 100).unwrap();
                ResidentEvent::Ticked { time: 100 }
            }
            ResidentNeed::Report { .. }
            | ResidentNeed::Speak(_)
            | ResidentNeed::Publish(_)
            | ResidentNeed::Save => ResidentEvent::Done,
        };
        (stage, need) = app.reside_on(stage, event);
    }
    assert_eq!(rounds, 0);
    let app = Runtime::new(config(), Some(app.state)).unwrap();
    assert!(app.state.away && app.state.paused);
}

#[test]
fn discord_backfill_keeps_cursor_when_queue_is_full_and_continues_after_restart() {
    let mut cfg = discord_config();
    cfg.agent.max_jobs = 1;
    let mut messages = Vec::new();
    for id in 1001..=1100 {
        let mut message = mention();
        message.id = id.to_string();
        messages.push(message);
    }
    let second: Vec<Message> =
        messages.iter().filter(|m| m.id.parse::<u64>().unwrap() < 1100).cloned().collect();
    let mut world = World::new(vec![channel_reply(&messages), channel_reply(&second)]);
    let mut app = runtime(cfg);
    app.state.discord_cursors.insert("123", "1000".to_owned());
    app.state.next_poll = 0;
    // Backpressure must not advance a channel cursor.
    let work = Work::Ask { text: "later".to_owned() };
    enqueue(&mut app, &world, "busy", work, 999999).unwrap();
    tick(&mut app, &mut world, 100).unwrap();
    assert_eq!(app.state.discord_cursors.get("123").unwrap(), "1000");
    app.state.jobs.clear();
    poll_sources(&mut app, &mut world, 101).unwrap();
    assert_eq!(app.state.jobs.len(), 1);
    assert_eq!(app.state.discord_cursors.get("123").unwrap(), "1000");
    assert_eq!(app.state.discord_backfill.get("123").unwrap().1, "1100");
    let dismiss = Command::Dismiss { job_id: app.state.jobs[0].id.clone() };
    command(&mut app, &mut world, dismiss, 101).unwrap();
    let mut cfg = discord_config();
    cfg.agent.max_jobs = 1;
    let mut app = runtime_with(cfg, Some(app.state));
    poll_sources(&mut app, &mut world, 102).unwrap();
    assert_eq!(app.state.jobs.len(), 1);
    assert_eq!(app.state.discord_backfill.get("123").unwrap().1, "1099");
    assert!(world.requests[1].contains("before=1100"));
}

#[test]
fn discord_rate_limit_delays_retry_without_leaving_uncertain_send_marker() {
    let mut world = World::new(vec![
        channel_reply(&vec![mention()]),
        model(DRAFT),
        (429, r#"{"retry_after":120.5}"#.to_owned()),
    ]);
    let mut app = runtime(discord_config());
    enqueue(&mut app, &world, "limited", question(), 100).unwrap();
    tick(&mut app, &mut world, 100).unwrap();
    assert_eq!(app.state.jobs[0].next_attempt, 221);
    assert!(app.state.jobs[0].action.is_none());
    assert!(app.state.jobs[0].proposal.is_some());
    tick(&mut app, &mut world, 220).unwrap();
    assert_eq!(app.state.jobs[0].attempts, 1);
    assert_eq!(world.requests.len(), 3);
}

#[test]
fn quiet_hours_defer_normal_speech_but_allow_critical_events() {
    let mut cfg = config();
    cfg.voice.enabled = true;
    cfg.agent.voice.quiet_start_utc = Some(22);
    cfg.agent.voice.quiet_end_utc = Some(7);
    let mut app = runtime(cfg);
    app.state.announcements.push(Announcement {
        id: "paper".to_owned(),
        text: "paper".to_owned(),
        detail: "details".to_owned(),
        urgent: false,
    });
    app.state.announcements.push(Announcement {
        id: "critical".to_owned(),
        text: "email".to_owned(),
        detail: "details".to_owned(),
        urgent: true,
    });
    assert_eq!(app.take_announcement(23 * 3600).unwrap().id, "critical");
    assert!(app.take_announcement(23 * 3600).is_none());
    assert_eq!(app.take_announcement(8 * 3600).unwrap().id, "paper");
    assert!(app.take_announcement(8 * 3600).is_none());
}

#[test]
fn missed_rundowns_coalesce_and_budget_exhaustion_does_not_spin() {
    let mut world = World::new(Vec::new());
    let mut cfg = config();
    cfg.agent.research_queries = vec!["ion propulsion".to_owned()];
    let mut app = runtime(cfg);
    app.state.next_rundown = 0;
    app.state.next_research = 100;
    // Queue one due research task without invoking its network step.
    schedule(&mut app, &mut world, 100000).unwrap();
    assert_eq!(app.state.jobs.len(), 1);
    assert_eq!(app.state.next_research, 121600);
    schedule(&mut app, &mut world, 100001).unwrap();
    assert_eq!(app.state.jobs.len(), 1);
}

// ---------------------------------------------------------------------------
// More of the same

#[test]
fn mail_is_found_once_and_queued_with_its_digest() {
    let mut world = World::new(Vec::new());
    let source = mailbox(&mut world, "one", b"Subject: hi\n\nhello");
    mailbox(&mut world, "two", b"Subject: hi\n\nhello");
    let mut cfg = config();
    cfg.agent.email.maildir = Some("/mail".to_owned());
    let mut app = runtime(cfg);
    poll_sources(&mut app, &mut world, 5).unwrap();
    assert_eq!(app.state.jobs.len(), 1);
    let hash = digest(b"Subject: hi\n\nhello");
    assert_eq!(app.state.jobs[0].id, digest(format!("email:/mail:{hash}").as_bytes()));
    assert!(matches!(&app.state.jobs[0].work, Work::Email { path, .. } if *path == source));
}

#[test]
fn papers_are_found_in_the_store() {
    let mut world = World::new(Vec::new());
    world.objects.insert("paper-1.json.gz".to_owned(), Vec::new());
    world.objects.insert("paper-2.json".to_owned(), Vec::new());
    world.objects.insert("email-3.json".to_owned(), Vec::new());
    let mut app = runtime(config());
    poll_sources(&mut app, &mut world, 5).unwrap();
    assert_eq!(app.state.jobs.len(), 1);
    assert_eq!(app.state.jobs[0].id, digest(b"select:paper-1.json.gz"));
}

#[test]
fn failures_back_off_and_end_in_review() {
    let failing = || (500, "{}".to_owned());
    let mut world = World::new(vec![failing(), failing(), failing()]);
    let mut app = runtime(config());
    enqueue(&mut app, &world, "ask", Work::Ask { text: "hello".to_owned() }, 100).unwrap();
    tick(&mut app, &mut world, 100).unwrap();
    assert_eq!(app.state.jobs[0].next_attempt, 160);
    tick(&mut app, &mut world, 159).unwrap();
    assert_eq!(app.state.jobs[0].attempts, 1);
    tick(&mut app, &mut world, 160).unwrap();
    assert_eq!(app.state.jobs[0].next_attempt, 280);
    tick(&mut app, &mut world, 280).unwrap();
    assert_eq!(app.state.jobs[0].status, Status::Review);
    assert_eq!(app.state.model_calls, 3);
    assert_eq!(
        app.state.announcements[0].text,
        "A task needs your review. You can inspect it in the activity history."
    );
}

#[test]
fn an_answer_is_clipped_for_speech_and_kept_whole() {
    let long = "x".repeat(5000);
    let mut world = World::new(vec![model(&long)]);
    let mut app = runtime(config());
    let ask = Command::Ask { text: "hello".to_owned() };
    let reply = command(&mut app, &mut world, ask, 7).unwrap();
    assert_eq!(text_of(&reply, "job_id"), digest(b"ask:7:0:hello"));
    tick(&mut app, &mut world, 7).unwrap();
    assert_eq!(app.state.announcements[0].text.len(), 3900);
    assert_eq!(app.state.announcements[0].detail, long);
    assert!(app.state.jobs.is_empty());
    assert_eq!(app.state.recent.len(), 1);
}

#[test]
fn calls_kept_for_email_are_left_by_other_work() {
    let mut world = World::new(Vec::new());
    let mut app = runtime(config());
    app.state.model_calls = 90;
    enqueue(&mut app, &world, "ask", Work::Ask { text: "hello".to_owned() }, 100).unwrap();
    tick(&mut app, &mut world, 100).unwrap();
    assert_eq!(app.state.jobs[0].error.as_deref(), Some("daily model budget exhausted"));
    assert!(world.requests.is_empty());
}

#[test]
fn a_queue_refuses_what_it_cannot_hold() {
    let mut world = World::new(Vec::new());
    let mut cfg = config();
    cfg.agent.max_jobs = 1;
    let mut app = runtime(cfg);
    let ask = |text: &str| Command::Ask { text: text.to_owned() };
    command(&mut app, &mut world, ask("one"), 1).unwrap();
    let refused = command(&mut app, &mut world, ask("two"), 1).unwrap_err();
    assert_eq!(refused.message(), "agent queue is full; source cursor retained");
    assert_eq!(app.state.jobs.len(), 1);
}

#[test]
fn announcements_stay_within_a_hundred() {
    let mut world = World::new(Vec::new());
    let mut app = runtime(config());
    for i in 0..100 {
        app.announce(&format!("job-{i}"), "text".to_owned(), "detail".to_owned(), false);
    }
    app.announce("job-5", "again".to_owned(), "detail".to_owned(), false);
    assert_eq!(app.state.announcements.len(), 100);
    command(&mut app, &mut world, Command::ReadLast, 9).unwrap();
    assert_eq!(app.state.announcements.len(), 100);
    assert_eq!(app.state.announcements[0].id, "job-1");
    assert_eq!(app.state.announcements[99].id, "read:job-99:9");
}

#[test]
fn finished_jobs_stay_within_thirty() {
    let mut app = runtime(config());
    for i in 0..31 {
        let mut job = Job::new(format!("job-{i}"), Work::Ask { text: "x".to_owned() }, 1);
        job.status = Status::Done;
        app.state.jobs.push(job);
    }
    let mut world = World::new(Vec::new());
    archive(&mut app, &mut world);
    assert!(app.state.jobs.is_empty());
    assert_eq!(app.state.recent.len(), 30);
    assert_eq!(app.state.recent[0].id, "job-1");
}

#[test]
fn interactive_work_comes_first() {
    let mut world = World::new(vec![model("done")]);
    let mut app = runtime(config());
    enqueue(&mut app, &world, "a", Work::Research { query: "x".to_owned() }, 1).unwrap();
    enqueue(&mut app, &world, "b", Work::Ask { text: "hello".to_owned() }, 1).unwrap();
    tick(&mut app, &mut world, 1).unwrap();
    assert_eq!(app.state.recent[0].id, "b");
    assert_eq!(app.state.jobs[0].id, "a");
    tick(&mut app, &mut world, 1).unwrap();
    assert!(app.state.jobs.is_empty());
    assert_eq!(app.state.next_poll, 0);
}

#[test]
fn a_feed_saves_each_paper_once() {
    let mut world = World::new(Vec::new());
    let mut app = runtime(config());
    let paper = Paper {
        source: "web".to_owned(),
        id: "https://example.test/paper".to_owned(),
        title: "Electric propulsion".to_owned(),
        abstract_text: "A new experiment".to_owned(),
        url: "https://example.test/paper".to_owned(),
        published: "2026-09-01".to_owned(),
    };
    world.papers.insert(paper.object(), paper);
    let work = Work::Feed { url: "https://example.test/feed".to_owned() };
    enqueue(&mut app, &world, "feed", work, 1).unwrap();
    tick(&mut app, &mut world, 1).unwrap();
    assert_eq!(
        render(app.state.recent[0].result.as_ref().unwrap()),
        r#"{"saved_candidates":1,"source":"https://example.test/feed"}"#
    );
}

#[test]
fn a_job_that_cannot_be_kept_stays_in_the_queue() {
    let mut app = runtime(config());
    let mut job = Job::new("done".to_owned(), Work::Ask { text: "x".to_owned() }, 1);
    job.status = Status::Done;
    app.state.jobs.push(job);
    let (filing, need) = app.archive_done();
    assert!(matches!(need, FilingNeed::Keep { name, .. } if name == "activity-done.json"));
    let (_, need) = app.archive_on(filing, Err(Failure::Refused(Error::QuotaExhausted)));
    assert!(matches!(need, FilingNeed::Finish(Err(_))));
    assert_eq!(app.state.jobs.len(), 1);
    assert!(app.state.recent.is_empty());
}

#[test]
fn a_batch_attempts_each_job_once() {
    let mut cfg = config();
    cfg.agent.max_jobs = 2;
    let mut world = World::new(vec![model("one")]);
    let mut app = runtime(cfg);
    enqueue(&mut app, &world, "a", Work::Ask { text: "hello".to_owned() }, 1).unwrap();
    let mut done = 0;
    while app.batch_goes_on(done, 1) {
        tick(&mut app, &mut world, 1).unwrap();
        done += 1;
    }
    assert_eq!(done, 1);
    enqueue(&mut app, &world, "b", Work::Ask { text: "hello".to_owned() }, 1).unwrap();
    assert!(app.batch_goes_on(1, 1));
    assert!(!app.batch_goes_on(2, 1));
}

#[test]
fn commands_say_what_they_cannot_do() {
    let mut world = World::new(Vec::new());
    let mut app = runtime(config());
    let id = || "nobody".to_owned();
    let cases = vec![
        (Command::Ask { text: " ".to_owned() }, "request must be 1..16000 bytes"),
        (Command::Research { query: "x".repeat(513) }, "query must be 1..512 bytes"),
        (Command::Retry { job_id: id() }, "no pending/review job with that ID"),
        (Command::Reconcile { job_id: id() }, "unknown job"),
        (Command::Dismiss { job_id: id() }, "unknown job"),
        (Command::UndoLast, "no recent email move to undo"),
        (Command::SummarizeDiscord { channel: None }, "no Discord channel configured"),
        (Command::SummarizeDiscord { channel: Some("5".to_owned()) }, "channel is not configured"),
    ];
    for (order, expected) in cases {
        assert_eq!(command(&mut app, &mut world, order, 1).unwrap_err().message(), expected);
    }
    enqueue(&mut app, &world, "ask", Work::Ask { text: "hello".to_owned() }, 1).unwrap();
    let reconcile = Command::Reconcile { job_id: "ask".to_owned() };
    assert_eq!(
        command(&mut app, &mut world, reconcile, 1).unwrap_err().message(),
        "job has no uncertain Discord action"
    );
}

#[test]
fn a_completed_decision_can_be_made_again() {
    let mut world = World::new(Vec::new());
    let mut app = runtime(config());
    let work = Work::Email { path: "/mail/new/m".to_owned(), hash: "h".to_owned() };
    world.jobs.insert(activity_name("old"), Job::new("old".to_owned(), work, 1));
    let order = Command::Reprocess { job_id: "old".to_owned() };
    let reply = command(&mut app, &mut world, order, 3).unwrap();
    let expected = digest(format!("reprocess:old:3:{}", app.config.agent.email.policy).as_bytes());
    assert_eq!(text_of(&reply, "job_id"), expected);
    assert_eq!(text_of(&reply, "reprocessing"), "old");
    assert!(matches!(app.state.jobs[0].work, Work::Email { .. }));
    let mut moved = app.state.jobs[0].clone();
    moved.action = Some(Json::Null);
    world.jobs.insert(activity_name("moved"), moved);
    let order = Command::Reprocess { job_id: "moved".to_owned() };
    assert_eq!(
        command(&mut app, &mut world, order, 3).unwrap_err().message(),
        "only completed email decisions without move actions can be reprocessed"
    );
}

#[test]
fn only_moved_mail_can_be_undone() {
    let mut world = World::new(Vec::new());
    let mut cfg = config();
    cfg.agent.max_attempts = 1;
    let mut app = runtime(cfg);
    let undo = Work::Undo { job_id: "x".to_owned() };
    enqueue(&mut app, &world, "undo", undo, 1).unwrap();
    tick(&mut app, &mut world, 1).unwrap();
    assert_eq!(app.state.jobs[0].error.as_deref(), Some("email moves are disabled"));
    app.config.agent.email.apply_moves = true;
    let retry = || Command::Retry { job_id: "undo".to_owned() };
    command(&mut app, &mut world, retry(), 2).unwrap();
    tick(&mut app, &mut world, 2).unwrap();
    assert_eq!(app.state.jobs[0].error.as_deref(), Some("no Maildir configured"));
    app.config.agent.email.maildir = Some("/mail".to_owned());
    world.jobs.insert(activity_name("x"), Job::new("x".to_owned(), Work::Ask { text: "x".to_owned() }, 1));
    command(&mut app, &mut world, retry(), 3).unwrap();
    tick(&mut app, &mut world, 3).unwrap();
    assert_eq!(app.state.jobs[0].error.as_deref(), Some("only email moves can be undone"));
    let work = Work::Email { path: "p".to_owned(), hash: "h".to_owned() };
    let mut job = Job::new("x".to_owned(), work, 1);
    world.jobs.insert(activity_name("x"), job.clone());
    command(&mut app, &mut world, retry(), 4).unwrap();
    tick(&mut app, &mut world, 4).unwrap();
    assert_eq!(app.state.jobs[0].error.as_deref(), Some("job did not move an email"));
    job.result = Some(Json::object().with("moved", Json::Bool(true)));
    world.jobs.insert(activity_name("x"), job);
    command(&mut app, &mut world, retry(), 5).unwrap();
    tick(&mut app, &mut world, 5).unwrap();
    assert_eq!(app.state.jobs[0].error.as_deref(), Some("job has no move action"));
}

#[test]
fn questions_are_not_answered_on_first_connection_or_while_present() {
    let mut cfg = discord_config();
    cfg.agent.discord.away = false;
    let mut later = mention();
    later.id = "1002".to_owned();
    let mut world = World::new(vec![
        channel_reply(&vec![mention()]),
        channel_reply(&vec![later, mention()]),
    ]);
    let mut app = runtime(cfg);
    poll_sources(&mut app, &mut world, 1).unwrap();
    assert!(app.state.jobs.is_empty());
    assert_eq!(app.state.discord_cursors.get("123").unwrap(), "1000");
    poll_sources(&mut app, &mut world, 2).unwrap();
    assert!(app.state.jobs.is_empty());
    assert_eq!(app.state.discord_cursors.get("123").unwrap(), "1002");
    assert!(app.state.discord_backfill.get("123").is_none());
}

#[test]
fn a_rate_limited_connector_waits() {
    let mut world = World::new(vec![(429, "{}".to_owned())]);
    let mut app = runtime(discord_config());
    poll_sources(&mut app, &mut world, 100).unwrap();
    assert_eq!(app.state.discord_retry_at, 160);
    assert_eq!(
        app.state.connector_errors.get("discord").unwrap(),
        "service rate limited; retry after 60 seconds"
    );
    poll_sources(&mut app, &mut world, 159).unwrap();
    assert_eq!(world.requests.len(), 1);
    assert!(app.state.connector_errors.get("discord").is_none());
}

#[test]
fn a_draft_is_kept_where_sending_is_not_allowed() {
    let mut cfg = discord_config();
    cfg.agent.discord.allow_send = false;
    let mut world = World::new(vec![channel_reply(&vec![mention()]), model(DRAFT)]);
    let mut app = runtime(cfg);
    enqueue(&mut app, &world, "draft", question(), 100).unwrap();
    tick(&mut app, &mut world, 100).unwrap();
    let result = app.state.recent[0].result.as_ref().unwrap();
    assert_eq!(text_of(result, "reason"), "sending disabled");
    assert_eq!(world.requests.len(), 2);
}

#[test]
fn an_edited_question_is_not_answered() {
    let mut edited = mention();
    edited.content = "<@999> never mind".to_owned();
    let mut world = World::new(vec![channel_reply(&vec![edited])]);
    let mut app = runtime(discord_config());
    enqueue(&mut app, &world, "edited", question(), 100).unwrap();
    tick(&mut app, &mut world, 100).unwrap();
    assert_eq!(
        app.state.jobs[0].error.as_deref(),
        Some("triggering Discord message was edited, deleted, or is no longer eligible")
    );
}

#[test]
fn a_delivered_reply_is_found_again() {
    let mut app = runtime(discord_config());
    let body = discord::payload(&app.config.agent.discord, "1000", "Yes.").unwrap();
    let mut reply = mention();
    reply.id = "1001".to_owned();
    reply.author.id = "999".to_owned();
    reply.content = "I'm the user's AI assistant, replying while they're away.\n\nYes.".to_owned();
    reply.message_reference = Some(Json::object().with("message_id", Json::string("1000")));
    let mut world = World::new(vec![channel_reply(&vec![reply])]);
    let mut job = Job::new("sent".to_owned(), question(), 1);
    job.action = Some(body);
    app.state.jobs.push(job);
    tick(&mut app, &mut world, 1).unwrap();
    let result = app.state.recent[0].result.as_ref().unwrap();
    assert!(flag_of(result, "reconciled"));
    assert_eq!(text_of(result, "message_id"), "1001");
    assert!(world.requests[0].contains("after=1000"));
}

#[test]
fn a_doubtful_draft_is_reviewed_by_the_stronger_model() {
    let doubtful = r#"```json
{"answer":"Maybe.","should_reply":true,"needs_review":true,"reason":"Unsure."}
```"#;
    let mut world =
        World::new(vec![channel_reply(&vec![mention()]), model(doubtful), model(doubtful)]);
    let mut app = runtime(discord_config());
    enqueue(&mut app, &world, "doubt", question(), 100).unwrap();
    tick(&mut app, &mut world, 100).unwrap();
    assert_eq!(app.state.jobs[0].status, Status::Review);
    assert_eq!(app.state.jobs[0].error.as_deref(), Some("Unsure."));
    assert!(world.requests[1].contains("gemini-3-flash"));
    assert!(world.requests[2].contains("gemini-3.1-pro"));
}

#[test]
fn commands_are_acknowledged() {
    let mut app = runtime(config());
    app.state.away = true;
    assert_eq!(
        acknowledgement(&Command::Status, &app).unwrap(),
        "I have 0 tasks waiting and 0 recent completed tasks. Away mode is on."
    );
    assert_eq!(
        acknowledgement(&Command::Away { enabled: false }, &app).unwrap(),
        "Away mode is off."
    );
    assert!(acknowledgement(&Command::Stop, &app).is_none());
}

#[test]
fn a_paper_survives_compression() {
    let packed = compress(b"abstract").unwrap();
    assert_ne!(packed, b"abstract");
    assert_eq!(decompress(&packed, 8).unwrap(), b"abstract");
}

#[test]
fn a_retry_after_a_wait_is_told_in_seconds() {
    assert_eq!(RetryAfter(7).message(), "service rate limited; retry after 7 seconds");
}
