use lion_assist::agent::config::{AgentConfig, Command, DiscordConfig};
use lion_assist::agent::daemon::{
    check_response, doctor, is_document, key_present, lookup, socket_path, take_over, Controls,
    Findings, Lookup, ResidentEvent, ResidentNeed, ResidentStage,
};
use lion_assist::agent::discord::{
    self, arrange, receive_before, receive_messages, snowflake, verify_sent, Author, Draft, Message,
};
use lion_assist::agent::email::{self, Decision, MailAction, MailEvent, Move};
use lion_assist::agent::errands::{Need, Reply};
use lion_assist::agent::intake::{SeekEvent, SeekNeed};
use lion_assist::agent::paths;
use lion_assist::agent::research::{self, Entry, Item, Reference, Selection};
use lion_assist::agent::runtime::{structured, voice_command, Runtime};
use lion_assist::agent::state::{Announcement, Job, State, Work};
use lion_assist::base::config::{Config, Limits, Model, Models, Provider, Research, Voice};
use lion_assist::base::limits::digest;
use lion_assist::error::Error;
use lion_assist::failure::Failure;
use lion_assist::json::{parse, render, same_json, Json};
use lion_assist::os::monitor::{receive, Received};
use lion_assist::table::Table;
use lion_assist::tasks::email::Tier;
use lion_assist::text;

fn config() -> Config {
    let model = || Model {
        provider: Provider::Gemini,
        model: "m".to_owned(),
        base_url: "https://example.test".to_owned(),
        api_key_env: "KEY".to_owned(),
    };
    Config {
        agent: AgentConfig::default("/run/lion".to_owned()),
        data_dir: "data".to_owned(),
        limits: Limits {
            disk_bytes: 50_000_000_000,
            reserve_bytes: 1_000_000_000,
            max_input_bytes: 1000,
            max_response_bytes: 1000,
            max_prompt_bytes: 100_000,
            max_output_tokens: 100,
            max_model_calls_per_run: 5,
            request_timeout_secs: 60,
            poll_secs: 30,
            max_emails_per_tick: 20,
        },
        models: Models { cheap: model(), advanced: model() },
        voice: Voice {
            enabled: true,
            speak_command: vec!["say".to_owned()],
            listen_command: vec!["/bin/listen".to_owned()],
            timeout_secs: 30,
        },
        research: Research { max_results: 20, interval_secs: 3, download_pdfs: false },
    }
}

fn runtime() -> Runtime {
    Runtime::new(config(), None).unwrap()
}

fn discord_config() -> DiscordConfig {
    DiscordConfig {
        enabled: true,
        allow_send: true,
        channels: vec!["12".to_owned()],
        bot_id: "9".to_owned(),
        api_base: "https://example.test/api/".to_owned(),
        ..DiscordConfig::default()
    }
}

fn message(id: &str) -> Message {
    Message {
        id: id.to_owned(),
        channel_id: "12".to_owned(),
        author: Author { id: "3".to_owned(), username: "ann".to_owned(), bot: false },
        content: "hello".to_owned(),
        mentions: Vec::new(),
        webhook_id: None,
        message_reference: None,
        nonce: None,
    }
}

// ---------------------------------------------------------------------------
// Moves

fn movement() -> Move {
    Move {
        source: "/mail/new/m".to_owned(),
        destination: "/mail/.Lion-News/cur/x".to_owned(),
        hash: digest(b"hello"),
    }
}

/// Applies a move with these events, and gives back its refusal.
fn applied(movement: Move, events: Vec<MailEvent>) -> String {
    let (mut apply, mut action) = email::apply(movement);
    for event in events {
        assert!(!matches!(action, MailAction::Applied(_)));
        (apply, action) = apply.next(event);
    }
    drop(apply);
    match action {
        MailAction::Applied(Err(error)) => error.message(),
        other => panic!("{other:?}"),
    }
}

fn root() -> MailEvent {
    MailEvent::Root(Some("/mail".to_owned()))
}

fn good_dirs() -> Vec<MailEvent> {
    vec![root(), MailEvent::Directory(true), MailEvent::Directory(true), MailEvent::Directory(true)]
}

#[test]
fn a_move_says_why_it_stops() {
    assert_eq!(applied(movement(), vec![MailEvent::Root(None)]), "Maildir root cannot be a symlink");
    let other = Move { source: "/elsewhere/m".to_owned(), ..movement() };
    assert_eq!(applied(other, vec![root()]), "mail path outside configured Maildir: prefix not found");
    let climbing = Move { source: "/mail/new/../../m".to_owned(), ..movement() };
    assert_eq!(applied(climbing, vec![root()]), "invalid mail path");
    let itself = Move { source: "/mail/".to_owned(), ..movement() };
    assert_eq!(applied(itself, vec![root()]), "missing mail parent");
    assert_eq!(
        applied(movement(), vec![root(), MailEvent::Directory(false)]),
        "Maildir parent must be a real directory"
    );
    let mut events = good_dirs();
    events.push(MailEvent::Exists(true));
    events.push(MailEvent::Bytes(b"other".to_vec()));
    assert_eq!(applied(movement(), events), "destination conflict");
    let mut events = good_dirs();
    events.push(MailEvent::Exists(false));
    events.push(MailEvent::Bytes(b"other".to_vec()));
    assert_eq!(applied(movement(), events), "source changed or missing");
    let mut events = good_dirs();
    events.push(MailEvent::Exists(true));
    events.push(MailEvent::Bytes(b"hello".to_vec()));
    events.push(MailEvent::Exists(false));
    events.push(MailEvent::Bytes(b"other".to_vec()));
    assert_eq!(applied(movement(), events), "move verification failed");
    assert_eq!(applied(movement(), vec![MailEvent::Done]), "unexpected reply");
    let failed = MailEvent::Failed(Error::Outside("gone".to_owned()));
    assert_eq!(applied(movement(), vec![failed]), "gone");
}

#[test]
fn a_move_links_before_it_removes() {
    let (apply, _) = email::apply(movement());
    let mut events = good_dirs();
    events.push(MailEvent::Exists(false));
    events.push(MailEvent::Bytes(b"hello".to_vec()));
    let mut apply = apply;
    let mut action = MailAction::Root;
    for event in events {
        (apply, action) = apply.next(event);
    }
    assert!(matches!(&action, MailAction::Link(from, to) if from == "/mail/new/m" && to == "/mail/.Lion-News/cur/x"));
    let (apply, action) = apply.next(MailEvent::Done);
    assert!(matches!(&action, MailAction::Sync(path) if path == "/mail/.Lion-News/cur/x"));
    let (apply, _) = apply.next(MailEvent::Done);
    let (apply, _) = apply.next(MailEvent::Exists(true));
    let (apply, action) = apply.next(MailEvent::Bytes(b"hello".to_vec()));
    assert!(matches!(&action, MailAction::Remove(path) if path == "/mail/new/m"));
    let (apply, _) = apply.next(MailEvent::Done);
    let (apply, _) = apply.next(MailEvent::Done);
    let (_, action) = apply.next(MailEvent::Bytes(b"hello".to_vec()));
    assert!(matches!(action, MailAction::Applied(Ok(()))));
}

fn planned(source: &str, events: Vec<MailEvent>) -> Result<Move, String> {
    let (mut plan, mut action) = email::plan(source.to_owned(), "h".to_owned(), Tier::Critical);
    for event in events {
        assert!(!matches!(action, MailAction::Planned(_)));
        (plan, action) = plan.next(event);
    }
    drop(plan);
    match action {
        MailAction::Planned(res) => res.map_err(|error| error.message()),
        other => panic!("{other:?}"),
    }
}

fn folders(genuine: [bool; 4]) -> Vec<MailEvent> {
    let mut events = vec![root(), MailEvent::Directory(true)];
    for kind in genuine {
        events.push(MailEvent::Exists(true));
        events.push(MailEvent::Directory(kind));
        if !kind {
            break;
        }
    }
    events
}

#[test]
fn a_plan_keeps_flags_and_checks_folders() {
    let movement = planned("/mail/cur/m:2,RS", folders([true; 4])).unwrap();
    assert_eq!(movement.destination, "/mail/.Lion-Critical/cur/lion-h:2,RS");
    assert_eq!(movement.source, "/mail/cur/m:2,RS");
    let plain = planned("/mail/cur/m", folders([true; 4])).unwrap();
    assert_eq!(plain.destination, "/mail/.Lion-Critical/cur/lion-h:2,");
    assert_eq!(planned("/mail/cur/m:2,1", folders([true; 4])).unwrap_err(), "invalid Maildir flags");
    assert_eq!(
        planned("/mail/cur/m", folders([false, true, true, true])).unwrap_err(),
        "invalid destination folder"
    );
    assert_eq!(
        planned("/mail/cur/m", folders([true, true, false, true])).unwrap_err(),
        "invalid Maildir folder"
    );
    assert_eq!(planned("/mail/cur/m", vec![MailEvent::Root(None)]).unwrap_err(), "Maildir root cannot be a symlink");
}

#[test]
fn paths_are_taken_apart() {
    assert_eq!(paths::split("/a//./b/"), ["a", "b"]);
    assert_eq!(paths::relative("/a", "/a/b/c").unwrap(), ["b", "c"]);
    assert!(paths::relative("/a", "/ab").is_none());
    assert!(paths::relative("/a", "a/b").is_none());
    assert_eq!(paths::join("/", "x"), "/x");
    assert_eq!(paths::safe_parents("/a", "/a/b/c/d").unwrap(), ["/a/b", "/a/b/c"]);
    assert!(paths::safe_parents("/a", "/a/b/../d").is_err());
}

// ---------------------------------------------------------------------------
// Decisions, drafts and selections

#[test]
fn decisions_are_bounded() {
    let decision = |reason: &str, evidence: Vec<String>| Decision {
        tier: Tier::Other,
        reason: reason.to_owned(),
        evidence,
        needs_review: false,
    };
    let quote = || vec!["quote".to_owned()];
    assert!(decision("why", quote()).validate().is_ok());
    assert!(matches!(decision(" ", quote()).validate(), Err(Error::EmailReason)));
    assert!(matches!(decision(&"x".repeat(2001), quote()).validate(), Err(Error::EmailReason)));
    assert!(matches!(decision("why", Vec::new()).validate(), Err(Error::EmailEvidence)));
    assert!(matches!(decision("why", vec!["q".to_owned(); 9]).validate(), Err(Error::EmailEvidence)));
    assert!(matches!(decision("why", vec![String::new()]).validate(), Err(Error::EmailEvidence)));
    assert!(decision("why", quote()).is_quoted("a quote"));
    assert!(!decision("why", quote()).is_quoted("nothing"));
}

#[test]
fn drafts_are_bounded() {
    let draft = |answer: &str, reason: &str| Draft {
        answer: answer.to_owned(),
        should_reply: true,
        needs_review: false,
        reason: reason.to_owned(),
    };
    assert!(draft("yes", "why").validate().is_ok());
    assert!(matches!(draft("yes", "").validate(), Err(Error::DraftShape)));
    assert!(matches!(draft(&"x".repeat(6001), "why").validate(), Err(Error::DraftShape)));
    assert!(matches!(draft(" ", "why").validate(), Err(Error::DraftEmpty)));
    let silent = Draft { should_reply: false, ..draft("", "why") };
    assert!(silent.validate().is_ok());
}

#[test]
fn selections_are_bounded() {
    let selection = |summary: &str, reason: &str| Selection {
        relevant: true,
        needs_review: false,
        summary: summary.to_owned(),
        reason: reason.to_owned(),
    };
    assert!(selection("what", "why").validate().is_ok());
    assert!(matches!(selection("what", " ").validate(), Err(Error::SelectionShape)));
    assert!(matches!(selection(&"x".repeat(3001), "why").validate(), Err(Error::SelectionShape)));
    assert!(matches!(selection(" ", "why").validate(), Err(Error::SelectionSummary)));
}

#[test]
fn evidence_is_of_the_message_that_was_found() {
    let bytes = b"From: a@example.test\nSubject: Invoice\nList-Unsubscribe: <x>\n\nPay now.";
    let evidence = email::evidence(bytes, &digest(bytes)).unwrap();
    assert_eq!(evidence.from, "a@example.test");
    assert_eq!(evidence.heuristic, Tier::Important);
    assert_eq!(evidence.source(), "a@example.test\nInvoice\nPay now.");
    assert!(matches!(email::evidence(bytes, "other"), Err(Error::EmailChanged)));
    let listed = b"Subject: hi\nList-Unsubscribe: <x>\n\nhello";
    assert_eq!(email::evidence(listed, &digest(listed)).unwrap().heuristic, Tier::Other);
}

// ---------------------------------------------------------------------------
// Discord

#[test]
fn identities_are_numbers_of_twenty_digits_at_most() {
    assert_eq!(snowflake("00123").unwrap(), 123);
    assert_eq!(snowflake("18446744073709551615").unwrap(), u64::MAX);
    assert!(matches!(snowflake(""), Err(Error::Snowflake)));
    assert!(matches!(snowflake("12a"), Err(Error::Snowflake)));
    assert!(matches!(snowflake("000000000000000000001"), Err(Error::Snowflake)));
    assert!(matches!(snowflake("18446744073709551616"), Err(Error::SnowflakeRange)));
}

#[test]
fn requests_go_to_enabled_channels_with_a_token() {
    let config = discord_config();
    let token = Ok("t".to_owned());
    let fetch = discord::messages(&config, "12", None, &token).unwrap();
    assert_eq!(fetch.url, "https://example.test/api/channels/12/messages");
    assert_eq!(fetch.authorization, "Bot t");
    assert_eq!(fetch.limit, "100");
    assert!(fetch.position.is_none());
    let fetch = discord::context(&config, "12", "7", &token).unwrap();
    assert_eq!(fetch.limit, "20");
    assert_eq!(fetch.position, Some(("around".to_owned(), "7".to_owned())));
    assert!(matches!(discord::messages(&config, "13", None, &token), Err(Error::ChannelDisabled)));
    assert!(matches!(discord::messages(&config, "12", Some("x"), &token), Err(Error::Snowflake)));
    assert_eq!(
        discord::messages(&config, "12", None, &Err("environment variable not found".to_owned()))
            .unwrap_err()
            .message(),
        "set DISCORD_BOT_TOKEN for Discord: environment variable not found"
    );
    assert!(matches!(
        discord::messages(&config, "12", None, &Ok(" ".to_owned())),
        Err(Error::TokenEmpty)
    ));
    let silent = DiscordConfig { allow_send: false, ..discord_config() };
    assert!(matches!(discord::send(&silent, "12", &token), Err(Error::SendDisabled)));
}

#[test]
fn messages_are_checked_and_arranged() {
    let ids = |list: Vec<Message>| list.into_iter().map(|m| m.id).collect::<Vec<_>>();
    let list = || vec![message("20"), message("3"), message("100")];
    assert_eq!(ids(receive_messages(list(), "12").unwrap()), ["3", "20", "100"]);
    assert_eq!(ids(arrange(list(), true)), ["100", "20", "3"]);
    assert_eq!(ids(receive_before(list()).unwrap()), ["20", "3", "100"]);
    assert!(matches!(receive_messages(list(), "13"), Err(Error::WrongChannel)));
    assert!(matches!(receive_before(vec![message("x")]), Err(Error::Snowflake)));
    assert_eq!(ids(arrange(vec![message("+5"), message("x"), message("4")], false)), ["x", "4", "+5"]);
}

#[test]
fn replies_are_short_and_verified() {
    let config = discord_config();
    let body = discord::payload(&config, "7", " Yes. ").unwrap();
    assert_eq!(
        render(&body),
        r#"{"allowed_mentions":{"parse":[],"replied_user":false},"content":"I'm the user's AI assistant, replying while they're away.\n\nYes.","enforce_nonce":true,"message_reference":{"fail_if_not_exists":true,"message_id":"7"},"nonce":"7"}"#
    );
    assert!(matches!(discord::payload(&config, "7", &"x".repeat(2000)), Err(Error::ReplyLength)));
    assert!(matches!(discord::payload(&config, "x", "Yes."), Err(Error::Snowflake)));
    let mut sent = message("8");
    assert!(matches!(verify_sent(&config, "12", &body, sent.clone()), Err(Error::SendUnverified)));
    sent.author.id = "9".to_owned();
    sent.content = "I'm the user's AI assistant, replying while they're away.\n\nYes.".to_owned();
    assert!(verify_sent(&config, "12", &body, sent).is_ok());
}

#[test]
fn a_question_that_is_none_is_refused() {
    let mut config = config();
    config.agent.discord = DiscordConfig { away: true, ..discord_config() };
    let mut app = Runtime::new(config, None).unwrap();
    let work = Work::Discord { channel: "12".to_owned(), message: Box::new(message("5")) };
    let (_, need) = app.execute(Job::new("q".to_owned(), work, 1), 1);
    assert!(matches!(need, Need::Finish(Err(Failure::Refused(Error::NotEligible)))));
}

// ---------------------------------------------------------------------------
// Research

fn item(link: &str) -> Vec<Item> {
    vec![Item {
        title: "Title".to_owned(),
        link: link.to_owned(),
        description: "<p>Some <i>text</i></p>".to_owned(),
        date: "Today".to_owned(),
    }]
}

#[test]
fn links_of_feeds_are_safe_to_follow() {
    let parse = |link: &str| {
        research::parse("https://example.test/feed", b"x".to_vec(), &Some(item(link)), &None, 10).unwrap()
    };
    assert_eq!(parse("/a#part")[0].url, "https://example.test/a");
    assert_eq!(parse("/a?q=1#part")[0].id, "https://example.test/a?q=1");
    assert_eq!(parse("http://localhost/a")[0].url, "http://localhost/a");
    assert!(parse("http://other.test/a").is_empty());
    assert!(parse("https://user@other.test/a").is_empty());
    assert!(parse("https://[bad").is_empty());
}

#[test]
fn atom_entries_lead_to_their_own_page() {
    let reference = |href: &str, rel: &str| Reference { href: href.to_owned(), rel: rel.to_owned() };
    let entries = vec![Entry {
        title: "Title".to_owned(),
        link: vec![reference("/self", "self"), reference("/page", "alternate")],
        summary: "Text".to_owned(),
        published: "Today".to_owned(),
    }];
    let papers = research::parse(
        "https://example.test/feed",
        b"x".to_vec(),
        &Some(Vec::new()),
        &Some(entries),
        10,
    )
    .unwrap();
    assert_eq!(papers[0].url, "https://example.test/page");
}

#[test]
fn what_is_no_source_is_refused() {
    let parse = |bytes: &[u8]| research::parse("https://example.test/", bytes.to_vec(), &None, &None, 10);
    assert!(matches!(parse(b"<p>no title</p>"), Err(Error::NotASource)));
    assert_eq!(
        parse(b"ab\xff").unwrap_err().message(),
        "invalid utf-8 sequence of 1 bytes from index 2"
    );
    let res = research::parse("nothing", b"x".to_vec(), &Some(item("/a")), &None, 10);
    assert_eq!(res.unwrap_err().message(), "relative URL without a base");
}

#[test]
fn the_text_of_a_page_fits_its_room() {
    assert_eq!(research::text("<p>one <script>two</script> three</p>", 100), "one three");
    assert_eq!(research::text("<p>one three</p>", 8), "one");
    assert_eq!(research::text("<p>one three</p>", 9), "one three");
    assert_eq!(research::text("<p>one</p>", 3), "");
}

// ---------------------------------------------------------------------------
// The agent

#[test]
fn states_of_other_versions_are_refused() {
    let mut state = State::load(None, true).unwrap();
    state.version = 2;
    assert!(matches!(State::load(Some(state), true), Err(Error::StateVersion)));
    assert!(State::save(33_554_432).is_ok());
    assert!(matches!(State::save(33_554_433), Err(Error::CheckpointSize)));
}

#[test]
fn the_state_is_kept_before_a_model_is_asked() {
    let mut app = runtime();
    let job = Job::new("a".to_owned(), Work::Ask { text: "hello".to_owned() }, 1);
    let (errand, need) = app.execute(job, 1);
    assert!(matches!(need, Need::Save));
    assert_eq!(app.state.model_calls, 1);
    assert_eq!(app.state.token_reservations, 95 + 5 + 512 + 100);
    let (_, need) = app.proceed(errand, Reply::Done);
    assert!(matches!(need, Need::Model { .. }));
    let job = Job::new("b".to_owned(), Work::Ask { text: "hello".to_owned() }, 1);
    let (errand, _) = app.execute(job, 1);
    let failed = Failure::Refused(Error::QuotaExhausted);
    let (_, need) = app.proceed(errand, Reply::Failed(failed));
    assert!(matches!(need, Need::Finish(Err(Failure::Refused(Error::QuotaExhausted)))));
}

#[test]
fn a_shutdown_and_a_call_limit_leave_a_job_to_review() {
    let mut app = runtime();
    app.set_controls(Controls { paused: false, away: false, stop: true });
    let ask = || Job::new("a".to_owned(), Work::Ask { text: "hello".to_owned() }, 1);
    let (_, need) = app.execute(ask(), 1);
    assert!(matches!(need, Need::Finish(Err(Failure::Review(reason))) if reason == "shutdown requested before model call"));
    app.set_controls(Controls::new(false, false));
    let mut job = ask();
    job.calls = 4;
    let (_, need) = app.execute(job, 1);
    assert!(matches!(need, Need::Finish(Err(Failure::Review(_)))));
    assert_eq!(app.state.model_calls, 0);
}

#[test]
fn a_mailbox_folder_must_be_a_directory() {
    let mut app = runtime();
    app.config.agent.email.maildir = Some("/mail".to_owned());
    let (seek, need) = app.discover_email(1);
    assert!(matches!(need, SeekNeed::Root { maildir } if maildir == "/mail"));
    let (seek, need) = app.seek_on(seek, SeekEvent::Root("/mail".to_owned()));
    assert!(matches!(need, SeekNeed::OpenMail { name, .. } if name == "new"));
    let (_, need) = app.seek_on(seek, SeekEvent::Opened(false));
    assert!(matches!(need, SeekNeed::Finish(Err(Failure::Refused(Error::MaildirFolder)))));
    let (seek, _) = app.discover_email(1);
    let (_, need) = app.seek_on(seek, SeekEvent::Done);
    assert!(matches!(need, SeekNeed::Finish(Err(Failure::Refused(Error::Unexpected)))));
}

#[test]
fn mail_must_stand_in_the_mailbox() {
    let mut app = runtime();
    let work = || Work::Email { path: "/other/m".to_owned(), hash: "h".to_owned() };
    let (_, need) = app.execute(Job::new("m".to_owned(), work(), 1), 1);
    assert!(matches!(need, Need::Finish(Err(Failure::Refused(Error::MaildirMissing)))));
    app.config.agent.email.maildir = Some("/mail".to_owned());
    let (errand, _) = app.execute(Job::new("m".to_owned(), work(), 1), 1);
    let (_, need) = app.proceed(errand, Reply::Root("/mail".to_owned()));
    assert!(matches!(need, Need::Finish(Err(Failure::Refused(Error::EmailOutside)))));
}

#[test]
fn nothing_is_said_before_the_state_is_kept() {
    let mut app = runtime();
    app.state.announcements.push(Announcement {
        id: "a".to_owned(),
        text: "hello".to_owned(),
        detail: String::new(),
        urgent: false,
    });
    let (stage, need) = app.reside_on(ResidentStage::Ticking, ResidentEvent::Ticked { time: 1 });
    assert!(matches!(need, ResidentNeed::Save));
    assert!(app.state.announcements.is_empty());
    let (stage, need) = app.reside_on(stage, ResidentEvent::Done);
    assert!(matches!(need, ResidentNeed::Speak(text) if text == "hello"));
    let (_, need) = app.reside_on(stage, ResidentEvent::Done);
    assert!(matches!(need, ResidentNeed::Publish(_)));
}

#[test]
fn spoken_commands_are_understood() {
    let heard = |text: &str| voice_command(text, "Lion");
    assert!(matches!(heard("lion: I'm away."), Some(Command::Away { enabled: true })));
    assert!(matches!(heard("LION why is it important?"), Some(Command::Why)));
    assert!(matches!(heard("Lion, research electric propulsion"), Some(Command::Research { query }) if query == "electric propulsion"));
    assert!(matches!(heard("Lion, Find papers about ion drives!"), Some(Command::Research { query }) if query == "ion drives!"));
    assert!(matches!(heard("Lion, summarize Discord"), Some(Command::SummarizeDiscord { channel: None })));
    assert!(heard("Lionel, pause").is_none());
    assert!(heard("Lion").is_none());
    assert!(matches!(voice_command(" Tell me more. ", ""), Some(Command::Ask { text }) if text == "Tell me more."));
}

#[test]
fn known_phrases_are_commands_however_they_are_said() {
    let phrases: [(&str, fn(&Command) -> bool); 12] = [
        ("pause", |c| matches!(c, Command::Pause)),
        ("resume", |c| matches!(c, Command::Resume)),
        ("i'm away", |c| matches!(c, Command::Away { enabled: true })),
        ("i'm back", |c| matches!(c, Command::Away { enabled: false })),
        ("status", |c| matches!(c, Command::Status)),
        ("rundown", |c| matches!(c, Command::Rundown)),
        ("read it", |c| matches!(c, Command::ReadLast)),
        ("why", |c| matches!(c, Command::Why)),
        ("stop", |c| matches!(c, Command::Stop)),
        ("undo that", |c| matches!(c, Command::UndoLast)),
        ("listen", |c| matches!(c, Command::Listen)),
        ("summarize discord", |c| matches!(c, Command::SummarizeDiscord { channel: None })),
    ];
    for (phrase, is_it) in phrases {
        for said in [phrase.to_owned(), phrase.to_uppercase(), format!(" \t{phrase}?!.\n")] {
            assert!(is_it(&voice_command(&said, "").unwrap()));
        }
        let called = format!("LION,: {}...", phrase.to_uppercase());
        assert!(is_it(&voice_command(&called, "Lion").unwrap()));
    }
}

#[test]
fn fences_are_taken_off() {
    assert_eq!(structured(" {\"a\":1} "), "{\"a\":1}");
    assert_eq!(structured("```json\n{}\n```"), "{}");
    assert_eq!(structured("```\n{}\n```"), "{}");
    assert_eq!(structured("```json\n{}"), "```json\n{}");
}

#[test]
fn heeding_a_command_twice_is_heeding_it_once() {
    let mut controls = Controls::new(false, false);
    controls.immediate(&Command::Pause);
    let once = controls;
    controls.immediate(&Command::Pause);
    assert_eq!(controls, once);
    controls.immediate(&Command::Rundown);
    assert_eq!(controls, once);
}

// ---------------------------------------------------------------------------
// The control socket and the doctor

#[test]
fn the_socket_stands_in_a_private_place() {
    assert_eq!(socket_path(true, "/run/lion", "/data").unwrap(), "/run/lion/agent.sock");
    assert!(matches!(socket_path(false, "/run/lion", "/data"), Err(Error::ControlDirectory)));
    assert!(matches!(socket_path(true, "/data/run", "/data"), Err(Error::ControlInsideData)));
    let long = format!("/{}", "x".repeat(88));
    assert!(matches!(socket_path(true, &long, "/data"), Err(Error::ControlPathLength)));
    assert!(socket_path(true, &long[..88], "/data").is_ok());
    assert!(matches!(take_over(false, false), Err(Error::ControlNotSocket)));
    assert!(matches!(take_over(true, true), Err(Error::ControlActive)));
    assert!(take_over(true, false).is_ok());
    assert!(matches!(check_response(33_554_433), Err(Error::ControlResponse)));
    assert!(is_document("  {\"command\":\"pause\"}"));
    assert!(!is_document("pause"));
}

#[test]
fn the_doctor_tells_what_is_set_up() {
    let config = config();
    let found = Findings {
        cheap_key: true,
        advanced_key: false,
        maildir: false,
        discord_token: false,
        speech: true,
        listening: false,
    };
    let value = doctor(&config, found);
    assert!(matches!(value.get("cheap_model_key_present"), Some(Json::Bool(true))));
    assert!(matches!(value.get("maildir_configured"), Some(Json::Null)));
    assert!(matches!(value.get("research_sources"), Some(Json::Number(n)) if n == "0"));
    assert!(matches!(lookup(&config.voice.speak_command), Lookup::Path(name) if name == "say"));
    assert!(matches!(lookup(&config.voice.listen_command), Lookup::File(path) if path == "/bin/listen"));
    assert!(matches!(lookup(&Vec::new()), Lookup::Nowhere));
    assert!(key_present(&Some("k".to_owned())));
    assert!(!key_present(&Some(" ".to_owned())));
}

// ---------------------------------------------------------------------------
// Replies, documents, tables and texts

#[test]
fn replies_are_sorted() {
    let wait = |code, seconds| match receive(code, Vec::new(), seconds, 10) {
        Received::Later(retry) => retry.0,
        other => panic!("{other:?}"),
    };
    assert_eq!(wait(429, Some(0)), 1);
    assert_eq!(wait(429, Some(5)), 5);
    assert_eq!(wait(429, None), 60);
    assert!(matches!(receive(500, Vec::new(), None, 10), Received::Status(500)));
    assert!(matches!(receive(302, Vec::new(), None, 10), Received::Status(302)));
    assert!(matches!(receive(204, vec![1], None, 10), Received::Body(body) if body == [1]));
    assert!(matches!(receive(200, vec![0; 11], None, 10), Received::Refused(Error::InputExceeds(10))));
}

#[test]
fn documents_are_read_and_written() {
    let value = parse(br#"{"b":[1,2.5,null,true],"a":"x"}"#).unwrap();
    assert_eq!(render(&value), r#"{"a":"x","b":[1,2.5,null,true]}"#);
    assert!(same_json(&value, &value.clone()));
    assert!(!same_json(&value, &Json::Null));
    assert_eq!(
        parse(b"{").unwrap_err(),
        "EOF while parsing an object at line 1 column 1"
    );
    assert_eq!(render(&Json::object().with("b", Json::number(7)).with("a", Json::string("\""))), r#"{"a":"\"","b":7}"#);
}

#[test]
fn tables_hold_one_value_for_each_key() {
    let mut table: Table<String> = Table::new();
    table.insert("a", "1".to_owned());
    table.insert("b", "2".to_owned());
    table.insert("a", "3".to_owned());
    assert_eq!(table.get("a").unwrap(), "3");
    assert_eq!(table.get("b").unwrap(), "2");
    assert_eq!(table.entries.len(), 2);
    table.remove("a");
    assert!(table.get("a").is_none());
    assert_eq!(table.get("b").unwrap(), "2");
}

#[test]
fn texts_are_clipped_between_characters() {
    assert_eq!(text::clip("aé", 2), "a");
    assert_eq!(text::clip("aé", 3), "aé");
    assert_eq!(text::clip("é", 0), "");
    assert_eq!(text::trim("\u{3000} a \n"), "a");
    assert_eq!(text::split_words(" a\u{a0}b  c"), ["a", "b", "c"]);
    assert_eq!(text::replace("aaa", "aa", "b"), "ba");
    assert_eq!(text::decimal(u64::MAX), "18446744073709551615");
}
