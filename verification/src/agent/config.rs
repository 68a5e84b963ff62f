//! Settings and commands of the agent.
use crate::agent::discord::{snowflake, snowflake_value};
use crate::error::{seen, Error, ErrorView};
use crate::link::{self, link_of, linked, Link, LinkView};
use crate::text::{blank, byte_len, holds_any, is_blank, maybe, same, size, touches};
use vstd::prelude::*;

verus! {

/// Settings of the agent.
#[derive(Debug)]
pub struct AgentConfig {
    pub rundown_secs: u64,
    pub poll_secs: u64,
    pub research_secs: u64,
    pub max_jobs: usize,
    pub max_attempts: u32,
    pub daily_model_calls: usize,
    pub daily_token_budget: usize,
    pub reserved_email_calls: usize,
    pub max_calls_per_job: usize,
    pub control_dir: String,
    pub interests: String,
    pub research_queries: Vec<String>,
    pub feeds: Vec<String>,
    pub email: EmailConfig,
    pub discord: DiscordConfig,
    pub voice: AgentVoice,
}

/// Settings for email.
#[derive(Debug)]
pub struct EmailConfig {
    pub maildir: Option<String>,
    pub apply_moves: bool,
    pub policy: String,
    pub review_all: bool,
}

/// Settings for Discord.
#[derive(Debug)]
pub struct DiscordConfig {
    pub enabled: bool,
    pub allow_send: bool,
    pub away: bool,
    pub channels: Vec<String>,
    pub bot_id: String,
    pub owner_name: String,
    pub reply_policy: String,
    pub api_base: String,
    pub token_env: String,
}

/// Settings for speech.
#[derive(Debug)]
pub struct AgentVoice {
    pub continuous: bool,
    pub wake_phrase: String,
    /// UTC hours, avoiding dependency on a system timezone database.
    pub quiet_start_utc: Option<u8>,
    pub quiet_end_utc: Option<u8>,
}

/// What a user can ask of the agent.
#[derive(Debug)]
pub enum Command {
    Status,
    Pause,
    Resume,
    Away { enabled: bool },
    Rundown,
    Ask { text: String },
    Research { query: String },
    Undo { job_id: String },
    Retry { job_id: String },
    Reconcile { job_id: String },
    Reprocess { job_id: String },
    Dismiss { job_id: String },
    UndoLast,
    SummarizeDiscord { channel: Option<String> },
    ReadLast,
    Why,
    Listen,
    Stop,
}

/// The words of a [`Command`].
pub enum CommandView {
    Status,
    Pause,
    Resume,
    Away { enabled: bool },
    Rundown,
    Ask { text: Seq<char> },
    Research { query: Seq<char> },
    Undo { job_id: Seq<char> },
    Retry { job_id: Seq<char> },
    Reconcile { job_id: Seq<char> },
    Reprocess { job_id: Seq<char> },
    Dismiss { job_id: Seq<char> },
    UndoLast,
    SummarizeDiscord { channel: Option<Seq<char>> },
    ReadLast,
    Why,
    Listen,
    Stop,
}

impl View for Command {
    type V = CommandView;

    open spec fn view(&self) -> CommandView {
        match self {
            Command::Status => CommandView::Status,
            Command::Pause => CommandView::Pause,
            Command::Resume => CommandView::Resume,
            Command::Away { enabled } => CommandView::Away { enabled: *enabled },
            Command::Rundown => CommandView::Rundown,
            Command::Ask { text } => CommandView::Ask { text: text@ },
            Command::Research { query } => CommandView::Research { query: query@ },
            Command::Undo { job_id } => CommandView::Undo { job_id: job_id@ },
            Command::Retry { job_id } => CommandView::Retry { job_id: job_id@ },
            Command::Reconcile { job_id } => CommandView::Reconcile { job_id: job_id@ },
            Command::Reprocess { job_id } => CommandView::Reprocess { job_id: job_id@ },
            Command::Dismiss { job_id } => CommandView::Dismiss { job_id: job_id@ },
            Command::UndoLast => CommandView::UndoLast,
            Command::SummarizeDiscord { channel } => CommandView::SummarizeDiscord {
                channel: maybe(*channel),
            },
            Command::ReadLast => CommandView::ReadLast,
            Command::Why => CommandView::Why,
            Command::Listen => CommandView::Listen,
            Command::Stop => CommandView::Stop,
        }
    }
}

// ---------------------------------------------------------------------------
// Defaults

impl Default for EmailConfig {
    fn default() -> (res: EmailConfig)
        ensures
            res.maildir is None,
            !res.apply_moves,
            res.review_all,
            res.policy@
                == "Keep financial, legal and security messages critical. Mark deadlines and personal requests important. Group aerospace newsletters as news. Preserve every message; never delete email."@,
    {
        EmailConfig {
            maildir: None,
            apply_moves: false,
            review_all: true,
            policy:
                "Keep financial, legal and security messages critical. Mark deadlines and personal requests important. Group aerospace newsletters as news. Preserve every message; never delete email.".to_owned(),
        }
    }
}

impl Default for DiscordConfig {
    fn default() -> (res: DiscordConfig)
        ensures
            !res.enabled,
            !res.allow_send,
            !res.away,
            res.channels@.len() == 0,
            res.bot_id@ == ""@,
            res.owner_name@ == "the user"@,
            res.reply_policy@
                == "Answer factual questions addressed to the bot. Do not make commitments or disclose private information."@,
            res.api_base@ == "https://discord.com/api/v10"@,
            res.token_env@ == "DISCORD_BOT_TOKEN"@,
    {
        DiscordConfig {
            enabled: false,
            allow_send: false,
            away: false,
            channels: Vec::new(),
            bot_id: "".to_owned(),
            owner_name: "the user".to_owned(),
            reply_policy:
                "Answer factual questions addressed to the bot. Do not make commitments or disclose private information.".to_owned(),
            api_base: "https://discord.com/api/v10".to_owned(),
            token_env: "DISCORD_BOT_TOKEN".to_owned(),
        }
    }
}

impl Default for AgentVoice {
    fn default() -> (res: AgentVoice)
        ensures
            !res.continuous,
            res.wake_phrase@ == ""@,
            res.quiet_start_utc is None,
            res.quiet_end_utc is None,
    {
        AgentVoice {
            continuous: false,
            wake_phrase: "".to_owned(),
            quiet_start_utc: None,
            quiet_end_utc: None,
        }
    }
}

impl AgentConfig {
    /// The settings of an agent whose control socket stands in `control_dir`.
    pub fn default(control_dir: String) -> (res: AgentConfig)
        ensures
            res.rundown_secs == 900,
            res.poll_secs == 30,
            res.research_secs == 21_600,
            res.max_jobs == 200,
            res.max_attempts == 3,
            res.daily_model_calls == 100,
            res.daily_token_budget == 1_000_000,
            res.reserved_email_calls == 10,
            res.max_calls_per_job == 4,
            res.control_dir == control_dir,
            res.interests@ == "Aerospace engineering, spacecraft, aerodynamics and propulsion"@,
            res.research_queries@.len() == 0,
            res.feeds@.len() == 0,
            call_ensures(<EmailConfig as Default>::default, (), res.email),
            call_ensures(<DiscordConfig as Default>::default, (), res.discord),
            call_ensures(<AgentVoice as Default>::default, (), res.voice),
    {
        AgentConfig {
            rundown_secs: 900,
            poll_secs: 30,
            research_secs: 21_600,
            max_jobs: 200,
            max_attempts: 3,
            daily_model_calls: 100,
            daily_token_budget: 1_000_000,
            reserved_email_calls: 10,
            max_calls_per_job: 4,
            control_dir,
            interests: "Aerospace engineering, spacecraft, aerodynamics and propulsion".to_owned(),
            research_queries: Vec::new(),
            feeds: Vec::new(),
            email: EmailConfig::default(),
            discord: DiscordConfig::default(),
            voice: AgentVoice::default(),
        }
    }
}

// ---------------------------------------------------------------------------
// Endpoints

/// An address that stays private: encrypted, or on this machine.
pub open spec fn sheltered(link: LinkView) -> bool {
    ||| link.scheme == "https"@
    ||| link.scheme == "http"@ && (link.host == Some("localhost"@) || link.host == Some(
        "127.0.0.1"@,
    ) || link.host == Some("[::1]"@))
}

/// An address without credentials, query or fragment.
pub open spec fn simple(link: LinkView) -> bool {
    link.username == ""@ && link.password is None && link.query is None && link.fragment is None
}

fn names(text: &Option<String>, word: &str) -> (res: bool)
    ensures
        res == (maybe(*text) == Some(word@)),
{
    match text {
        Some(text) => same(text.as_str(), word),
        None => false,
    }
}

/// Whether the address is encrypted or on this machine.
pub fn is_sheltered(link: &Link) -> (res: bool)
    ensures
        res == sheltered(link@),
{
    same(link.scheme.as_str(), "https") || (same(link.scheme.as_str(), "http") && (names(
        &link.host,
        "localhost",
    ) || names(&link.host, "127.0.0.1") || names(&link.host, "[::1]")))
}

/// Whether the address is without credentials, query and fragment.
pub fn is_simple(link: &Link) -> (res: bool)
    ensures
        res == simple(link@),
{
    same(link.username.as_str(), "") && link.password.is_none() && link.query.is_none()
        && link.fragment.is_none()
}

/// What is wrong with an address to connect to.
pub open spec fn endpoint_fault(parsed: Result<LinkView, Seq<char>>) -> Option<ErrorView> {
    match parsed {
        Err(words) => Some(ErrorView::Outside(words)),
        Ok(link) => if !sheltered(link) {
            Some(ErrorView::EndpointScheme)
        } else if !simple(link) {
            Some(ErrorView::EndpointParts)
        } else {
            None
        },
    }
}

/// A check: nothing is wrong, or the first thing that is.
pub open spec fn passing(fault: Option<ErrorView>) -> Result<(), ErrorView> {
    match fault {
        None => Ok(()),
        Some(error) => Err(error),
    }
}

/// Admits an address that was parsed.
pub fn endpoint_parts(parsed: Result<Link, String>) -> (res: Result<(), Error>)
    ensures
        seen(res) == passing(
            endpoint_fault(
                linked(parsed),
            ),
        ),
{
    match parsed {
        Err(words) => Err(Error::Outside(words)),
        Ok(link) => if !is_sheltered(&link) {
            Err(Error::EndpointScheme)
        } else if !is_simple(&link) {
            Err(Error::EndpointParts)
        } else {
            Ok(())
        },
    }
}

/// Admits an address to connect to: HTTPS, or HTTP to this machine, and nothing but the place.
pub fn endpoint(value: &str) -> (res: Result<(), Error>)
    ensures
        seen(res) == passing(endpoint_fault(link_of(value@))),
{
    endpoint_parts(link::parse(value))
}

// ---------------------------------------------------------------------------
// Validation

/// The fault of the first query that has one.
pub open spec fn query_fault(query: Seq<char>) -> Option<ErrorView> {
    if blank(query) || size(query) > 512 {
        Some(ErrorView::ResearchQuery)
    } else {
        None
    }
}

pub open spec fn snowflake_fault(id: Seq<char>) -> Option<ErrorView> {
    match snowflake_value(id) {
        Ok(_) => None,
        Err(error) => Some(error),
    }
}

/// The first fault among the items, in their order.
pub open spec fn first_fault(faults: Seq<Option<ErrorView>>) -> Option<ErrorView>
    decreases faults.len(),
{
    if faults.len() == 0 {
        None
    } else if faults[0] is Some {
        faults[0]
    } else {
        first_fault(faults.drop_first())
    }
}

pub open spec fn query_faults(queries: Seq<String>) -> Seq<Option<ErrorView>> {
    Seq::new(queries.len(), |i: int| query_fault(queries[i]@))
}

pub open spec fn endpoint_faults(feeds: Seq<String>) -> Seq<Option<ErrorView>> {
    Seq::new(feeds.len(), |i: int| endpoint_fault(link_of(feeds[i]@)))
}

pub open spec fn snowflake_faults(ids: Seq<String>) -> Seq<Option<ErrorView>> {
    Seq::new(ids.len(), |i: int| snowflake_fault(ids[i]@))
}

/// The first of two faults.
pub open spec fn either(first: Option<ErrorView>, second: Option<ErrorView>) -> Option<ErrorView> {
    if first is Some {
        first
    } else {
        second
    }
}

/// A fault unless the condition holds.
pub open spec fn needs(holds: bool, error: ErrorView) -> Option<ErrorView> {
    if holds {
        None
    } else {
        Some(error)
    }
}

/// Two distinct hours of the day, or none.
pub open spec fn quiet_hours(start: Option<u8>, end: Option<u8>) -> bool {
    match (start, end) {
        (None, None) => true,
        (Some(a), Some(b)) => a < 24 && b < 24 && a != b,
        _ => false,
    }
}

/// What is wrong with the Discord settings, where Discord is enabled.
pub open spec fn discord_fault(discord: DiscordConfig) -> Option<ErrorView> {
    if discord.enabled {
        either(
            snowflake_fault(discord.bot_id@),
            either(
                needs(discord.channels@.len() > 0, ErrorView::DiscordChannels),
                first_fault(snowflake_faults(discord.channels@)),
            ),
        )
    } else {
        None
    }
}

/// The first thing that is wrong with the agent's settings.
pub open spec fn agent_fault(c: AgentConfig) -> Option<ErrorView> {
    either(
        needs(
            5 <= c.poll_secs <= 86400 && 5 <= c.rundown_secs <= 604800 && 5 <= c.research_secs
                <= 604800,
            ErrorView::AgentIntervals,
        ),
        either(
            needs(1 <= c.max_jobs <= 1000 && 1 <= c.max_attempts <= 10, ErrorView::QueueLimits),
            either(
                needs(
                    c.daily_model_calls > c.reserved_email_calls && c.daily_token_budget > 0 && 2
                        <= c.max_calls_per_job <= 16,
                    ErrorView::AgentBudget,
                ),
                either(
                    needs(
                        c.research_queries@.len() <= 20 && c.feeds@.len() <= 20
                            && c.discord.channels@.len() <= 20,
                        ErrorView::TooManySources,
                    ),
                    either(
                        needs(
                            size(c.interests@) <= 4000 && size(c.email.policy@) <= 8000 && size(
                                c.discord.reply_policy@,
                            ) <= 4000,
                            ErrorView::PolicyTooLong,
                        ),
                        either(
                            first_fault(query_faults(c.research_queries@)),
                            either(
                                first_fault(endpoint_faults(c.feeds@)),
                                either(
                                    endpoint_fault(link_of(c.discord.api_base@)),
                                    either(
                                        discord_fault(c.discord),
                                        either(
                                            needs(
                                                c.discord.owner_name@.len() > 0 && size(
                                                    c.discord.owner_name@,
                                                ) <= 100 && !touches(
                                                    c.discord.owner_name@,
                                                    "\n\r@"@,
                                                ),
                                                ErrorView::OwnerName,
                                            ),
                                            needs(
                                                quiet_hours(
                                                    c.voice.quiet_start_utc,
                                                    c.voice.quiet_end_utc,
                                                ),
                                                ErrorView::QuietHours,
                                            ),
                                        ),
                                    ),
                                ),
                            ),
                        ),
                    ),
                ),
            ),
        ),
    )
}

fn check_queries(queries: &Vec<String>) -> (res: Result<(), Error>)
    ensures
        seen(res) == passing(first_fault(query_faults(queries@))),
{
    let ghost faults = query_faults(queries@);
    let mut i: usize = 0;
    assert(faults.skip(0) =~= faults);
    while i < queries.len()
        invariant
            i <= queries.len(),
            faults == query_faults(queries@),
            first_fault(faults) == first_fault(faults.skip(i as int)),
        decreases queries.len() - i,
    {
        assert(faults.skip(i as int).drop_first() =~= faults.skip(i + 1));
        if is_blank(queries[i].as_str()) || byte_len(queries[i].as_str()) > 512 {
            return Err(Error::ResearchQuery);
        }
        i = i + 1;
    }
    Ok(())
}

fn check_feeds(feeds: &Vec<String>) -> (res: Result<(), Error>)
    ensures
        seen(res) == passing(first_fault(endpoint_faults(feeds@))),
{
    let ghost faults = endpoint_faults(feeds@);
    let mut i: usize = 0;
    assert(faults.skip(0) =~= faults);
    while i < feeds.len()
        invariant
            i <= feeds.len(),
            faults == endpoint_faults(feeds@),
            first_fault(faults) == first_fault(faults.skip(i as int)),
        decreases feeds.len() - i,
    {
        assert(faults.skip(i as int).drop_first() =~= faults.skip(i + 1));
        match endpoint(feeds[i].as_str()) {
            Err(error) => {
                return Err(error);
            },
            Ok(()) => {},
        }
        i = i + 1;
    }
    Ok(())
}

fn check_snowflakes(ids: &Vec<String>) -> (res: Result<(), Error>)
    ensures
        seen(res) == passing(first_fault(snowflake_faults(ids@))),
{
    let ghost faults = snowflake_faults(ids@);
    let mut i: usize = 0;
    assert(faults.skip(0) =~= faults);
    while i < ids.len()
        invariant
            i <= ids.len(),
            faults == snowflake_faults(ids@),
            first_fault(faults) == first_fault(faults.skip(i as int)),
        decreases ids.len() - i,
    {
        assert(faults.skip(i as int).drop_first() =~= faults.skip(i + 1));
        match snowflake(ids[i].as_str()) {
            Err(error) => {
                return Err(error);
            },
            Ok(_) => {},
        }
        i = i + 1;
    }
    Ok(())
}

fn check_discord(discord: &DiscordConfig) -> (res: Result<(), Error>)
    ensures
        seen(res) == passing(discord_fault(*discord)),
{
    if discord.enabled {
        match snowflake(discord.bot_id.as_str()) {
            Err(error) => {
                return Err(error);
            },
            Ok(_) => {},
        }
        if discord.channels.len() == 0 {
            return Err(Error::DiscordChannels);
        }
        check_snowflakes(&discord.channels)
    } else {
        Ok(())
    }
}

impl AgentConfig {
    /// Admits the agent's settings, or says what is wrong with them first.
    pub fn validate(&self) -> (res: Result<(), Error>)
        ensures
            seen(res) == passing(agent_fault(*self)),
    {
        if !(5 <= self.poll_secs && self.poll_secs <= 86400 && 5 <= self.rundown_secs
            && self.rundown_secs <= 604800 && 5 <= self.research_secs && self.research_secs
            <= 604800) {
            return Err(Error::AgentIntervals);
        }
        if !(1 <= self.max_jobs && self.max_jobs <= 1000 && 1 <= self.max_attempts
            && self.max_attempts <= 10) {
            return Err(Error::QueueLimits);
        }
        if !(self.daily_model_calls > self.reserved_email_calls && self.daily_token_budget > 0 && 2
            <= self.max_calls_per_job && self.max_calls_per_job <= 16) {
            return Err(Error::AgentBudget);
        }
        if !(self.research_queries.len() <= 20 && self.feeds.len() <= 20
            && self.discord.channels.len() <= 20) {
            return Err(Error::TooManySources);
        }
        if !(byte_len(self.interests.as_str()) <= 4000 && byte_len(self.email.policy.as_str())
            <= 8000 && byte_len(self.discord.reply_policy.as_str()) <= 4000) {
            return Err(Error::PolicyTooLong);
        }
        match check_queries(&self.research_queries) {
            Err(error) => {
                return Err(error);
            },
            Ok(()) => {},
        }
        match check_feeds(&self.feeds) {
            Err(error) => {
                return Err(error);
            },
            Ok(()) => {},
        }
        match endpoint(self.discord.api_base.as_str()) {
            Err(error) => {
                return Err(error);
            },
            Ok(()) => {},
        }
        match check_discord(&self.discord) {
            Err(error) => {
                return Err(error);
            },
            Ok(()) => {},
        }
        proof {
            reveal_strlit("");
        }
        let name = self.discord.owner_name.as_str();
        assert(name@ != ""@ <==> name@.len() > 0) by {
            if name@.len() == 0 {
                assert(name@ =~= ""@);
            }
        }
        if !(!same(name, "") && byte_len(name) <= 100 && !holds_any(name, "\n\r@")) {
            return Err(Error::OwnerName);
        }
        let quiet = match (self.voice.quiet_start_utc, self.voice.quiet_end_utc) {
            (None, None) => true,
            (Some(a), Some(b)) => a < 24 && b < 24 && a != b,
            _ => false,
        };
        if !quiet {
            return Err(Error::QuietHours);
        }
        Ok(())
    }
}

// ---------------------------------------------------------------------------
// What settings are in bounds

/// An address that may be asked: encrypted, or on this machine; with nothing in it but where it
/// leads.
pub open spec fn trusted_address(url: Seq<char>) -> bool {
    &&& link_of(url) is Ok
    &&& {
        let link = link_of(url)->Ok_0;
        &&& link.scheme == "https"@ || (link.scheme == "http"@ && (link.host == Some("localhost"@)
            || link.host == Some("127.0.0.1"@) || link.host == Some("[::1]"@)))
        &&& link.username.len() == 0
        &&& link.password is None
        &&& link.query is None
        &&& link.fragment is None
    }
}

proof fn lemma_first_fault(faults: Seq<Option<ErrorView>>)
    ensures
        first_fault(faults) is None <==> forall|i: int|
            0 <= i < faults.len() ==> (#[trigger] faults[i]) is None,
        first_fault(faults) is Some ==> exists|i: int|
            0 <= i < faults.len() && first_fault(faults) == #[trigger] faults[i] && (forall|j: int|
                0 <= j < i ==> (#[trigger] faults[j]) is None),
    decreases faults.len(),
{
    if faults.len() > 0 {
        let rest = faults.drop_first();
        lemma_first_fault(rest);
        if faults[0] is None {
            if first_fault(faults) is None {
                assert forall|i: int| 0 <= i < faults.len() implies (#[trigger] faults[i]) is None by {
                    if i > 0 {
                        assert(rest[i - 1] == faults[i]);
                    }
                }
            } else {
                let k = choose|k: int|
                    0 <= k < rest.len() && first_fault(rest) == #[trigger] rest[k] && (forall|j:
                        int| 0 <= j < k ==> (#[trigger] rest[j]) is None);
                assert(faults[k + 1] == rest[k]);
                assert forall|j: int| 0 <= j < k + 1 implies (#[trigger] faults[j]) is None by {
                    if j > 0 {
                        assert(rest[j - 1] == faults[j]);
                    }
                }
            }
        } else {
            assert(first_fault(faults) == faults[0]);
        }
    }
}

proof fn lemma_trusted(url: Seq<char>)
    ensures
        endpoint_fault(link_of(url)) is None <==> trusted_address(url),
{
    reveal_strlit("");
    if link_of(url) is Ok {
        let link = link_of(url)->Ok_0;
        assert(link.username == ""@ <==> link.username.len() == 0) by {
            if link.username.len() == 0 {
                assert(link.username =~= ""@);
            }
        }
    }
}

/// The settings of the agent are accepted exactly if all of them are in bounds: times between five
/// seconds and a day or a week, a queue of one to a thousand jobs of one to ten attempts, more calls
/// a day than are reserved, two to sixteen calls a job, at most twenty queries, feeds and channels,
/// texts that are not too long, addresses that may be asked, identities that are numbers, a name
/// that mentions nobody, and quiet hours of the clock.
pub proof fn law_agent_settings(c: AgentConfig)
    ensures
        agent_fault(c) is None <==> {
            &&& 5 <= c.poll_secs <= 86400
            &&& 5 <= c.rundown_secs <= 604800
            &&& 5 <= c.research_secs <= 604800
            &&& 1 <= c.max_jobs <= 1000
            &&& 1 <= c.max_attempts <= 10
            &&& c.reserved_email_calls < c.daily_model_calls
            &&& 0 < c.daily_token_budget
            &&& 2 <= c.max_calls_per_job <= 16
            &&& c.research_queries@.len() <= 20
            &&& c.feeds@.len() <= 20
            &&& c.discord.channels@.len() <= 20
            &&& size(c.interests@) <= 4000
            &&& size(c.email.policy@) <= 8000
            &&& size(c.discord.reply_policy@) <= 4000
            &&& forall|i: int|
                0 <= i < c.research_queries@.len() ==> !blank((#[trigger] c.research_queries@[i])@)
                    && size(c.research_queries@[i]@) <= 512
            &&& forall|i: int|
                0 <= i < c.feeds@.len() ==> trusted_address((#[trigger] c.feeds@[i])@)
            &&& trusted_address(c.discord.api_base@)
            &&& c.discord.enabled ==> snowflake_value(c.discord.bot_id@) is Ok
                && c.discord.channels@.len() > 0 && (forall|i: int|
                0 <= i < c.discord.channels@.len() ==> snowflake_value(
                    (#[trigger] c.discord.channels@[i])@,
                ) is Ok)
            &&& 0 < c.discord.owner_name@.len()
            &&& size(c.discord.owner_name@) <= 100
            &&& forall|i: int|
                0 <= i < c.discord.owner_name@.len() ==> #[trigger] c.discord.owner_name@[i] != '\n'
                    && c.discord.owner_name@[i] != '\r' && c.discord.owner_name@[i] != '@'
            &&& c.voice.quiet_start_utc is None <==> c.voice.quiet_end_utc is None
            &&& c.voice.quiet_start_utc is Some ==> c.voice.quiet_start_utc->0 < 24
                && c.voice.quiet_end_utc->0 < 24 && c.voice.quiet_start_utc->0
                != c.voice.quiet_end_utc->0
        },
{
    lemma_first_fault(query_faults(c.research_queries@));
    lemma_first_fault(endpoint_faults(c.feeds@));
    lemma_first_fault(snowflake_faults(c.discord.channels@));
    lemma_trusted(c.discord.api_base@);
    let queries = query_faults(c.research_queries@);
    assert(first_fault(queries) is None <==> forall|i: int|
        0 <= i < c.research_queries@.len() ==> !blank((#[trigger] c.research_queries@[i])@) && size(
            c.research_queries@[i]@,
        ) <= 512) by {
        if first_fault(queries) is None {
            assert forall|i: int| 0 <= i < c.research_queries@.len() implies !blank(
                (#[trigger] c.research_queries@[i])@,
            ) && size(c.research_queries@[i]@) <= 512 by {
                assert(queries[i] is None);
            }
        }
    }
    let feeds = endpoint_faults(c.feeds@);
    assert(first_fault(feeds) is None <==> forall|i: int|
        0 <= i < c.feeds@.len() ==> trusted_address((#[trigger] c.feeds@[i])@)) by {
        if first_fault(feeds) is None {
            assert forall|i: int| 0 <= i < c.feeds@.len() implies trusted_address(
                (#[trigger] c.feeds@[i])@,
            ) by {
                assert(feeds[i] is None);
                lemma_trusted(c.feeds@[i]@);
            }
        } else {
            let i = choose|i: int|
                0 <= i < feeds.len() && first_fault(feeds) == #[trigger] feeds[i] && (forall|j: int|
                    0 <= j < i ==> (#[trigger] feeds[j]) is None);
            lemma_trusted(c.feeds@[i]@);
            assert(!trusted_address(c.feeds@[i]@));
        }
    }
    let ids = snowflake_faults(c.discord.channels@);
    assert(first_fault(ids) is None <==> forall|i: int|
        0 <= i < c.discord.channels@.len() ==> snowflake_value((#[trigger] c.discord.channels@[i])@)
            is Ok) by {
        if first_fault(ids) is None {
            assert forall|i: int| 0 <= i < c.discord.channels@.len() implies snowflake_value(
                (#[trigger] c.discord.channels@[i])@,
            ) is Ok by {
                assert(ids[i] is None);
            }
        }
    }
    lemma_mentions_nobody(c.discord.owner_name@);
}

proof fn lemma_mentions_nobody(name: Seq<char>)
    ensures
        touches(name, "\n\r@"@) <==> exists|i: int|
            0 <= i < name.len() && (#[trigger] name[i] == '\n' || name[i] == '\r' || name[i] == '@'),
{
    reveal_strlit("\n\r@");
    let set = "\n\r@"@;
    assert(set[0] == '\n' && set[1] == '\r' && set[2] == '@');
    assert forall|c: char| #[trigger] set.contains(c) <==> (c == '\n' || c == '\r' || c == '@') by {
        if c == '\n' {
            assert(set[0] == c);
        }
        if c == '\r' {
            assert(set[1] == c);
        }
        if c == '@' {
            assert(set[2] == c);
        }
    }
    if touches(name, set) {
        let i = choose|i: int| 0 <= i < name.len() && set.contains(#[trigger] name[i]);
        assert(name[i] == '\n' || name[i] == '\r' || name[i] == '@');
    }
    if exists|i: int|
        0 <= i < name.len() && (#[trigger] name[i] == '\n' || name[i] == '\r' || name[i] == '@') {
        let i = choose|i: int|
            0 <= i < name.len() && (#[trigger] name[i] == '\n' || name[i] == '\r' || name[i] == '@');
        assert(set.contains(name[i]));
    }
}

/// What the settings of the agent are refused for is what is wrong with them.
pub proof fn law_agent_faults(c: AgentConfig)
    ensures
        match agent_fault(c) {
            None => true,
            Some(ErrorView::AgentIntervals) => !(5 <= c.poll_secs <= 86400) || !(5 <= c.rundown_secs
                <= 604800) || !(5 <= c.research_secs <= 604800),
            Some(ErrorView::QueueLimits) => !(1 <= c.max_jobs <= 1000) || !(1 <= c.max_attempts
                <= 10),
            Some(ErrorView::AgentBudget) => c.daily_model_calls <= c.reserved_email_calls
                || c.daily_token_budget == 0 || !(2 <= c.max_calls_per_job <= 16),
            Some(ErrorView::TooManySources) => c.research_queries@.len() > 20 || c.feeds@.len() > 20
                || c.discord.channels@.len() > 20,
            Some(ErrorView::PolicyTooLong) => size(c.interests@) > 4000 || size(c.email.policy@)
                > 8000 || size(c.discord.reply_policy@) > 4000,
            Some(ErrorView::ResearchQuery) => exists|i: int|
                0 <= i < c.research_queries@.len() && (blank((#[trigger] c.research_queries@[i])@)
                    || size(c.research_queries@[i]@) > 512),
            Some(ErrorView::EndpointScheme | ErrorView::EndpointParts | ErrorView::Outside(_)) =>
            !trusted_address(c.discord.api_base@) || exists|i: int|
                0 <= i < c.feeds@.len() && !trusted_address((#[trigger] c.feeds@[i])@),
            Some(ErrorView::Snowflake | ErrorView::SnowflakeRange) => c.discord.enabled && (
            snowflake_value(c.discord.bot_id@) is Err || exists|i: int|
                0 <= i < c.discord.channels@.len() && snowflake_value(
                    (#[trigger] c.discord.channels@[i])@,
                ) is Err),
            Some(ErrorView::DiscordChannels) => c.discord.enabled && c.discord.channels@.len() == 0,
            Some(ErrorView::OwnerName) => c.discord.owner_name@.len() == 0 || size(
                c.discord.owner_name@,
            ) > 100 || exists|i: int|
                0 <= i < c.discord.owner_name@.len() && (#[trigger] c.discord.owner_name@[i] == '\n'
                    || c.discord.owner_name@[i] == '\r' || c.discord.owner_name@[i] == '@'),
            Some(ErrorView::QuietHours) => c.voice.quiet_start_utc is Some
                || c.voice.quiet_end_utc is Some,
            Some(_) => false,
        },
{
    lemma_first_fault(query_faults(c.research_queries@));
    lemma_first_fault(endpoint_faults(c.feeds@));
    lemma_first_fault(snowflake_faults(c.discord.channels@));
    lemma_trusted(c.discord.api_base@);
    lemma_mentions_nobody(c.discord.owner_name@);
    let feeds = endpoint_faults(c.feeds@);
    if first_fault(feeds) is Some {
        let i = choose|i: int|
            0 <= i < feeds.len() && first_fault(feeds) == #[trigger] feeds[i] && (forall|j: int|
                0 <= j < i ==> (#[trigger] feeds[j]) is None);
        lemma_trusted(c.feeds@[i]@);
        assert(!trusted_address(c.feeds@[i]@));
    }
    let queries = query_faults(c.research_queries@);
    if first_fault(queries) is Some {
        let i = choose|i: int|
            0 <= i < queries.len() && first_fault(queries) == #[trigger] queries[i] && (forall|
                j: int,
            |
                0 <= j < i ==> (#[trigger] queries[j]) is None);
        assert(query_fault(c.research_queries@[i]@) is Some);
    }
    let ids = snowflake_faults(c.discord.channels@);
    if first_fault(ids) is Some {
        let i = choose|i: int|
            0 <= i < ids.len() && first_fault(ids) == #[trigger] ids[i] && (forall|j: int|
                0 <= j < i ==> (#[trigger] ids[j]) is None);
        assert(snowflake_value(c.discord.channels@[i]@) is Err);
    }
}

} // verus!
