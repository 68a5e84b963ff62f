//! Settings of the assistant.
use crate::agent::config::{
    agent_fault, either, is_sheltered, is_simple, needs, passing, sheltered, simple,
    trusted_address, AgentConfig,
};
use crate::error::{seen, Error, ErrorView};
use crate::link::{self, link_of, linked, Link, LinkView};
use crate::text::{chars_of, digit, is_digit, is_letter, letter};
use vstd::prelude::*;

verus! {

/// All settings.
#[derive(Debug)]
pub struct Config {
    pub agent: AgentConfig,
    pub data_dir: String,
    pub limits: Limits,
    pub models: Models,
    pub voice: Voice,
    pub research: Research,
}

/// What may be used of the machine and of the services.
#[derive(Debug)]
pub struct Limits {
    pub disk_bytes: u64,
    pub reserve_bytes: u64,
    pub max_input_bytes: u64,
    pub max_response_bytes: u64,
    pub max_prompt_bytes: usize,
    pub max_output_tokens: u32,
    pub max_model_calls_per_run: usize,
    pub request_timeout_secs: u64,
    pub poll_secs: u64,
    pub max_emails_per_tick: usize,
}

/// The two models.
#[derive(Debug)]
pub struct Models {
    pub cheap: Model,
    pub advanced: Model,
}

/// Where a model is asked.
#[derive(Debug)]
pub struct Model {
    pub provider: Provider,
    pub model: String,
    pub base_url: String,
    pub api_key_env: String,
}

/// The protocol of a model service.
#[derive(Debug, Clone, Copy, PartialEq, Eq, Structural)]
pub enum Provider {
    Gemini,
    ChatCompletions,
}

/// The speech commands.
#[derive(Debug)]
pub struct Voice {
    pub enabled: bool,
    pub speak_command: Vec<String>,
    pub listen_command: Vec<String>,
    pub timeout_secs: u64,
}

/// How papers are searched.
#[derive(Debug)]
pub struct Research {
    pub max_results: usize,
    pub interval_secs: u64,
    pub download_pdfs: bool,
}

/// A character of a model's name.
pub open spec fn model_char(c: char) -> bool {
    letter(c) || digit(c) || c == '-' || c == '.' || c == '_' || c == '/'
}

/// A model's name.
pub open spec fn model_name(name: Seq<char>) -> bool {
    name.len() > 0 && forall|i: int| 0 <= i < name.len() ==> model_char(#[trigger] name[i])
}

fn is_model_name(name: &str) -> (res: bool)
    ensures
        res == model_name(name@),
{
    let v = chars_of(name);
    let mut i: usize = 0;
    while i < v.len()
        invariant
            v@ == name@,
            i <= v.len(),
            forall|j: int| 0 <= j < i ==> model_char(#[trigger] v@[j]),
        decreases v.len() - i,
    {
        let c = v[i];
        if !(is_letter(c) || is_digit(c) || c == '-' || c == '.' || c == '_' || c == '/') {
            return false;
        }
        i = i + 1;
    }
    v.len() > 0
}

/// What is wrong with a model's address and name.
pub open spec fn model_fault(parsed: Result<LinkView, Seq<char>>, name: Seq<char>) -> Option<
    ErrorView,
> {
    match parsed {
        Err(words) => Some(ErrorView::Outside(words)),
        Ok(link) => either(
            needs(sheltered(link), ErrorView::ModelScheme),
            either(
                needs(simple(link), ErrorView::ModelParts),
                needs(model_name(name), ErrorView::ModelName),
            ),
        ),
    }
}

/// Admits a model whose address was parsed.
pub fn check_model(parsed: Result<Link, String>, name: &str) -> (res: Result<(), Error>)
    ensures
        seen(res) == passing(
            model_fault(
                linked(parsed),
                name@,
            ),
        ),
{
    match parsed {
        Err(words) => Err(Error::Outside(words)),
        Ok(link) => if !is_sheltered(&link) {
            Err(Error::ModelScheme)
        } else if !is_simple(&link) {
            Err(Error::ModelParts)
        } else if !is_model_name(name) {
            Err(Error::ModelName)
        } else {
            Ok(())
        },
    }
}

/// What is wrong with the limits, the pace of research and the speech commands.
pub open spec fn limits_fault(c: Config) -> Option<ErrorView> {
    either(
        needs(
            !c.agent.voice.continuous || (c.voice.enabled && c.voice.listen_command@.len() > 0),
            ErrorView::ContinuousVoice,
        ),
        either(
            needs(0 < c.limits.disk_bytes <= 50_000_000_000, ErrorView::DiskBytes),
            either(
                needs(
                    1_048_576 <= c.limits.reserve_bytes < c.limits.disk_bytes,
                    ErrorView::ReserveBytes,
                ),
                either(
                    needs(1 <= c.limits.max_input_bytes <= 67_108_864, ErrorView::InputLimit),
                    either(
                        needs(
                            1 <= c.limits.max_response_bytes <= 67_108_864,
                            ErrorView::ResponseLimit,
                        ),
                        either(
                            needs(
                                1 <= c.limits.max_prompt_bytes <= 1_000_000,
                                ErrorView::PromptLimit,
                            ),
                            either(
                                needs(
                                    1 <= c.limits.max_output_tokens <= 32_768,
                                    ErrorView::OutputTokens,
                                ),
                                either(
                                    needs(
                                        c.limits.max_model_calls_per_run > 0,
                                        ErrorView::CallBudget,
                                    ),
                                    either(
                                        needs(
                                            1 <= c.limits.request_timeout_secs <= 300,
                                            ErrorView::RequestTimeout,
                                        ),
                                        either(
                                            needs(
                                                c.limits.poll_secs >= 5 && 1
                                                    <= c.limits.max_emails_per_tick <= 1000,
                                                ErrorView::PollingLimits,
                                            ),
                                            either(
                                                needs(
                                                    1 <= c.research.max_results <= 100
                                                        && c.research.interval_secs >= 3,
                                                    ErrorView::ResearchLimits,
                                                ),
                                                needs(
                                                    1 <= c.voice.timeout_secs <= 300,
                                                    ErrorView::VoiceTimeout,
                                                ),
                                            ),
                                        ),
                                    ),
                                ),
                            ),
                        ),
                    ),
                ),
            ),
        ),
    )
}

/// The first thing that is wrong with the settings.
pub open spec fn config_fault(c: Config) -> Option<ErrorView> {
    either(
        agent_fault(c.agent),
        either(
            limits_fault(c),
            either(
                model_fault(link_of(c.models.cheap.base_url@), c.models.cheap.model@),
                model_fault(link_of(c.models.advanced.base_url@), c.models.advanced.model@),
            ),
        ),
    )
}

impl Config {
    fn check_limits(&self) -> (res: Result<(), Error>)
        ensures
            seen(res) == passing(limits_fault(*self)),
    {
        let limits = &self.limits;
        if self.agent.voice.continuous && !(self.voice.enabled && self.voice.listen_command.len()
            > 0) {
            return Err(Error::ContinuousVoice);
        }
        if !(0 < limits.disk_bytes && limits.disk_bytes <= 50_000_000_000) {
            return Err(Error::DiskBytes);
        }
        if !(1_048_576 <= limits.reserve_bytes && limits.reserve_bytes < limits.disk_bytes) {
            return Err(Error::ReserveBytes);
        }
        if !(1 <= limits.max_input_bytes && limits.max_input_bytes <= 67_108_864) {
            return Err(Error::InputLimit);
        }
        if !(1 <= limits.max_response_bytes && limits.max_response_bytes <= 67_108_864) {
            return Err(Error::ResponseLimit);
        }
        if !(1 <= limits.max_prompt_bytes && limits.max_prompt_bytes <= 1_000_000) {
            return Err(Error::PromptLimit);
        }
        if !(1 <= limits.max_output_tokens && limits.max_output_tokens <= 32_768) {
            return Err(Error::OutputTokens);
        }
        if limits.max_model_calls_per_run == 0 {
            return Err(Error::CallBudget);
        }
        if !(1 <= limits.request_timeout_secs && limits.request_timeout_secs <= 300) {
            return Err(Error::RequestTimeout);
        }
        if !(limits.poll_secs >= 5 && 1 <= limits.max_emails_per_tick && limits.max_emails_per_tick
            <= 1000) {
            return Err(Error::PollingLimits);
        }
        if !(1 <= self.research.max_results && self.research.max_results <= 100
            && self.research.interval_secs >= 3) {
            return Err(Error::ResearchLimits);
        }
        if !(1 <= self.voice.timeout_secs && self.voice.timeout_secs <= 300) {
            return Err(Error::VoiceTimeout);
        }
        Ok(())
    }

    /// Admits the settings, or says what is wrong with them first.
    pub fn validate(&self) -> (res: Result<(), Error>)
        ensures
            seen(res) == passing(config_fault(*self)),
    {
        match self.agent.validate() {
            Err(error) => {
                return Err(error);
            },
            Ok(()) => {},
        }
        match self.check_limits() {
            Err(error) => {
                return Err(error);
            },
            Ok(()) => {},
        }
        let cheap = &self.models.cheap;
        match check_model(link::parse(cheap.base_url.as_str()), cheap.model.as_str()) {
            Err(error) => {
                return Err(error);
            },
            Ok(()) => {},
        }
        let advanced = &self.models.advanced;
        check_model(link::parse(advanced.base_url.as_str()), advanced.model.as_str())
    }
}

/// Settings are accepted exactly if all of them are in bounds: those of the agent are, listening
/// all the time comes with a voice and a way to listen, the disk and the reserve leave room, the
/// limits are neither nothing nor too much, and both models have an address that may be asked and a
/// plain name.
pub proof fn law_settings(c: Config)
    ensures
        config_fault(c) is None <==> {
            &&& agent_fault(c.agent) is None
            &&& c.agent.voice.continuous ==> c.voice.enabled && c.voice.listen_command@.len() > 0
            &&& 1 <= c.limits.disk_bytes <= 50_000_000_000
            &&& 1_048_576 <= c.limits.reserve_bytes < c.limits.disk_bytes
            &&& 1 <= c.limits.max_input_bytes <= 67_108_864
            &&& 1 <= c.limits.max_response_bytes <= 67_108_864
            &&& 1 <= c.limits.max_prompt_bytes <= 1_000_000
            &&& 1 <= c.limits.max_output_tokens <= 32_768
            &&& 1 <= c.limits.max_model_calls_per_run
            &&& 1 <= c.limits.request_timeout_secs <= 300
            &&& 5 <= c.limits.poll_secs
            &&& 1 <= c.limits.max_emails_per_tick <= 1000
            &&& 1 <= c.research.max_results <= 100
            &&& 3 <= c.research.interval_secs
            &&& 1 <= c.voice.timeout_secs <= 300
            &&& plain_model(c.models.cheap)
            &&& plain_model(c.models.advanced)
        },
{
    lemma_plain(c.models.cheap);
    lemma_plain(c.models.advanced);
}

/// A model whose service may be asked, and whose name can stand in an address.
pub open spec fn plain_model(model: Model) -> bool {
    &&& trusted_address(model.base_url@)
    &&& model.model@.len() > 0
    &&& forall|i: int|
        0 <= i < model.model@.len() ==> {
            let c = #[trigger] model.model@[i];
            ||| 'a' <= c <= 'z'
            ||| 'A' <= c <= 'Z'
            ||| '0' <= c <= '9'
            ||| c == '-'
            ||| c == '.'
            ||| c == '_'
            ||| c == '/'
        }
}

proof fn lemma_plain(model: Model)
    ensures
        model_fault(link_of(model.base_url@), model.model@) is None <==> plain_model(model),
{
    reveal_strlit("");
    if link_of(model.base_url@) is Ok {
        let link = link_of(model.base_url@)->Ok_0;
        assert(link.username == ""@ <==> link.username.len() == 0) by {
            if link.username.len() == 0 {
                assert(link.username =~= ""@);
            }
        }
    }
    if model_name(model.model@) {
        assert forall|i: int| 0 <= i < model.model@.len() implies {
            let c = #[trigger] model.model@[i];
            ||| 'a' <= c <= 'z'
            ||| 'A' <= c <= 'Z'
            ||| '0' <= c <= '9'
            ||| c == '-'
            ||| c == '.'
            ||| c == '_'
            ||| c == '/'
        } by {
            assert(model_char(model.model@[i]));
        }
    }
    if plain_model(model) {
        assert forall|i: int| 0 <= i < model.model@.len() implies model_char(
            #[trigger] model.model@[i],
        ) by {}
    }
}

/// What settings are refused for is what is wrong with them.
pub proof fn law_faults(c: Config)
    requires
        agent_fault(c.agent) is None,
    ensures
        match config_fault(c) {
            None => true,
            Some(ErrorView::ContinuousVoice) => c.agent.voice.continuous && (!c.voice.enabled
                || c.voice.listen_command@.len() == 0),
            Some(ErrorView::DiskBytes) => !(1 <= c.limits.disk_bytes <= 50_000_000_000),
            Some(ErrorView::ReserveBytes) => c.limits.reserve_bytes < 1_048_576
                || c.limits.reserve_bytes >= c.limits.disk_bytes,
            Some(ErrorView::InputLimit) => !(1 <= c.limits.max_input_bytes <= 67_108_864),
            Some(ErrorView::ResponseLimit) => !(1 <= c.limits.max_response_bytes <= 67_108_864),
            Some(ErrorView::PromptLimit) => !(1 <= c.limits.max_prompt_bytes <= 1_000_000),
            Some(ErrorView::OutputTokens) => !(1 <= c.limits.max_output_tokens <= 32_768),
            Some(ErrorView::CallBudget) => c.limits.max_model_calls_per_run == 0,
            Some(ErrorView::RequestTimeout) => !(1 <= c.limits.request_timeout_secs <= 300),
            Some(ErrorView::PollingLimits) => c.limits.poll_secs < 5 || !(1
                <= c.limits.max_emails_per_tick <= 1000),
            Some(ErrorView::ResearchLimits) => !(1 <= c.research.max_results <= 100)
                || c.research.interval_secs < 3,
            Some(ErrorView::VoiceTimeout) => !(1 <= c.voice.timeout_secs <= 300),
            Some(
                ErrorView::ModelScheme
                | ErrorView::ModelParts
                | ErrorView::ModelName
                | ErrorView::Outside(_),
            ) => !plain_model(c.models.cheap) || !plain_model(c.models.advanced),
            Some(_) => false,
        },
{
    lemma_plain(c.models.cheap);
    lemma_plain(c.models.advanced);
}

/// Settings of the agent that are refused are told of before any others, and a model is refused for
/// an address in the clear, for an address with more than a path, or for its name, in this order.
pub proof fn law_order_of_faults(c: Config, link: LinkView, name: Seq<char>)
    ensures
        agent_fault(c.agent) is Some ==> config_fault(c) == agent_fault(c.agent),
        link.scheme != "https"@ && link.scheme != "http"@ ==> model_fault(Ok(link), name) == Some(
            ErrorView::ModelScheme,
        ),
        link.scheme == "https"@ && (link.username.len() > 0 || link.password is Some || link.query
            is Some || link.fragment is Some) ==> model_fault(Ok(link), name) == Some(
            ErrorView::ModelParts,
        ),
        link.scheme == "https"@ && link.username.len() == 0 && link.password is None && link.query
            is None && link.fragment is None && name.len() == 0 ==> model_fault(Ok(link), name)
            == Some(ErrorView::ModelName),
{
    reveal_strlit("");
    if link.username.len() == 0 {
        assert(link.username =~= ""@);
    }
}

} // verus!
