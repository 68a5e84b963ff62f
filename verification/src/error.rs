//! What can be refused, and the words for it.
use crate::text::{decimal, numeral};
use vstd::prelude::*;

verus! {

/// Why a request was refused.
#[derive(Debug)]
pub enum Error {
    /// An input of more than this many bytes.
    InputExceeds(u64),
    /// This environment variable holds no model key.
    KeyUnset { name: String, words: String },
    /// This environment variable holds no Discord token.
    TokenUnset { name: String, words: String },
    /// No token for the conversations of a bot is set.
    BotTokenUnset(String),
    /// An outside parser's own words.
    Outside(String),
    EndpointScheme,
    EndpointParts,
    AgentIntervals,
    QueueLimits,
    AgentBudget,
    TooManySources,
    PolicyTooLong,
    ResearchQuery,
    DiscordChannels,
    OwnerName,
    QuietHours,
    ContinuousVoice,
    DiskBytes,
    ReserveBytes,
    InputLimit,
    ResponseLimit,
    PromptLimit,
    OutputTokens,
    CallBudget,
    RequestTimeout,
    PollingLimits,
    ResearchLimits,
    VoiceTimeout,
    ModelScheme,
    ModelParts,
    ModelName,
    ControlDirectory,
    ControlInsideData,
    ControlPathLength,
    ControlResponse,
    ControlNotSocket,
    ControlActive,
    ControlQueueFull(String),
    Snowflake,
    SnowflakeRange,
    TokenEmpty,
    ChannelDisabled,
    WrongChannel,
    DraftShape,
    DraftEmpty,
    ReplyLength,
    SendDisabled,
    SendUnverified,
    EmailReason,
    EmailEvidence,
    EmailChanged,
    MimeBoundaries,
    MailRootSymlink,
    MailOutside,
    MailPath,
    MailParent,
    MailParentKind,
    DestinationFolder,
    MaildirFolder,
    MaildirFlags,
    DestinationConflict,
    SourceMissing,
    SourceChanged,
    MoveUnverified,
    NotASource,
    SelectionShape,
    SelectionSummary,
    QueueFull,
    MovesDisabled,
    NoMaildir,
    OnlyEmailUndo,
    NothingMoved,
    NoMoveAction,
    MaildirMissing,
    EmailOutside,
    EvidenceAbsent,
    NotEligible,
    TriggerGone,
    RequestLength,
    QueryLength,
    NoSuchReview,
    OnlyReconcile,
    UnknownJob,
    NoUncertainSend,
    OnlyReprocess,
    NoRecentMove,
    NoChannel,
    ChannelUnknown,
    StateVersion,
    CheckpointSize,
    NotRegular,
    StorageBudget,
    DataSymlink,
    LockFile,
    ExistingData,
    ObjectName,
    QuotaExhausted,
    AllocationExceeded,
    SymlinkForbidden,
    SizeOverflow,
    SpecialForbidden,
    PromptSize,
    CallsExhausted,
    KeyEmpty,
    SystemPromptSize,
    NoModelText,
    EmptyModelText,
    Cancelled,
    CrossrefShape,
    ResearchQueryLength,
    SourcesFailed,
    ArxivId,
    ArxivPdfId,
    NotPdf,
    ChannelId,
    NoMessages,
    NoContent,
    ConversationSize,
    VoiceCommand,
    SpeechLength,
    TranscriptSize,
    VoiceDisabled,
    TranscriptEmpty,
    EventSize,
    Unexpected,
}

/// The words of an [`Error`].
pub enum ErrorView {
    InputExceeds(u64),
    KeyUnset { name: Seq<char>, words: Seq<char> },
    TokenUnset { name: Seq<char>, words: Seq<char> },
    BotTokenUnset(Seq<char>),
    Outside(Seq<char>),
    EndpointScheme,
    EndpointParts,
    AgentIntervals,
    QueueLimits,
    AgentBudget,
    TooManySources,
    PolicyTooLong,
    ResearchQuery,
    DiscordChannels,
    OwnerName,
    QuietHours,
    ContinuousVoice,
    DiskBytes,
    ReserveBytes,
    InputLimit,
    ResponseLimit,
    PromptLimit,
    OutputTokens,
    CallBudget,
    RequestTimeout,
    PollingLimits,
    ResearchLimits,
    VoiceTimeout,
    ModelScheme,
    ModelParts,
    ModelName,
    ControlDirectory,
    ControlInsideData,
    ControlPathLength,
    ControlResponse,
    ControlNotSocket,
    ControlActive,
    ControlQueueFull(Seq<char>),
    Snowflake,
    SnowflakeRange,
    TokenEmpty,
    ChannelDisabled,
    WrongChannel,
    DraftShape,
    DraftEmpty,
    ReplyLength,
    SendDisabled,
    SendUnverified,
    EmailReason,
    EmailEvidence,
    EmailChanged,
    MimeBoundaries,
    MailRootSymlink,
    MailOutside,
    MailPath,
    MailParent,
    MailParentKind,
    DestinationFolder,
    MaildirFolder,
    MaildirFlags,
    DestinationConflict,
    SourceMissing,
    SourceChanged,
    MoveUnverified,
    NotASource,
    SelectionShape,
    SelectionSummary,
    QueueFull,
    MovesDisabled,
    NoMaildir,
    OnlyEmailUndo,
    NothingMoved,
    NoMoveAction,
    MaildirMissing,
    EmailOutside,
    EvidenceAbsent,
    NotEligible,
    TriggerGone,
    RequestLength,
    QueryLength,
    NoSuchReview,
    OnlyReconcile,
    UnknownJob,
    NoUncertainSend,
    OnlyReprocess,
    NoRecentMove,
    NoChannel,
    ChannelUnknown,
    StateVersion,
    CheckpointSize,
    NotRegular,
    StorageBudget,
    DataSymlink,
    LockFile,
    ExistingData,
    ObjectName,
    QuotaExhausted,
    AllocationExceeded,
    SymlinkForbidden,
    SizeOverflow,
    SpecialForbidden,
    PromptSize,
    CallsExhausted,
    KeyEmpty,
    SystemPromptSize,
    NoModelText,
    EmptyModelText,
    Cancelled,
    CrossrefShape,
    ResearchQueryLength,
    SourcesFailed,
    ArxivId,
    ArxivPdfId,
    NotPdf,
    ChannelId,
    NoMessages,
    NoContent,
    ConversationSize,
    VoiceCommand,
    SpeechLength,
    TranscriptSize,
    VoiceDisabled,
    TranscriptEmpty,
    EventSize,
    Unexpected,
}

impl View for Error {
    type V = ErrorView;

    open spec fn view(&self) -> ErrorView {
        match self {
            Error::InputExceeds(n) => ErrorView::InputExceeds(*n),
            Error::KeyUnset { name, words } => ErrorView::KeyUnset { name: name@, words: words@ },
            Error::TokenUnset { name, words } => ErrorView::TokenUnset {
                name: name@,
                words: words@,
            },
            Error::BotTokenUnset(words) => ErrorView::BotTokenUnset(words@),
            Error::Outside(text) => ErrorView::Outside(text@),
            Error::EndpointScheme => ErrorView::EndpointScheme,
            Error::EndpointParts => ErrorView::EndpointParts,
            Error::AgentIntervals => ErrorView::AgentIntervals,
            Error::QueueLimits => ErrorView::QueueLimits,
            Error::AgentBudget => ErrorView::AgentBudget,
            Error::TooManySources => ErrorView::TooManySources,
            Error::PolicyTooLong => ErrorView::PolicyTooLong,
            Error::ResearchQuery => ErrorView::ResearchQuery,
            Error::DiscordChannels => ErrorView::DiscordChannels,
            Error::OwnerName => ErrorView::OwnerName,
            Error::QuietHours => ErrorView::QuietHours,
            Error::ContinuousVoice => ErrorView::ContinuousVoice,
            Error::DiskBytes => ErrorView::DiskBytes,
            Error::ReserveBytes => ErrorView::ReserveBytes,
            Error::InputLimit => ErrorView::InputLimit,
            Error::ResponseLimit => ErrorView::ResponseLimit,
            Error::PromptLimit => ErrorView::PromptLimit,
            Error::OutputTokens => ErrorView::OutputTokens,
            Error::CallBudget => ErrorView::CallBudget,
            Error::RequestTimeout => ErrorView::RequestTimeout,
            Error::PollingLimits => ErrorView::PollingLimits,
            Error::ResearchLimits => ErrorView::ResearchLimits,
            Error::VoiceTimeout => ErrorView::VoiceTimeout,
            Error::ModelScheme => ErrorView::ModelScheme,
            Error::ModelParts => ErrorView::ModelParts,
            Error::ModelName => ErrorView::ModelName,
            Error::ControlDirectory => ErrorView::ControlDirectory,
            Error::ControlInsideData => ErrorView::ControlInsideData,
            Error::ControlPathLength => ErrorView::ControlPathLength,
            Error::ControlResponse => ErrorView::ControlResponse,
            Error::ControlNotSocket => ErrorView::ControlNotSocket,
            Error::ControlActive => ErrorView::ControlActive,
            Error::ControlQueueFull(words) => ErrorView::ControlQueueFull(words@),
            Error::Snowflake => ErrorView::Snowflake,
            Error::SnowflakeRange => ErrorView::SnowflakeRange,
            Error::TokenEmpty => ErrorView::TokenEmpty,
            Error::ChannelDisabled => ErrorView::ChannelDisabled,
            Error::WrongChannel => ErrorView::WrongChannel,
            Error::DraftShape => ErrorView::DraftShape,
            Error::DraftEmpty => ErrorView::DraftEmpty,
            Error::ReplyLength => ErrorView::ReplyLength,
            Error::SendDisabled => ErrorView::SendDisabled,
            Error::SendUnverified => ErrorView::SendUnverified,
            Error::EmailReason => ErrorView::EmailReason,
            Error::EmailEvidence => ErrorView::EmailEvidence,
            Error::EmailChanged => ErrorView::EmailChanged,
            Error::MimeBoundaries => ErrorView::MimeBoundaries,
            Error::MailRootSymlink => ErrorView::MailRootSymlink,
            Error::MailOutside => ErrorView::MailOutside,
            Error::MailPath => ErrorView::MailPath,
            Error::MailParent => ErrorView::MailParent,
            Error::MailParentKind => ErrorView::MailParentKind,
            Error::DestinationFolder => ErrorView::DestinationFolder,
            Error::MaildirFolder => ErrorView::MaildirFolder,
            Error::MaildirFlags => ErrorView::MaildirFlags,
            Error::DestinationConflict => ErrorView::DestinationConflict,
            Error::SourceMissing => ErrorView::SourceMissing,
            Error::SourceChanged => ErrorView::SourceChanged,
            Error::MoveUnverified => ErrorView::MoveUnverified,
            Error::NotASource => ErrorView::NotASource,
            Error::SelectionShape => ErrorView::SelectionShape,
            Error::SelectionSummary => ErrorView::SelectionSummary,
            Error::QueueFull => ErrorView::QueueFull,
            Error::MovesDisabled => ErrorView::MovesDisabled,
            Error::NoMaildir => ErrorView::NoMaildir,
            Error::OnlyEmailUndo => ErrorView::OnlyEmailUndo,
            Error::NothingMoved => ErrorView::NothingMoved,
            Error::NoMoveAction => ErrorView::NoMoveAction,
            Error::MaildirMissing => ErrorView::MaildirMissing,
            Error::EmailOutside => ErrorView::EmailOutside,
            Error::EvidenceAbsent => ErrorView::EvidenceAbsent,
            Error::NotEligible => ErrorView::NotEligible,
            Error::TriggerGone => ErrorView::TriggerGone,
            Error::RequestLength => ErrorView::RequestLength,
            Error::QueryLength => ErrorView::QueryLength,
            Error::NoSuchReview => ErrorView::NoSuchReview,
            Error::OnlyReconcile => ErrorView::OnlyReconcile,
            Error::UnknownJob => ErrorView::UnknownJob,
            Error::NoUncertainSend => ErrorView::NoUncertainSend,
            Error::OnlyReprocess => ErrorView::OnlyReprocess,
            Error::NoRecentMove => ErrorView::NoRecentMove,
            Error::NoChannel => ErrorView::NoChannel,
            Error::ChannelUnknown => ErrorView::ChannelUnknown,
            Error::StateVersion => ErrorView::StateVersion,
            Error::CheckpointSize => ErrorView::CheckpointSize,
            Error::NotRegular => ErrorView::NotRegular,
            Error::StorageBudget => ErrorView::StorageBudget,
            Error::DataSymlink => ErrorView::DataSymlink,
            Error::LockFile => ErrorView::LockFile,
            Error::ExistingData => ErrorView::ExistingData,
            Error::ObjectName => ErrorView::ObjectName,
            Error::QuotaExhausted => ErrorView::QuotaExhausted,
            Error::AllocationExceeded => ErrorView::AllocationExceeded,
            Error::SymlinkForbidden => ErrorView::SymlinkForbidden,
            Error::SizeOverflow => ErrorView::SizeOverflow,
            Error::SpecialForbidden => ErrorView::SpecialForbidden,
            Error::PromptSize => ErrorView::PromptSize,
            Error::CallsExhausted => ErrorView::CallsExhausted,
            Error::KeyEmpty => ErrorView::KeyEmpty,
            Error::SystemPromptSize => ErrorView::SystemPromptSize,
            Error::NoModelText => ErrorView::NoModelText,
            Error::EmptyModelText => ErrorView::EmptyModelText,
            Error::Cancelled => ErrorView::Cancelled,
            Error::CrossrefShape => ErrorView::CrossrefShape,
            Error::ResearchQueryLength => ErrorView::ResearchQueryLength,
            Error::SourcesFailed => ErrorView::SourcesFailed,
            Error::ArxivId => ErrorView::ArxivId,
            Error::ArxivPdfId => ErrorView::ArxivPdfId,
            Error::NotPdf => ErrorView::NotPdf,
            Error::ChannelId => ErrorView::ChannelId,
            Error::NoMessages => ErrorView::NoMessages,
            Error::NoContent => ErrorView::NoContent,
            Error::ConversationSize => ErrorView::ConversationSize,
            Error::VoiceCommand => ErrorView::VoiceCommand,
            Error::SpeechLength => ErrorView::SpeechLength,
            Error::TranscriptSize => ErrorView::TranscriptSize,
            Error::VoiceDisabled => ErrorView::VoiceDisabled,
            Error::TranscriptEmpty => ErrorView::TranscriptEmpty,
            Error::EventSize => ErrorView::EventSize,
            Error::Unexpected => ErrorView::Unexpected,
        }
    }
}

/// A result, with what an error says in its place.
pub open spec fn seen<T>(res: Result<T, Error>) -> Result<T, ErrorView> {
    match res {
        Ok(value) => Ok(value),
        Err(error) => Err(error@),
    }
}

impl ErrorView {
    /// The message for a reader.
    pub open spec fn text(self) -> Seq<char> {
        match self {
            ErrorView::InputExceeds(n) => "input exceeds "@ + numeral(n as nat) + " bytes"@,
            ErrorView::KeyUnset { name, words } => "set "@ + name + " to enable model calls: "@ + words,
            ErrorView::TokenUnset { name, words } => "set "@ + name + " for Discord: "@ + words,
            ErrorView::BotTokenUnset(words) =>
            "set DISCORD_BOT_TOKEN; personal user tokens are unsupported: "@ + words,
            ErrorView::Outside(text) => text,
            ErrorView::EndpointScheme => "endpoint requires HTTPS or localhost HTTP"@,
            ErrorView::EndpointParts => "endpoint cannot contain credentials, query or fragment"@,
            ErrorView::AgentIntervals => "invalid agent intervals"@,
            ErrorView::QueueLimits => "invalid queue limits"@,
            ErrorView::AgentBudget => "invalid agent model budget"@,
            ErrorView::TooManySources => "too many configured sources"@,
            ErrorView::PolicyTooLong => "policy too long"@,
            ErrorView::ResearchQuery => "invalid research query"@,
            ErrorView::DiscordChannels => "Discord requires configured channels"@,
            ErrorView::OwnerName => "invalid Discord owner name"@,
            ErrorView::QuietHours => "quiet hours require distinct start/end UTC hours within 0..23"@,
            ErrorView::ContinuousVoice => "continuous voice requires voice.enabled and a listen_command"@,
            ErrorView::DiskBytes => "disk_bytes must be within 1..=50,000,000,000 (decimal GB)"@,
            ErrorView::ReserveBytes => "reserve_bytes must leave at least 1 MiB for overhead and be below disk_bytes"@,
            ErrorView::InputLimit => "input limit must be 1..=64 MiB"@,
            ErrorView::ResponseLimit => "response limit must be 1..=64 MiB"@,
            ErrorView::PromptLimit => "invalid prompt limit"@,
            ErrorView::OutputTokens => "invalid output token limit"@,
            ErrorView::CallBudget => "model call budget must be positive"@,
            ErrorView::RequestTimeout => "request timeout must be 1..=300 seconds"@,
            ErrorView::PollingLimits => "invalid polling limits"@,
            ErrorView::ResearchLimits => "research requires 1..=100 results and >=3 seconds between requests"@,
            ErrorView::VoiceTimeout => "invalid voice timeout"@,
            ErrorView::ModelScheme => "model endpoint must use HTTPS or localhost HTTP"@,
            ErrorView::ModelParts => "model base URL must not contain credentials, query or fragment"@,
            ErrorView::ModelName => "invalid model identifier"@,
            ErrorView::ControlDirectory => "control_dir must be a private directory owned by this user (mode 0700)"@,
            ErrorView::ControlInsideData => "control_dir must be outside data_dir because the store forbids sockets"@,
            ErrorView::ControlPathLength => "control socket path is too long"@,
            ErrorView::ControlResponse => "control response too large"@,
            ErrorView::ControlNotSocket => "control path is not a socket"@,
            ErrorView::ControlActive => "another control server is active"@,
            ErrorView::ControlQueueFull(words) => "control queue full; command not accepted: "@ + words,
            ErrorView::Snowflake => "invalid Discord ID"@,
            ErrorView::SnowflakeRange => "number too large to fit in target type"@,
            ErrorView::TokenEmpty => "Discord token is empty"@,
            ErrorView::ChannelDisabled => "Discord channel is not enabled"@,
            ErrorView::WrongChannel => "Discord returned wrong channel"@,
            ErrorView::DraftShape => "invalid Discord draft"@,
            ErrorView::DraftEmpty => "empty Discord answer"@,
            ErrorView::ReplyLength => "Discord reply exceeds 2000 characters"@,
            ErrorView::SendDisabled => "Discord sending is disabled"@,
            ErrorView::SendUnverified => "Discord send response did not verify delivery"@,
            ErrorView::EmailReason => "invalid email reason"@,
            ErrorView::EmailEvidence => "invalid email evidence"@,
            ErrorView::EmailChanged => "email changed since discovery"@,
            ErrorView::MimeBoundaries => "too many MIME boundaries"@,
            ErrorView::MailRootSymlink => "Maildir root cannot be a symlink"@,
            ErrorView::MailOutside => "mail path outside configured Maildir: prefix not found"@,
            ErrorView::MailPath => "invalid mail path"@,
            ErrorView::MailParent => "missing mail parent"@,
            ErrorView::MailParentKind => "Maildir parent must be a real directory"@,
            ErrorView::DestinationFolder => "invalid destination folder"@,
            ErrorView::MaildirFolder => "invalid Maildir folder"@,
            ErrorView::MaildirFlags => "invalid Maildir flags"@,
            ErrorView::DestinationConflict => "destination conflict"@,
            ErrorView::SourceMissing => "source changed or missing"@,
            ErrorView::SourceChanged => "source changed after move"@,
            ErrorView::MoveUnverified => "move verification failed"@,
            ErrorView::NotASource => "source is neither a supported feed nor an article page"@,
            ErrorView::SelectionShape => "invalid research selection"@,
            ErrorView::SelectionSummary => "selected research requires a summary"@,
            ErrorView::QueueFull => "agent queue is full; source cursor retained"@,
            ErrorView::MovesDisabled => "email moves are disabled"@,
            ErrorView::NoMaildir => "no Maildir configured"@,
            ErrorView::OnlyEmailUndo => "only email moves can be undone"@,
            ErrorView::NothingMoved => "job did not move an email"@,
            ErrorView::NoMoveAction => "job has no move action"@,
            ErrorView::MaildirMissing => "Maildir is not configured"@,
            ErrorView::EmailOutside => "email is outside the configured Maildir"@,
            ErrorView::EvidenceAbsent => "email decision cites evidence absent from the message"@,
            ErrorView::NotEligible => "message is not an eligible bot mention"@,
            ErrorView::TriggerGone => "triggering Discord message was edited, deleted, or is no longer eligible"@,
            ErrorView::RequestLength => "request must be 1..16000 bytes"@,
            ErrorView::QueryLength => "query must be 1..512 bytes"@,
            ErrorView::NoSuchReview => "no pending/review job with that ID"@,
            ErrorView::OnlyReconcile => "uncertain Discord sends can only be reconciled, not retried"@,
            ErrorView::UnknownJob => "unknown job"@,
            ErrorView::NoUncertainSend => "job has no uncertain Discord action"@,
            ErrorView::OnlyReprocess => "only completed email decisions without move actions can be reprocessed"@,
            ErrorView::NoRecentMove => "no recent email move to undo"@,
            ErrorView::NoChannel => "no Discord channel configured"@,
            ErrorView::ChannelUnknown => "channel is not configured"@,
            ErrorView::StateVersion => "unsupported agent state version"@,
            ErrorView::CheckpointSize => "agent checkpoint exceeds size limit"@,
            ErrorView::NotRegular => "input must be a regular file"@,
            ErrorView::StorageBudget => "invalid storage budget"@,
            ErrorView::DataSymlink => "data directory cannot be a symlink"@,
            ErrorView::LockFile => "invalid lock file"@,
            ErrorView::ExistingData => "existing data exceeds storage budget"@,
            ErrorView::ObjectName => "invalid object name"@,
            ErrorView::QuotaExhausted => "storage quota exhausted; object was not written"@,
            ErrorView::AllocationExceeded => "physical allocation exceeded application budget"@,
            ErrorView::SymlinkForbidden => "symlinks are forbidden in managed storage"@,
            ErrorView::SizeOverflow => "storage size overflow"@,
            ErrorView::SpecialForbidden => "special files are forbidden in managed storage"@,
            ErrorView::PromptSize => "prompt exceeds configured byte limit; narrow the input"@,
            ErrorView::CallsExhausted => "model call budget exhausted for this process"@,
            ErrorView::KeyEmpty => "API key is empty"@,
            ErrorView::SystemPromptSize => "prompt including system instructions exceeds configured byte limit"@,
            ErrorView::NoModelText => "model returned no text (possibly blocked or incompatible response)"@,
            ErrorView::EmptyModelText => "model returned empty text"@,
            ErrorView::Cancelled => "shutdown requested before HTTP call"@,
            ErrorView::CrossrefShape => "invalid Crossref response"@,
            ErrorView::ResearchQueryLength => "research query must be 1..=512 bytes"@,
            ErrorView::SourcesFailed => "all research sources failed"@,
            ErrorView::ArxivId => "invalid arXiv ID"@,
            ErrorView::ArxivPdfId => "invalid arXiv PDF identifier"@,
            ErrorView::NotPdf => "arXiv returned a non-PDF response"@,
            ErrorView::ChannelId => "invalid Discord channel ID"@,
            ErrorView::NoMessages => "channel has no messages"@,
            ErrorView::NoContent => "no readable message content; check bot permissions and Message Content intent"@,
            ErrorView::ConversationSize => "conversation exceeds prompt budget; use a smaller exported transcript"@,
            ErrorView::VoiceCommand => "voice command is not configured"@,
            ErrorView::SpeechLength => "speech text exceeds 4000 bytes"@,
            ErrorView::TranscriptSize => "voice transcript too large"@,
            ErrorView::VoiceDisabled => "voice is disabled; set voice.enabled=true"@,
            ErrorView::TranscriptEmpty => "speech recognizer returned an empty transcript"@,
            ErrorView::EventSize => "event exceeds input limit"@,
            ErrorView::Unexpected => "unexpected reply"@,
        }
    }
}

impl Error {
    /// The message for a reader.
    pub fn message(&self) -> (res: String)
        ensures
            res@ == self@.text(),
    {
        match self {
            Error::InputExceeds(n) => {
                let mut out = "input exceeds ".to_owned();
                out.append(decimal(*n).as_str());
                out.append(" bytes");
                out
            },
            Error::KeyUnset { name, words } => {
                let mut out = "set ".to_owned();
                out.append(name.as_str());
                out.append(" to enable model calls: ");
                out.append(words.as_str());
                out
            },
            Error::TokenUnset { name, words } => {
                let mut out = "set ".to_owned();
                out.append(name.as_str());
                out.append(" for Discord: ");
                out.append(words.as_str());
                out
            },
            Error::BotTokenUnset(words) => {
                let mut out =
                    "set DISCORD_BOT_TOKEN; personal user tokens are unsupported: ".to_owned();
                out.append(words.as_str());
                out
            },
            Error::Outside(text) => text.clone(),
            Error::EndpointScheme => "endpoint requires HTTPS or localhost HTTP".to_owned(),
            Error::EndpointParts => "endpoint cannot contain credentials, query or fragment".to_owned(),
            Error::AgentIntervals => "invalid agent intervals".to_owned(),
            Error::QueueLimits => "invalid queue limits".to_owned(),
            Error::AgentBudget => "invalid agent model budget".to_owned(),
            Error::TooManySources => "too many configured sources".to_owned(),
            Error::PolicyTooLong => "policy too long".to_owned(),
            Error::ResearchQuery => "invalid research query".to_owned(),
            Error::DiscordChannels => "Discord requires configured channels".to_owned(),
            Error::OwnerName => "invalid Discord owner name".to_owned(),
            Error::QuietHours => "quiet hours require distinct start/end UTC hours within 0..23".to_owned(),
            Error::ContinuousVoice => "continuous voice requires voice.enabled and a listen_command".to_owned(),
            Error::DiskBytes => "disk_bytes must be within 1..=50,000,000,000 (decimal GB)".to_owned(),
            Error::ReserveBytes => "reserve_bytes must leave at least 1 MiB for overhead and be below disk_bytes".to_owned(),
            Error::InputLimit => "input limit must be 1..=64 MiB".to_owned(),
            Error::ResponseLimit => "response limit must be 1..=64 MiB".to_owned(),
            Error::PromptLimit => "invalid prompt limit".to_owned(),
            Error::OutputTokens => "invalid output token limit".to_owned(),
            Error::CallBudget => "model call budget must be positive".to_owned(),
            Error::RequestTimeout => "request timeout must be 1..=300 seconds".to_owned(),
            Error::PollingLimits => "invalid polling limits".to_owned(),
            Error::ResearchLimits => "research requires 1..=100 results and >=3 seconds between requests".to_owned(),
            Error::VoiceTimeout => "invalid voice timeout".to_owned(),
            Error::ModelScheme => "model endpoint must use HTTPS or localhost HTTP".to_owned(),
            Error::ModelParts => "model base URL must not contain credentials, query or fragment".to_owned(),
            Error::ModelName => "invalid model identifier".to_owned(),
            Error::ControlDirectory => "control_dir must be a private directory owned by this user (mode 0700)".to_owned(),
            Error::ControlInsideData => "control_dir must be outside data_dir because the store forbids sockets".to_owned(),
            Error::ControlPathLength => "control socket path is too long".to_owned(),
            Error::ControlResponse => "control response too large".to_owned(),
            Error::ControlNotSocket => "control path is not a socket".to_owned(),
            Error::ControlActive => "another control server is active".to_owned(),
            Error::ControlQueueFull(words) => {
                let mut out = "control queue full; command not accepted: ".to_owned();
                out.append(words.as_str());
                out
            },
            Error::Snowflake => "invalid Discord ID".to_owned(),
            Error::SnowflakeRange => "number too large to fit in target type".to_owned(),
            Error::TokenEmpty => "Discord token is empty".to_owned(),
            Error::ChannelDisabled => "Discord channel is not enabled".to_owned(),
            Error::WrongChannel => "Discord returned wrong channel".to_owned(),
            Error::DraftShape => "invalid Discord draft".to_owned(),
            Error::DraftEmpty => "empty Discord answer".to_owned(),
            Error::ReplyLength => "Discord reply exceeds 2000 characters".to_owned(),
            Error::SendDisabled => "Discord sending is disabled".to_owned(),
            Error::SendUnverified => "Discord send response did not verify delivery".to_owned(),
            Error::EmailReason => "invalid email reason".to_owned(),
            Error::EmailEvidence => "invalid email evidence".to_owned(),
            Error::EmailChanged => "email changed since discovery".to_owned(),
            Error::MimeBoundaries => "too many MIME boundaries".to_owned(),
            Error::MailRootSymlink => "Maildir root cannot be a symlink".to_owned(),
            Error::MailOutside => "mail path outside configured Maildir: prefix not found".to_owned(),
            Error::MailPath => "invalid mail path".to_owned(),
            Error::MailParent => "missing mail parent".to_owned(),
            Error::MailParentKind => "Maildir parent must be a real directory".to_owned(),
            Error::DestinationFolder => "invalid destination folder".to_owned(),
            Error::MaildirFolder => "invalid Maildir folder".to_owned(),
            Error::MaildirFlags => "invalid Maildir flags".to_owned(),
            Error::DestinationConflict => "destination conflict".to_owned(),
            Error::SourceMissing => "source changed or missing".to_owned(),
            Error::SourceChanged => "source changed after move".to_owned(),
            Error::MoveUnverified => "move verification failed".to_owned(),
            Error::NotASource => "source is neither a supported feed nor an article page".to_owned(),
            Error::SelectionShape => "invalid research selection".to_owned(),
            Error::SelectionSummary => "selected research requires a summary".to_owned(),
            Error::QueueFull => "agent queue is full; source cursor retained".to_owned(),
            Error::MovesDisabled => "email moves are disabled".to_owned(),
            Error::NoMaildir => "no Maildir configured".to_owned(),
            Error::OnlyEmailUndo => "only email moves can be undone".to_owned(),
            Error::NothingMoved => "job did not move an email".to_owned(),
            Error::NoMoveAction => "job has no move action".to_owned(),
            Error::MaildirMissing => "Maildir is not configured".to_owned(),
            Error::EmailOutside => "email is outside the configured Maildir".to_owned(),
            Error::EvidenceAbsent => "email decision cites evidence absent from the message".to_owned(),
            Error::NotEligible => "message is not an eligible bot mention".to_owned(),
            Error::TriggerGone => "triggering Discord message was edited, deleted, or is no longer eligible".to_owned(),
            Error::RequestLength => "request must be 1..16000 bytes".to_owned(),
            Error::QueryLength => "query must be 1..512 bytes".to_owned(),
            Error::NoSuchReview => "no pending/review job with that ID".to_owned(),
            Error::OnlyReconcile => "uncertain Discord sends can only be reconciled, not retried".to_owned(),
            Error::UnknownJob => "unknown job".to_owned(),
            Error::NoUncertainSend => "job has no uncertain Discord action".to_owned(),
            Error::OnlyReprocess => "only completed email decisions without move actions can be reprocessed".to_owned(),
            Error::NoRecentMove => "no recent email move to undo".to_owned(),
            Error::NoChannel => "no Discord channel configured".to_owned(),
            Error::ChannelUnknown => "channel is not configured".to_owned(),
            Error::StateVersion => "unsupported agent state version".to_owned(),
            Error::CheckpointSize => "agent checkpoint exceeds size limit".to_owned(),
            Error::NotRegular => "input must be a regular file".to_owned(),
            Error::StorageBudget => "invalid storage budget".to_owned(),
            Error::DataSymlink => "data directory cannot be a symlink".to_owned(),
            Error::LockFile => "invalid lock file".to_owned(),
            Error::ExistingData => "existing data exceeds storage budget".to_owned(),
            Error::ObjectName => "invalid object name".to_owned(),
            Error::QuotaExhausted => "storage quota exhausted; object was not written".to_owned(),
            Error::AllocationExceeded => "physical allocation exceeded application budget".to_owned(),
            Error::SymlinkForbidden => "symlinks are forbidden in managed storage".to_owned(),
            Error::SizeOverflow => "storage size overflow".to_owned(),
            Error::SpecialForbidden => "special files are forbidden in managed storage".to_owned(),
            Error::PromptSize => "prompt exceeds configured byte limit; narrow the input".to_owned(),
            Error::CallsExhausted => "model call budget exhausted for this process".to_owned(),
            Error::KeyEmpty => "API key is empty".to_owned(),
            Error::SystemPromptSize => "prompt including system instructions exceeds configured byte limit".to_owned(),
            Error::NoModelText => "model returned no text (possibly blocked or incompatible response)".to_owned(),
            Error::EmptyModelText => "model returned empty text".to_owned(),
            Error::Cancelled => "shutdown requested before HTTP call".to_owned(),
            Error::CrossrefShape => "invalid Crossref response".to_owned(),
            Error::ResearchQueryLength => "research query must be 1..=512 bytes".to_owned(),
            Error::SourcesFailed => "all research sources failed".to_owned(),
            Error::ArxivId => "invalid arXiv ID".to_owned(),
            Error::ArxivPdfId => "invalid arXiv PDF identifier".to_owned(),
            Error::NotPdf => "arXiv returned a non-PDF response".to_owned(),
            Error::ChannelId => "invalid Discord channel ID".to_owned(),
            Error::NoMessages => "channel has no messages".to_owned(),
            Error::NoContent => "no readable message content; check bot permissions and Message Content intent".to_owned(),
            Error::ConversationSize => "conversation exceeds prompt budget; use a smaller exported transcript".to_owned(),
            Error::VoiceCommand => "voice command is not configured".to_owned(),
            Error::SpeechLength => "speech text exceeds 4000 bytes".to_owned(),
            Error::TranscriptSize => "voice transcript too large".to_owned(),
            Error::VoiceDisabled => "voice is disabled; set voice.enabled=true".to_owned(),
            Error::TranscriptEmpty => "speech recognizer returned an empty transcript".to_owned(),
            Error::EventSize => "event exceeds input limit".to_owned(),
            Error::Unexpected => "unexpected reply".to_owned(),
        }
    }
}

} // verus!
