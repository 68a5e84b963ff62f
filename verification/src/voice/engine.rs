//! Speaking and listening.
use crate::base::config::Voice;
use crate::error::{seen, Error, ErrorView};
use crate::text::{lemma_size_len, same, size};
use crate::voice::audio::{run, run_fault};
use vstd::prelude::*;

verus! {

/// What stands against speaking.
pub open spec fn speak_fault(config: Voice, text: Seq<char>) -> Option<ErrorView> {
    if !config.enabled {
        Some(ErrorView::VoiceDisabled)
    } else {
        run_fault(config.speak_command@.len(), text)
    }
}

/// What stands against listening.
pub open spec fn listen_fault(config: Voice) -> Option<ErrorView> {
    if !config.enabled {
        Some(ErrorView::VoiceDisabled)
    } else {
        run_fault(config.listen_command@.len(), ""@)
    }
}

/// Admits a text to speak.
pub fn speak(config: &Voice, text: &str) -> (res: Result<(), Error>)
    ensures
        seen(res) == match speak_fault(*config, text@) {
            Some(error) => Err(error),
            None => Ok(()),
        },
{
    if !config.enabled {
        return Err(Error::VoiceDisabled);
    }
    run(&config.speak_command, text)
}

/// Admits listening.
pub fn listen(config: &Voice) -> (res: Result<(), Error>)
    ensures
        seen(res) == match listen_fault(*config) {
            Some(error) => Err(error),
            None => Ok(()),
        },
{
    if !config.enabled {
        return Err(Error::VoiceDisabled);
    }
    run(&config.listen_command, "")
}

/// Takes what was heard, which must be something.
pub fn hear(text: String) -> (res: Result<String, Error>)
    ensures
        (match res {
            Ok(heard) => Ok(heard@),
            Err(error) => Err(error@),
        }) == if text@.len() > 0 {
            Ok(text@)
        } else {
            Err(ErrorView::TranscriptEmpty)
        },
{
    proof {
        reveal_strlit("");
        assert(text@.len() == 0 ==> text@ =~= ""@);
    }
    if same(text.as_str(), "") {
        Err(Error::TranscriptEmpty)
    } else {
        Ok(text)
    }
}

/// A voice speaks and listens exactly if it is on, has a way to, and what it is to say is no more
/// than 4000 bytes.
pub proof fn law_voice(config: Voice, text: Seq<char>)
    ensures
        speak_fault(config, text) is None <==> config.enabled && config.speak_command@.len() > 0
            && size(text) <= 4000,
        listen_fault(config) is None <==> config.enabled && config.listen_command@.len() > 0,
        !config.enabled ==> speak_fault(config, text) == Some(ErrorView::VoiceDisabled)
            && listen_fault(config) == Some(ErrorView::VoiceDisabled),
{
    reveal_strlit("");
    lemma_size_len(""@);
}

/// A voice without a command and a text that is too long are told apart.
pub proof fn law_no_voice(config: Voice, text: Seq<char>)
    ensures
        config.enabled && config.speak_command@.len() == 0 ==> speak_fault(config, text) == Some(
            ErrorView::VoiceCommand,
        ),
        config.enabled && config.speak_command@.len() > 0 && size(text) > 4000 ==> speak_fault(
            config,
            text,
        ) == Some(ErrorView::SpeechLength),
        config.enabled && config.listen_command@.len() == 0 ==> listen_fault(config) == Some(
            ErrorView::VoiceCommand,
        ),
{
}

} // verus!
