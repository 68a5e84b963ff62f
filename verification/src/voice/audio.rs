//! The bounds of a speech command.
use crate::error::{seen, Error, ErrorView};
use crate::text::{byte_len, size, trim, trimmed, text_from, utf8_text};
use vstd::prelude::*;

verus! {

/// What stands against running a speech command with this input.
pub open spec fn run_fault(arguments: nat, input: Seq<char>) -> Option<ErrorView> {
    if arguments == 0 {
        Some(ErrorView::VoiceCommand)
    } else if size(input) > 4000 {
        Some(ErrorView::SpeechLength)
    } else {
        None
    }
}

/// Admits a speech command and its input. Arguments are never interpreted by a shell.
pub fn run(argv: &Vec<String>, input: &str) -> (res: Result<(), Error>)
    ensures
        seen(res) == match run_fault(argv@.len(), input@) {
            Some(error) => Err(error),
            None => Ok(()),
        },
{
    if argv.len() == 0 {
        return Err(Error::VoiceCommand);
    }
    if byte_len(input) > 4000 {
        return Err(Error::SpeechLength);
    }
    Ok(())
}

/// What a speech command said.
pub open spec fn heard(data: Seq<u8>) -> Result<Seq<char>, ErrorView> {
    match text_from(data) {
        Err(words) => Err(ErrorView::Outside(words)),
        Ok(text) => if size(text) > 16_384 {
            Err(ErrorView::TranscriptSize)
        } else {
            Ok(trimmed(text))
        },
    }
}

/// What a speech command said.
pub fn transcript(data: Vec<u8>) -> (res: Result<String, Error>)
    ensures
        (match res {
            Ok(text) => Ok(text@),
            Err(error) => Err(error@),
        }) == heard(data@),
{
    match utf8_text(data) {
        Err(words) => Err(Error::Outside(words)),
        Ok(text) => if byte_len(text.as_str()) > 16_384 {
            Err(Error::TranscriptSize)
        } else {
            Ok(trim(text.as_str()))
        },
    }
}

/// What is heard is the recognizer's text without the blanks around it, if it is text and no more
/// than 16,384 bytes of it.
pub proof fn law_heard(data: Seq<u8>)
    ensures
        heard(data) is Ok <==> text_from(data) is Ok && size(text_from(data)->Ok_0) <= 16_384,
        heard(data) is Ok ==> heard(data)->Ok_0 == trimmed(text_from(data)->Ok_0),
        text_from(data) is Ok && size(text_from(data)->Ok_0) > 16_384 ==> heard(data) == Err::<
            Seq<char>,
            ErrorView,
        >(ErrorView::TranscriptSize),
{
}

} // verus!
