//! Replies of web services.
use crate::base::limits::read_bounded;
use crate::error::{Error, ErrorView};
use crate::text::{decimal, numeral};
use vstd::prelude::*;

verus! {

/// A service asks to be left alone for this many seconds.
#[derive(Debug, Clone, Copy)]
pub struct RetryAfter(pub u64);

/// The message for a reader.
pub open spec fn retry_text(seconds: u64) -> Seq<char> {
    "service rate limited; retry after "@ + numeral(seconds as nat) + " seconds"@
}

impl RetryAfter {
    /// The message for a reader.
    pub fn message(&self) -> (res: String)
        ensures
            res@ == retry_text(self.0),
    {
        let mut out = "service rate limited; retry after ".to_owned();
        out.append(decimal(self.0).as_str());
        out.append(" seconds");
        out
    }
}

/// What a reply comes to.
#[derive(Debug)]
pub enum Received {
    /// The body of a reply that succeeded.
    Body(Vec<u8>),
    /// The service asks to be left alone.
    Later(RetryAfter),
    /// The service refused with this status.
    Status(u16),
    /// The body was larger than allowed.
    Refused(Error),
}

pub enum ReceivedView {
    Body(Seq<u8>),
    Later(u64),
    Status(u16),
    Refused(ErrorView),
}

impl View for Received {
    type V = ReceivedView;

    open spec fn view(&self) -> ReceivedView {
        match self {
            Received::Body(bytes) => ReceivedView::Body(bytes@),
            Received::Later(retry) => ReceivedView::Later(retry.0),
            Received::Status(code) => ReceivedView::Status(*code),
            Received::Refused(error) => ReceivedView::Refused(error@),
        }
    }
}

/// What a reply of status `code` comes to, with `data` for the first bytes of its body and
/// `seconds` for the wait that it names in its header or body.
pub open spec fn receiving(code: u16, data: Seq<u8>, seconds: Option<u64>, limit: u64) -> ReceivedView {
    if code == 429 {
        if data.len() > limit {
            ReceivedView::Refused(ErrorView::InputExceeds(limit))
        } else {
            ReceivedView::Later(
                match seconds {
                    Some(n) => if n < 1 {
                        1
                    } else {
                        n
                    },
                    None => 60,
                },
            )
        }
    } else if !(200 <= code < 300) {
        ReceivedView::Status(code)
    } else if data.len() > limit {
        ReceivedView::Refused(ErrorView::InputExceeds(limit))
    } else {
        ReceivedView::Body(data)
    }
}

/// Sorts a reply: a wait is never shorter than a second, and a minute where none is named; other
/// failures are not tried again; a body over the limit is refused whole.
pub fn receive(code: u16, data: Vec<u8>, seconds: Option<u64>, limit: u64) -> (res: Received)
    ensures
        res@ == receiving(code, data@, seconds, limit),
{
    if code == 429 {
        match read_bounded(data, limit) {
            Err(error) => Received::Refused(error),
            Ok(_) => Received::Later(
                RetryAfter(
                    match seconds {
                        Some(n) => if n < 1 {
                            1
                        } else {
                            n
                        },
                        None => 60,
                    },
                ),
            ),
        }
    } else if !(200 <= code && code < 300) {
        Received::Status(code)
    } else {
        match read_bounded(data, limit) {
            Err(error) => Received::Refused(error),
            Ok(body) => Received::Body(body),
        }
    }
}

/// What is made of a reply: one that succeeded and fits is taken as it is; a service that wants to
/// be left alone is, for as long as it asks but a second at least, and for a minute if it does not
/// say; any other is refused with its status; and what does not fit is refused.
pub proof fn law_reply(code: u16, data: Seq<u8>, seconds: Option<u64>, limit: u64)
    ensures
        ({
            let reply = receiving(code, data, seconds, limit);
            let fits = data.len() <= limit;
            &&& 200 <= code <= 299 && fits ==> reply == ReceivedView::Body(data)
            &&& code == 429 && fits ==> reply is Later
            &&& code == 429 && fits && seconds is None ==> reply->Later_0 == 60
            &&& code == 429 && fits && seconds == Some(0u64) ==> reply->Later_0 == 1
            &&& code == 429 && fits && seconds is Some && seconds->0 > 0 ==> reply->Later_0
                == seconds->0
            &&& code != 429 && !(200 <= code <= 299) ==> reply == ReceivedView::Status(code)
            &&& (code == 429 || 200 <= code <= 299) && !fits ==> reply == ReceivedView::Refused(
                ErrorView::InputExceeds(limit),
            )
        }),
{
}

} // verus!
