use vstd::prelude::*;
use vstd::pervasive::unreached;

use crate::Error;
use crate::asset::first_attachment;
use crate::decode::{
    decode_asset, json_tree_of, lemma_decoded_attachments, spec_att_count, spec_first_att_url,
    tree_decodes,
};
use crate::fmt::rfc3339_chars;
use crate::host::{HostUrl, resolve, resolved_chars};
use crate::message::{EmbedMessage, build_message, description_chars, footer_chars};
use crate::time::Timestamp;

verus! {

/// Where one occurrence stands. The policy is strict: a failed occurrence
/// ends in `Done` carrying its error, and the driver aborts the process
/// rather than blending in tolerant retries.
pub enum DispatchState {
    Waiting { scheduled: Timestamp },
    Fetching { scheduled: Timestamp },
    Sending { scheduled: Timestamp, message: EmbedMessage },
    Done { outcome: Result<(), Error> },
}

/// What the outside world reports back to the state machine.
pub enum DispatchEvent {
    /// The current instant, read from the clock.
    Clock { now: Timestamp },
    /// The asset request finished: the response body on success, or
    /// `Error::Network` / `Error::HttpStatus` from the transport.
    Response { body: Result<String, Error> },
    /// The webhook submission finished.
    Sent { result: Result<(), Error> },
}

/// What the state machine asks the outside world to do next.
pub enum DispatchAction {
    /// Suspend until about the given instant, then report the clock again.
    Sleep { until: Timestamp },
    /// Issue the HTTP GET against the given absolute URL.
    Fetch { url: String },
    /// Submit the given message to the webhook.
    Send { message: EmbedMessage },
    /// The occurrence is over, with this outcome.
    Finish { outcome: Result<(), Error> },
}

impl DispatchState {
    pub open spec fn wf(self) -> bool {
        match self {
            DispatchState::Waiting { scheduled } => scheduled.valid(),
            DispatchState::Fetching { scheduled } => scheduled.valid(),
            DispatchState::Sending { scheduled, .. } => scheduled.valid(),
            DispatchState::Done { .. } => true,
        }
    }
}

/// Which event each state awaits.
pub open spec fn event_fits(state: DispatchState, event: DispatchEvent) -> bool {
    match (state, event) {
        (DispatchState::Waiting { .. }, DispatchEvent::Clock { now }) => now.valid(),
        (DispatchState::Fetching { .. }, DispatchEvent::Response { .. }) => true,
        (DispatchState::Sending { .. }, DispatchEvent::Sent { .. }) => true,
        _ => false,
    }
}

/// One step of the per-occurrence state machine of the dispatch loop.
///
/// While waiting it never moves on before the scheduled instant: on a
/// clock reading strictly earlier than the schedule it stays in `Waiting`
/// and asks only for another sleep, so a dispatch begins only once the
/// clock has reached the scheduled time, however many wake-ups that takes.
pub fn dispatch_step(host: &HostUrl, state: DispatchState, event: DispatchEvent) -> (r: (
    DispatchState,
    DispatchAction,
))
    requires
        state.wf(),
        event_fits(state, event),
    ensures
        r.0.wf(),
        match (state, event) {
            (DispatchState::Waiting { scheduled }, DispatchEvent::Clock { now }) => {
                &&& now.spec_lt(scheduled) ==> r.0 == state && r.1 == (DispatchAction::Sleep {
                    until: scheduled,
                })
                &&& !now.spec_lt(scheduled) && host.base_accepts() ==> {
                    &&& r.0 == (DispatchState::Fetching { scheduled })
                    &&& r.1 matches DispatchAction::Fetch { url } && url@ == resolved_chars(
                        *host,
                        scheduled,
                    )
                }
                &&& !now.spec_lt(scheduled) && !host.base_accepts() ==> r == (
                    DispatchState::Done { outcome: Err(Error::UrlResolution) },
                    DispatchAction::Finish { outcome: Err(Error::UrlResolution) },
                )
            },
            (DispatchState::Fetching { scheduled }, DispatchEvent::Response { body }) => {
                match body {
                    Err(e) => r == (
                        DispatchState::Done { outcome: Err(e) },
                        DispatchAction::Finish { outcome: Err(e) },
                    ),
                    Ok(b) => {
                        let t = json_tree_of(b@);
                        &&& !tree_decodes(t) ==> r == (
                            DispatchState::Done { outcome: Err(Error::Decode) },
                            DispatchAction::Finish { outcome: Err(Error::Decode) },
                        )
                        &&& tree_decodes(t) && spec_att_count(t) == 0 ==> r == (
                            DispatchState::Done { outcome: Err(Error::MissingAttachment) },
                            DispatchAction::Finish { outcome: Err(Error::MissingAttachment) },
                        )
                        &&& tree_decodes(t) && spec_att_count(t) > 0 && !host.base_accepts()
                            ==> r == (
                            DispatchState::Done { outcome: Err(Error::UrlResolution) },
                            DispatchAction::Finish { outcome: Err(Error::UrlResolution) },
                        )
                        &&& tree_decodes(t) && spec_att_count(t) > 0 && host.base_accepts() ==> (
                        r.1 matches DispatchAction::Send { message } && {
                            &&& r.0 == (DispatchState::Sending { scheduled, message })
                            &&& message.image_url@ == spec_first_att_url(t)
                            &&& message.timestamp@ == rfc3339_chars(scheduled)
                            &&& message.description@ == description_chars(
                                resolved_chars(*host, scheduled),
                                spec_first_att_url(t),
                            )
                            &&& message.footer@ == footer_chars()
                        })
                    },
                }
            },
            (DispatchState::Sending { .. }, DispatchEvent::Sent { result }) => r == (
                DispatchState::Done { outcome: result },
                DispatchAction::Finish { outcome: result },
            ),
            _ => true,
        },
{
    match (state, event) {
        (DispatchState::Waiting { scheduled }, DispatchEvent::Clock { now }) => {
            if now.lt(&scheduled) {
                (
                    DispatchState::Waiting { scheduled },
                    DispatchAction::Sleep { until: scheduled },
                )
            } else {
                match resolve(host, &scheduled) {
                    Ok(url) => (
                        DispatchState::Fetching { scheduled },
                        DispatchAction::Fetch { url },
                    ),
                    Err(e) => (
                        DispatchState::Done { outcome: Err(e) },
                        DispatchAction::Finish { outcome: Err(e) },
                    ),
                }
            }
        },
        (DispatchState::Fetching { scheduled }, DispatchEvent::Response { body }) => {
            match body {
                Err(e) => (
                    DispatchState::Done { outcome: Err(e) },
                    DispatchAction::Finish { outcome: Err(e) },
                ),
                Ok(text) => {
                    match decode_asset(text.as_str()) {
                        Err(e) => (
                            DispatchState::Done { outcome: Err(e) },
                            DispatchAction::Finish { outcome: Err(e) },
                        ),
                        Ok(asset) => {
                            proof {
                                lemma_decoded_attachments(json_tree_of(text@), asset);
                            }
                            match first_attachment(&asset) {
                                Err(e) => (
                                    DispatchState::Done { outcome: Err(e) },
                                    DispatchAction::Finish { outcome: Err(e) },
                                ),
                                Ok(att) => match build_message(host, &scheduled, &att) {
                                    Err(e) => (
                                        DispatchState::Done { outcome: Err(e) },
                                        DispatchAction::Finish { outcome: Err(e) },
                                    ),
                                    Ok(message) => (
                                        DispatchState::Sending {
                                            scheduled,
                                            message: message.duplicate(),
                                        },
                                        DispatchAction::Send { message },
                                    ),
                                },
                            }
                        },
                    }
                },
            }
        },
        (DispatchState::Sending { .. }, DispatchEvent::Sent { result }) => (
            DispatchState::Done { outcome: result },
            DispatchAction::Finish { outcome: result },
        ),
        _ => unreached(),
    }
}

/// The HTTP success range of the asset fetch: the response's body is only
/// handed to decoding when the status lies in it; anything else is
/// reported as `Error::HttpStatus`.
pub fn status_in_success_range(status: u16) -> (b: bool)
    ensures
        b == (200 <= status <= 299),
{
    200 <= status && status <= 299
}

} // verus!
