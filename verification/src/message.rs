use vstd::prelude::*;

use crate::Error;
use crate::asset::Attachment;
use crate::fmt::{format_rfc3339, rfc3339_chars};
use crate::host::{HostUrl, resolve, resolved_chars};
use crate::time::Timestamp;

verus! {

/// The one rich-content block of an outbound chat message: an embedded
/// image, the event time, a two-link description and a fixed footer.
#[derive(Debug, Clone, PartialEq)]
pub struct EmbedMessage {
    pub image_url: String,
    pub timestamp: String,
    pub description: String,
    pub footer: String,
}

impl EmbedMessage {
    /// An exact copy; written out so that the equality is proved rather
    /// than taken from a derived impl.
    pub fn duplicate(&self) -> (r: EmbedMessage)
        ensures
            r == *self,
    {
        EmbedMessage {
            image_url: self.image_url.clone(),
            timestamp: self.timestamp.clone(),
            description: self.description.clone(),
            footer: self.footer.clone(),
        }
    }
}

/// The description of a message: a `LINK` to the resolved asset page and
/// a `PERMALINK` to the raw attachment, as markdown links.
pub open spec fn description_chars(link: Seq<char>, permalink: Seq<char>) -> Seq<char> {
    "[LINK]("@ + link + ") · [PERMALINK]("@ + permalink + ")"@
}

/// The fixed footer naming the tool and the data provider.
pub open spec fn footer_chars() -> Seq<char> {
    "Made with <3 by @kaylendog · Provided by hourly.photo"@
}

/// Builds the outbound message for one occurrence: the embed's image is
/// the attachment's URL, its timestamp the event time in RFC 3339 form,
/// its description the `LINK`/`PERMALINK` pair, its footer the fixed
/// text. Fails exactly when the host URL cannot take the relative join.
pub fn build_message(host: &HostUrl, ev_time: &Timestamp, attachment: &Attachment) -> (r: Result<
    EmbedMessage,
    Error,
>)
    requires
        ev_time.valid(),
    ensures
        match r {
            Ok(m) => {
                &&& host.base_accepts()
                &&& m.image_url@ == attachment.url@
                &&& m.timestamp@ == rfc3339_chars(*ev_time)
                &&& m.description@ == description_chars(
                    resolved_chars(*host, *ev_time),
                    attachment.url@,
                )
                &&& m.footer@ == footer_chars()
            },
            Err(e) => e == Error::UrlResolution && !host.base_accepts(),
        },
{
    let url = match resolve(host, ev_time) {
        Ok(u) => u,
        Err(e) => {
            return Err(e);
        },
    };
    let mut description = String::new();
    description.append("[LINK](");
    description.append(url.as_str());
    description.append(") · [PERMALINK](");
    description.append(attachment.url.as_str());
    description.append(")");
    assert(description@ =~= description_chars(resolved_chars(*host, *ev_time), attachment.url@));
    Ok(
        EmbedMessage {
            image_url: attachment.url.clone(),
            timestamp: format_rfc3339(ev_time),
            description,
            footer: String::from_str("Made with <3 by @kaylendog · Provided by hourly.photo"),
        },
    )
}

} // verus!
