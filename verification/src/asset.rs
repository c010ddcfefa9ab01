use vstd::prelude::*;

use crate::Error;

verus! {

/// A media reference inside an asset: the `url` field is the displayable
/// image location.
#[derive(Debug, Clone, PartialEq)]
pub struct Attachment {
    pub type_field: String,
    pub media_type: String,
    pub url: String,
}

/// A named tag on an asset.
#[derive(Debug, Clone, PartialEq)]
pub struct Tag {
    pub type_field: String,
    pub name: String,
}

/// A post-like record as the photo host serves it. Every field the
/// service may omit defaults to its empty value; the attachments are
/// ordered and the first one is authoritative.
#[derive(Debug, Clone, PartialEq)]
pub struct Asset {
    pub type_field: String,
    pub actor: String,
    pub attributed_to: String,
    pub attachment: Vec<Attachment>,
    pub to: Vec<String>,
    pub cc: Vec<String>,
    pub content: String,
    pub tag: Vec<Tag>,
    pub published: String,
    pub id: String,
    pub context: String,
    pub conversation: String,
}

impl Attachment {
    pub open spec fn is_empty_spec(self) -> bool {
        self.type_field@ == Seq::<char>::empty() && self.media_type@ == Seq::<char>::empty()
            && self.url@ == Seq::<char>::empty()
    }

    /// An exact copy; written out so that the equality is proved rather
    /// than taken from a derived impl.
    pub fn duplicate(&self) -> (r: Attachment)
        ensures
            r == *self,
    {
        Attachment {
            type_field: self.type_field.clone(),
            media_type: self.media_type.clone(),
            url: self.url.clone(),
        }
    }
}

impl Default for Attachment {
    fn default() -> (r: Attachment)
        ensures
            r.is_empty_spec(),
    {
        Attachment { type_field: String::new(), media_type: String::new(), url: String::new() }
    }
}

impl Tag {
    pub open spec fn is_empty_spec(self) -> bool {
        self.type_field@ == Seq::<char>::empty() && self.name@ == Seq::<char>::empty()
    }
}

impl Default for Tag {
    fn default() -> (r: Tag)
        ensures
            r.is_empty_spec(),
    {
        Tag { type_field: String::new(), name: String::new() }
    }
}

impl Asset {
    pub open spec fn is_empty_spec(self) -> bool {
        &&& self.type_field@ == Seq::<char>::empty()
        &&& self.actor@ == Seq::<char>::empty()
        &&& self.attributed_to@ == Seq::<char>::empty()
        &&& self.attachment@ == Seq::<Attachment>::empty()
        &&& self.to@ == Seq::<String>::empty()
        &&& self.cc@ == Seq::<String>::empty()
        &&& self.content@ == Seq::<char>::empty()
        &&& self.tag@ == Seq::<Tag>::empty()
        &&& self.published@ == Seq::<char>::empty()
        &&& self.id@ == Seq::<char>::empty()
        &&& self.context@ == Seq::<char>::empty()
        &&& self.conversation@ == Seq::<char>::empty()
    }
}

impl Default for Asset {
    fn default() -> (r: Asset)
        ensures
            r.is_empty_spec(),
    {
        Asset {
            type_field: String::new(),
            actor: String::new(),
            attributed_to: String::new(),
            attachment: Vec::new(),
            to: Vec::new(),
            cc: Vec::new(),
            content: String::new(),
            tag: Vec::new(),
            published: String::new(),
            id: String::new(),
            context: String::new(),
            conversation: String::new(),
        }
    }
}

/// The first attachment of `asset`, in sequence order; fails exactly when
/// the asset carries no attachment at all.
pub fn first_attachment(asset: &Asset) -> (r: Result<Attachment, Error>)
    ensures
        match r {
            Ok(a) => asset.attachment@.len() > 0 && a == asset.attachment@[0],
            Err(e) => e == Error::MissingAttachment && asset.attachment@.len() == 0,
        },
{
    if asset.attachment.len() == 0 {
        Err(Error::MissingAttachment)
    } else {
        Ok(asset.attachment[0].duplicate())
    }
}

} // verus!
