use vstd::prelude::*;

use crate::Error;
use crate::asset::{Asset, Attachment, Tag};

verus! {

/// A parsed JSON document, as the library sees it. Number values are not
/// read by any rule of the asset schema, so a number keeps no payload;
/// object members carry unique keys (duplicates collapse in the parse).
pub enum JsonNode {
    Null,
    Bool(bool),
    Number,
    Str(String),
    Arr(Vec<JsonNode>),
    Obj(Vec<(String, JsonNode)>),
}

/// The JSON tree that a body parses to, or nothing for text that is not
/// well-formed JSON. The tree depends on the text alone, so the result of
/// the trusted parse below is named by this function.
pub uninterp spec fn json_tree_of(s: Seq<char>) -> Option<JsonNode>;

#[verifier::external_type_specification]
#[verifier::external_body]
pub struct ExValue(serde_json::Value);

/// Relies on serde_json::Value's variants alone: rewrites the parsed tree
/// into the library's form, one variant to one variant.
#[verifier::external_body]
fn node_of_value(v: serde_json::Value) -> JsonNode {
    match v {
        serde_json::Value::Null => JsonNode::Null,
        serde_json::Value::Bool(b) => JsonNode::Bool(b),
        serde_json::Value::Number(_) => JsonNode::Number,
        serde_json::Value::String(s) => JsonNode::Str(s),
        serde_json::Value::Array(a) => JsonNode::Arr(a.into_iter().map(node_of_value).collect()),
        serde_json::Value::Object(m) => JsonNode::Obj(
            m.into_iter().map(|(k, w)| (k, node_of_value(w))).collect(),
        ),
    }
}

/// Relies on serde_json::from_str: parses JSON text into a value tree,
/// failing exactly on text that is not well-formed JSON; the tree is a
/// function of the text alone.
#[verifier::external_body]
fn parse_json_tree(s: &str) -> (r: Option<JsonNode>)
    ensures
        r == json_tree_of(s@),
{
    serde_json::from_str::<serde_json::Value>(s).ok().map(node_of_value)
}

/// The value under `key` among the members `ms`, if any.
pub open spec fn lookup(ms: Seq<(String, JsonNode)>, key: Seq<char>) -> Option<JsonNode>
    decreases ms.len(),
{
    if ms.len() == 0 {
        None
    } else if ms[0].0@ == key {
        Some(ms[0].1)
    } else {
        lookup(ms.drop_first(), key)
    }
}

/// The member `key` read under the permissive policy: absent means the
/// empty string, a string means its text, any other kind is a failure.
pub open spec fn spec_str(ms: Seq<(String, JsonNode)>, key: Seq<char>) -> Option<Seq<char>> {
    match lookup(ms, key) {
        None => Some(Seq::empty()),
        Some(JsonNode::Str(s)) => Some(s@),
        Some(_) => None,
    }
}

/// The member `key` is absent or an array of strings.
pub open spec fn str_list_ok(ms: Seq<(String, JsonNode)>, key: Seq<char>) -> bool {
    match lookup(ms, key) {
        None => true,
        Some(JsonNode::Arr(ns)) => forall|i: int|
            0 <= i < ns@.len() ==> (#[trigger] ns@[i]) matches JsonNode::Str(_),
        Some(_) => false,
    }
}

/// `out` is exactly the string list that the member `key` holds (empty
/// when absent).
pub open spec fn str_list_matches(
    ms: Seq<(String, JsonNode)>,
    key: Seq<char>,
    out: Seq<String>,
) -> bool {
    match lookup(ms, key) {
        None => out.len() == 0,
        Some(JsonNode::Arr(ns)) => out.len() == ns@.len() && forall|i: int|
            0 <= i < ns@.len() ==> ((#[trigger] ns@[i]) matches JsonNode::Str(s) && out[i]@ == s@),
        Some(_) => false,
    }
}

/// `n` is an object whose `type`, `mediaType` and `url` members all read
/// as strings under the permissive policy.
pub open spec fn att_ok(n: JsonNode) -> bool {
    match n {
        JsonNode::Obj(ms) => {
            &&& spec_str(ms@, "type"@) is Some
            &&& spec_str(ms@, "mediaType"@) is Some
            &&& spec_str(ms@, "url"@) is Some
        },
        _ => false,
    }
}

/// `a` is exactly the attachment that the node `n` decodes to.
pub open spec fn att_matches(n: JsonNode, a: Attachment) -> bool {
    match n {
        JsonNode::Obj(ms) => {
            &&& spec_str(ms@, "type"@) == Some(a.type_field@)
            &&& spec_str(ms@, "mediaType"@) == Some(a.media_type@)
            &&& spec_str(ms@, "url"@) == Some(a.url@)
        },
        _ => false,
    }
}

/// The `attachment` member is absent or an array of decodable objects.
pub open spec fn att_list_ok(ms: Seq<(String, JsonNode)>) -> bool {
    match lookup(ms, "attachment"@) {
        None => true,
        Some(JsonNode::Arr(ns)) => forall|i: int| 0 <= i < ns@.len() ==> att_ok(#[trigger] ns@[i]),
        Some(_) => false,
    }
}

/// `out` is exactly the attachment list that the `attachment` member
/// decodes to, in array order (empty when absent).
pub open spec fn att_list_matches(ms: Seq<(String, JsonNode)>, out: Seq<Attachment>) -> bool {
    match lookup(ms, "attachment"@) {
        None => out.len() == 0,
        Some(JsonNode::Arr(ns)) => out.len() == ns@.len() && forall|i: int|
            0 <= i < ns@.len() ==> att_matches(#[trigger] ns@[i], out[i]),
        Some(_) => false,
    }
}

/// `n` is an object whose `type` and `name` members read as strings.
pub open spec fn tag_ok(n: JsonNode) -> bool {
    match n {
        JsonNode::Obj(ms) => spec_str(ms@, "type"@) is Some && spec_str(ms@, "name"@) is Some,
        _ => false,
    }
}

/// `a` is exactly the tag that the node `n` decodes to.
pub open spec fn tag_matches(n: JsonNode, a: Tag) -> bool {
    match n {
        JsonNode::Obj(ms) => spec_str(ms@, "type"@) == Some(a.type_field@) && spec_str(
            ms@,
            "name"@,
        ) == Some(a.name@),
        _ => false,
    }
}

/// The `tag` member is absent or an array of decodable objects.
pub open spec fn tag_list_ok(ms: Seq<(String, JsonNode)>) -> bool {
    match lookup(ms, "tag"@) {
        None => true,
        Some(JsonNode::Arr(ns)) => forall|i: int| 0 <= i < ns@.len() ==> tag_ok(#[trigger] ns@[i]),
        Some(_) => false,
    }
}

/// `out` is exactly the tag list that the `tag` member decodes to.
pub open spec fn tag_list_matches(ms: Seq<(String, JsonNode)>, out: Seq<Tag>) -> bool {
    match lookup(ms, "tag"@) {
        None => out.len() == 0,
        Some(JsonNode::Arr(ns)) => out.len() == ns@.len() && forall|i: int|
            0 <= i < ns@.len() ==> tag_matches(#[trigger] ns@[i], out[i]),
        Some(_) => false,
    }
}

/// The tree decodes as an asset: it is an object, every known member has
/// the kind the schema asks, and unknown members are ignored.
pub open spec fn tree_decodes(t: Option<JsonNode>) -> bool {
    match t {
        Some(JsonNode::Obj(ms)) => {
            &&& spec_str(ms@, "type"@) is Some
            &&& spec_str(ms@, "actor"@) is Some
            &&& spec_str(ms@, "attributedTo"@) is Some
            &&& att_list_ok(ms@)
            &&& str_list_ok(ms@, "to"@)
            &&& str_list_ok(ms@, "cc"@)
            &&& spec_str(ms@, "content"@) is Some
            &&& tag_list_ok(ms@)
            &&& spec_str(ms@, "published"@) is Some
            &&& spec_str(ms@, "id"@) is Some
            &&& spec_str(ms@, "context"@) is Some
            &&& spec_str(ms@, "conversation"@) is Some
        },
        _ => false,
    }
}

/// `a` is exactly the asset that the tree decodes to, field by field,
/// absent members defaulted to their empty value.
pub open spec fn decoded_asset_matches(t: Option<JsonNode>, a: Asset) -> bool {
    match t {
        Some(JsonNode::Obj(ms)) => {
            &&& spec_str(ms@, "type"@) == Some(a.type_field@)
            &&& spec_str(ms@, "actor"@) == Some(a.actor@)
            &&& spec_str(ms@, "attributedTo"@) == Some(a.attributed_to@)
            &&& att_list_matches(ms@, a.attachment@)
            &&& str_list_matches(ms@, "to"@, a.to@)
            &&& str_list_matches(ms@, "cc"@, a.cc@)
            &&& spec_str(ms@, "content"@) == Some(a.content@)
            &&& tag_list_matches(ms@, a.tag@)
            &&& spec_str(ms@, "published"@) == Some(a.published@)
            &&& spec_str(ms@, "id"@) == Some(a.id@)
            &&& spec_str(ms@, "context"@) == Some(a.context@)
            &&& spec_str(ms@, "conversation"@) == Some(a.conversation@)
        },
        _ => false,
    }
}

/// How many attachments the tree carries (what the schema reads of it).
pub open spec fn spec_att_count(t: Option<JsonNode>) -> int {
    match t {
        Some(JsonNode::Obj(ms)) => match lookup(ms@, "attachment"@) {
            Some(JsonNode::Arr(ns)) => ns@.len() as int,
            _ => 0,
        },
        _ => 0,
    }
}

/// The `url` text of the tree's first attachment.
pub open spec fn spec_first_att_url(t: Option<JsonNode>) -> Seq<char> {
    match t {
        Some(JsonNode::Obj(ms)) => match lookup(ms@, "attachment"@) {
            Some(JsonNode::Arr(ns)) => if ns@.len() > 0 {
                match ns@[0] {
                    JsonNode::Obj(ams) => match spec_str(ams@, "url"@) {
                        Some(u) => u,
                        None => Seq::empty(),
                    },
                    _ => Seq::empty(),
                }
            } else {
                Seq::empty()
            },
            _ => Seq::empty(),
        },
        _ => Seq::empty(),
    }
}

proof fn lemma_att_list_bad(ms: Seq<(String, JsonNode)>, v: Vec<JsonNode>, i: int)
    requires
        lookup(ms, "attachment"@) == Some(JsonNode::Arr(v)),
        0 <= i < v@.len(),
        !att_ok(v@[i]),
    ensures
        !att_list_ok(ms),
{
    if att_list_ok(ms) {
        let n0 = lookup(ms, "attachment"@)->0;
        assert(n0->Arr_0 == v);
        assert(att_ok(n0->Arr_0@[i]));
        assert(false);
    }
}

proof fn lemma_tag_list_bad(ms: Seq<(String, JsonNode)>, v: Vec<JsonNode>, i: int)
    requires
        lookup(ms, "tag"@) == Some(JsonNode::Arr(v)),
        0 <= i < v@.len(),
        !tag_ok(v@[i]),
    ensures
        !tag_list_ok(ms),
{
    if tag_list_ok(ms) {
        let n0 = lookup(ms, "tag"@)->0;
        assert(n0->Arr_0 == v);
        assert(tag_ok(n0->Arr_0@[i]));
        assert(false);
    }
}

/// What the decoded asset's attachment list says of the tree: the lengths
/// agree, and when there is a first attachment it carries the tree's
/// first attachment URL.
pub proof fn lemma_decoded_attachments(t: Option<JsonNode>, a: Asset)
    requires
        decoded_asset_matches(t, a),
    ensures
        a.attachment@.len() == spec_att_count(t),
        a.attachment@.len() > 0 ==> a.attachment@[0].url@ == spec_first_att_url(t),
{
    let ms = t->0->Obj_0;
    match lookup(ms@, "attachment"@) {
        None => {},
        Some(n) => {
            let v = n->Arr_0;
            assert((lookup(ms@, "attachment"@)->0)->Arr_0 == v);
            assert(a.attachment@.len() == v@.len());
            if v@.len() > 0 {
                assert(((lookup(ms@, "attachment"@)->0)->Arr_0)@[0] == v@[0]);
                assert(att_matches(v@[0], a.attachment@[0]));
                assert(a.attachment@[0].url@ == spec_first_att_url(t));
            }
        },
    }
}

fn lookup_member<'a>(ms: &'a Vec<(String, JsonNode)>, key: &str) -> (r: Option<&'a JsonNode>)
    ensures
        match r {
            Some(n) => lookup(ms@, key@) == Some(*n),
            None => lookup(ms@, key@) is None,
        },
{
    let key_string = String::from_str(key);
    assert(ms@.skip(0) =~= ms@);
    let mut i: usize = 0;
    while i < ms.len()
        invariant
            i <= ms@.len(),
            key_string@ == key@,
            lookup(ms@, key@) == lookup(ms@.skip(i as int), key@),
        decreases ms@.len() - i,
    {
        proof {
            assert(ms@.skip(i as int)[0] == ms@[i as int]);
            assert(ms@.skip(i as int).drop_first() =~= ms@.skip(i as int + 1));
        }
        if ms[i].0 == key_string {
            return Some(&ms[i].1);
        }
        i = i + 1;
    }
    proof {
        assert(ms@.skip(ms@.len() as int).len() == 0);
    }
    None
}

/// The member `key` of `ms` read as a string; an absent member is the
/// empty string, a member of any other kind is a decode failure.
fn string_field(ms: &Vec<(String, JsonNode)>, key: &str) -> (r: Result<String, Error>)
    ensures
        match r {
            Ok(s) => spec_str(ms@, key@) == Some(s@),
            Err(e) => e == Error::Decode && spec_str(ms@, key@) is None,
        },
{
    match lookup_member(ms, key) {
        None => Ok(String::new()),
        Some(n) => match n {
            JsonNode::Str(s) => Ok(s.clone()),
            _ => Err(Error::Decode),
        },
    }
}

/// The member `key` read as a list of strings; an absent member is the
/// empty list.
fn string_list_field(ms: &Vec<(String, JsonNode)>, key: &str) -> (r: Result<Vec<String>, Error>)
    ensures
        match r {
            Ok(v) => str_list_ok(ms@, key@) && str_list_matches(ms@, key@, v@),
            Err(e) => e == Error::Decode && !str_list_ok(ms@, key@),
        },
{
    match lookup_member(ms, key) {
        None => Ok(Vec::new()),
        Some(n) => match n {
            JsonNode::Arr(ns) => {
                let mut out: Vec<String> = Vec::new();
                let mut i: usize = 0;
                while i < ns.len()
                    invariant
                        i <= ns@.len(),
                        out@.len() == i,
                        lookup(ms@, key@) == Some(JsonNode::Arr(*ns)),
                        forall|k: int|
                            0 <= k < i ==> ((#[trigger] ns@[k]) matches JsonNode::Str(s) && out@[k]@ == s@),
                    decreases ns@.len() - i,
                {
                    match &ns[i] {
                        JsonNode::Str(s) => out.push(s.clone()),
                        _ => {
                            return Err(Error::Decode);
                        },
                    }
                    i = i + 1;
                }
                Ok(out)
            },
            _ => Err(Error::Decode),
        },
    }
}

/// One attachment record: an object of string members, absent members
/// defaulting to the empty string.
fn attachment_from(n: &JsonNode) -> (r: Result<Attachment, Error>)
    ensures
        match r {
            Ok(a) => att_ok(*n) && att_matches(*n, a),
            Err(e) => e == Error::Decode && !att_ok(*n),
        },
{
    match n {
        JsonNode::Obj(ms) => {
            let type_field = string_field(ms, "type")?;
            let media_type = string_field(ms, "mediaType")?;
            let url = string_field(ms, "url")?;
            Ok(Attachment { type_field, media_type, url })
        },
        _ => Err(Error::Decode),
    }
}

/// One tag record, read like an attachment.
fn tag_from(n: &JsonNode) -> (r: Result<Tag, Error>)
    ensures
        match r {
            Ok(a) => tag_ok(*n) && tag_matches(*n, a),
            Err(e) => e == Error::Decode && !tag_ok(*n),
        },
{
    match n {
        JsonNode::Obj(ms) => {
            let type_field = string_field(ms, "type")?;
            let name = string_field(ms, "name")?;
            Ok(Tag { type_field, name })
        },
        _ => Err(Error::Decode),
    }
}

/// The `attachment` member read as a list of attachments, in array order;
/// an absent member is the empty list.
fn attachment_list_field(ms: &Vec<(String, JsonNode)>) -> (r: Result<Vec<Attachment>, Error>)
    ensures
        match r {
            Ok(v) => att_list_ok(ms@) && att_list_matches(ms@, v@),
            Err(e) => e == Error::Decode && !att_list_ok(ms@),
        },
{
    match lookup_member(ms, "attachment") {
        None => Ok(Vec::new()),
        Some(n) => match n {
            JsonNode::Arr(ns) => {
                let mut out: Vec<Attachment> = Vec::new();
                let mut i: usize = 0;
                while i < ns.len()
                    invariant
                        i <= ns@.len(),
                        out@.len() == i,
                        lookup(ms@, "attachment"@) == Some(JsonNode::Arr(*ns)),
                        forall|k: int|
                            0 <= k < i ==> att_ok(#[trigger] ns@[k]) && att_matches(
                                ns@[k],
                                out@[k],
                            ),
                    decreases ns@.len() - i,
                {
                    let a = match attachment_from(&ns[i]) {
                        Ok(a) => a,
                        Err(e) => {
                            proof {
                                lemma_att_list_bad(ms@, *ns, i as int);
                            }
                            return Err(e);
                        },
                    };
                    out.push(a);
                    i = i + 1;
                }
                Ok(out)
            },
            _ => Err(Error::Decode),
        },
    }
}

/// The `tag` member read as a list of tags.
fn tag_list_field(ms: &Vec<(String, JsonNode)>) -> (r: Result<Vec<Tag>, Error>)
    ensures
        match r {
            Ok(v) => tag_list_ok(ms@) && tag_list_matches(ms@, v@),
            Err(e) => e == Error::Decode && !tag_list_ok(ms@),
        },
{
    match lookup_member(ms, "tag") {
        None => Ok(Vec::new()),
        Some(n) => match n {
            JsonNode::Arr(ns) => {
                let mut out: Vec<Tag> = Vec::new();
                let mut i: usize = 0;
                while i < ns.len()
                    invariant
                        i <= ns@.len(),
                        out@.len() == i,
                        lookup(ms@, "tag"@) == Some(JsonNode::Arr(*ns)),
                        forall|k: int|
                            0 <= k < i ==> tag_ok(#[trigger] ns@[k]) && tag_matches(
                                ns@[k],
                                out@[k],
                            ),
                    decreases ns@.len() - i,
                {
                    let a = match tag_from(&ns[i]) {
                        Ok(a) => a,
                        Err(e) => {
                            proof {
                                lemma_tag_list_bad(ms@, *ns, i as int);
                            }
                            return Err(e);
                        },
                    };
                    out.push(a);
                    i = i + 1;
                }
                Ok(out)
            },
            _ => Err(Error::Decode),
        },
    }
}

/// Decodes a response body into an asset record. The parse is deliberately
/// permissive: unknown members are ignored and absent members take their
/// empty value. It succeeds, with exactly the asset the body's JSON tree
/// decodes to, if and only if the body is well-formed JSON whose tree
/// decodes as an asset; otherwise it fails with `Error::Decode`.
pub fn decode_asset(body: &str) -> (r: Result<Asset, Error>)
    ensures
        match r {
            Ok(a) => tree_decodes(json_tree_of(body@)) && decoded_asset_matches(
                json_tree_of(body@),
                a,
            ),
            Err(e) => e == Error::Decode && !tree_decodes(json_tree_of(body@)),
        },
{
    let tree = parse_json_tree(body);
    let node = match tree {
        Some(n) => n,
        None => {
            return Err(Error::Decode);
        },
    };
    let ms = match &node {
        JsonNode::Obj(ms) => ms,
        _ => {
            return Err(Error::Decode);
        },
    };
    let type_field = string_field(ms, "type")?;
    let actor = string_field(ms, "actor")?;
    let attributed_to = string_field(ms, "attributedTo")?;
    let attachment = attachment_list_field(ms)?;
    let to = string_list_field(ms, "to")?;
    let cc = string_list_field(ms, "cc")?;
    let content = string_field(ms, "content")?;
    let tag = tag_list_field(ms)?;
    let published = string_field(ms, "published")?;
    let id = string_field(ms, "id")?;
    let context = string_field(ms, "context")?;
    let conversation = string_field(ms, "conversation")?;
    Ok(
        Asset {
            type_field,
            actor,
            attributed_to,
            attachment,
            to,
            cc,
            content,
            tag,
            published,
            id,
            context,
            conversation,
        },
    )
}

} // verus!
