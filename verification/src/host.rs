use vstd::prelude::*;

use crate::Error;
use crate::fmt::{format_path, path_chars};
use crate::time::Timestamp;

verus! {

/// An absolute base URL, held as the three parts the tool reads:
/// the scheme, the authority (host, with any port), and the path.
/// Serialized it reads `scheme://authority path`.
#[derive(Debug, Clone, PartialEq)]
pub struct HostUrl {
    pub scheme: String,
    pub authority: String,
    pub path: String,
}

impl HostUrl {
    /// A base can take a relative join only when its path is rooted;
    /// otherwise resolution fails, as it does for URLs that cannot be
    /// a base.
    pub open spec fn base_accepts(self) -> bool {
        self.path@.len() > 0 && self.path@[0] == '/'
    }
}

/// The position of the last `/` in `p`, or `-1` if there is none.
pub open spec fn last_slash_idx(p: Seq<char>) -> int
    decreases p.len(),
{
    if p.len() == 0 {
        -1
    } else if p[p.len() - 1] == '/' {
        p.len() - 1
    } else {
        last_slash_idx(p.drop_last())
    }
}

/// Merging a relative path reference onto a base path, as RFC 3986
/// prescribes: everything after the last `/` of the base is dropped and
/// the reference is appended.
pub open spec fn merged_path(base: Seq<char>, rel: Seq<char>) -> Seq<char> {
    base.take(last_slash_idx(base) + 1) + rel
}

/// The absolute URL that `resolve` returns for `h` and `t`.
pub open spec fn resolved_chars(h: HostUrl, t: Timestamp) -> Seq<char> {
    h.scheme@ + seq![':', '/', '/'] + h.authority@ + merged_path(h.path@, path_chars(t))
}

proof fn lemma_last_slash_at(p: Seq<char>, k: int)
    requires
        0 <= k < p.len(),
        p[k] == '/',
        forall|j: int| k < j < p.len() ==> p[j] != '/',
    ensures
        last_slash_idx(p) == k,
    decreases p.len(),
{
    if k < p.len() - 1 {
        assert(p[p.len() - 1] != '/');
        assert(p.drop_last()[k] == p[k]);
        lemma_last_slash_at(p.drop_last(), k);
    }
}

/// Resolves the asset path for `t` against the base `host`: the result
/// is an absolute URL in `host`'s scheme and authority whose path is the
/// RFC 3986 merge of `host`'s path and the formatted relative path.
/// Fails exactly when the base cannot accept a relative join.
pub fn resolve(host: &HostUrl, t: &Timestamp) -> (r: Result<String, Error>)
    requires
        t.valid(),
    ensures
        match r {
            Ok(s) => host.base_accepts() && s@ == resolved_chars(*host, *t),
            Err(e) => e == Error::UrlResolution && !host.base_accepts(),
        },
{
    let plen = host.path.as_str().unicode_len();
    if plen == 0 || host.path.as_str().get_char(0) != '/' {
        return Err(Error::UrlResolution);
    }
    let ghost p = host.path@;
    let mut i: usize = plen;
    loop
        invariant_except_break
            1 <= i <= plen,
            plen == p.len(),
            p[0] == '/',
            p == host.path@,
            forall|j: int| i <= j < plen ==> p[j] != '/',
        ensures
            0 <= i < plen && p[i as int] == '/' && forall|j: int| i < j < plen ==> p[j] != '/',
            p == host.path@,
            plen == p.len(),
        decreases i,
    {
        i = i - 1;
        if host.path.as_str().get_char(i) == '/' {
            break;
        }
    }
    proof {
        lemma_last_slash_at(p, i as int);
    }
    let prefix = host.path.as_str().substring_char(0, i + 1);
    let rel = format_path(t);
    let mut s = String::new();
    proof {
        reveal_strlit("://");
    }
    s.append(host.scheme.as_str());
    s.append("://");
    s.append(host.authority.as_str());
    s.append(prefix);
    s.append(rel.as_str());
    assert(s@ =~= resolved_chars(*host, *t));
    Ok(s)
}

/// For a base whose path names a directory (it ends in `/`), the merged
/// path is the base path with the relative asset path appended verbatim,
/// so the resolved URL's path is `host.path + path_chars(t)`.
pub proof fn lemma_resolve_appends_to_dir(h: HostUrl, t: Timestamp)
    requires
        h.base_accepts(),
        h.path@.last() == '/',
    ensures
        merged_path(h.path@, path_chars(t)) == h.path@ + path_chars(t),
{
    lemma_last_slash_at(h.path@, h.path@.len() - 1);
    assert(h.path@.take(h.path@.len() as int) =~= h.path@);
}

/// A resolved path is itself rooted: the merge keeps the base's leading `/`.
pub proof fn lemma_resolved_path_rooted(h: HostUrl, t: Timestamp)
    requires
        h.base_accepts(),
    ensures
        merged_path(h.path@, path_chars(t)).len() > 0,
        merged_path(h.path@, path_chars(t))[0] == '/',
    decreases h.path@.len(),
{
    lemma_last_slash_nonneg(h.path@);
}

proof fn lemma_last_slash_nonneg(p: Seq<char>)
    requires
        p.len() > 0,
        p[0] == '/',
    ensures
        0 <= last_slash_idx(p) < p.len(),
        p[last_slash_idx(p)] == '/',
    decreases p.len(),
{
    if p.len() > 1 && p[p.len() - 1] != '/' {
        assert(p.drop_last()[0] == p[0]);
        lemma_last_slash_nonneg(p.drop_last());
    }
}

} // verus!
