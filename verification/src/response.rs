use vstd::prelude::*;
use vstd::string::*;
use std::sync::Arc;
use crate::headers::{
    assoc_map, content_type_key, distinct_keys, lemma_assoc_map_push, lemma_assoc_map_update,
    pairs_view,
};
use crate::text::{
    find_from, find_from_exec, lower_seq, starts_with, starts_with_exec, to_lowercase, trim,
    trimmed,
};

verus! {

/// The received header pairs as character sequences; a `None` value stands
/// for bytes that were not valid text.
pub open spec fn raw_pairs_view(s: Seq<(String, Option<String>)>) -> Seq<
    (Seq<char>, Option<Seq<char>>),
> {
    s.map(
        |i: int, e: (String, Option<String>)|
            (
                e.0@,
                match e.1 {
                    Some(v) => Some(v@),
                    None => None,
                },
            ),
    )
}

/// What the transport engine reported for one completed exchange, already
/// decoded to plain values but not yet collapsed into a snapshot.
pub struct RawReply {
    /// The status code, in the range HTTP allows.
    pub status: u16,
    /// The final URL, after any redirects the engine followed.
    pub url: String,
    /// Header pairs in arrival order; a `None` value was not valid text.
    pub headers: Vec<(String, Option<String>)>,
    /// The body as text, or `None` when it could not be decoded.
    pub body: Option<String>,
}

impl RawReply {
    pub open spec fn wf(&self) -> bool {
        100 <= self.status <= 599
    }
}

/// The header map a received sequence collapses to: values that were not
/// text are dropped, and of entries sharing a name the last wins.
pub open spec fn collapsed_map(s: Seq<(Seq<char>, Option<Seq<char>>)>) -> Map<
    Seq<char>,
    Seq<char>,
>
    decreases s.len(),
{
    if s.len() == 0 {
        Map::empty()
    } else {
        let m = collapsed_map(s.drop_last());
        match s.last().1 {
            Some(v) => m.insert(s.last().0, v),
            None => m,
        }
    }
}

/// The value of the first entry, at or after `i`, whose name lower-cases to
/// `key`; the case-insensitive header lookup.
pub open spec fn find_ci(s: Seq<(Seq<char>, Seq<char>)>, key: Seq<char>, i: int) -> Option<
    Seq<char>,
>
    decreases s.len() - i,
{
    if i < 0 || i >= s.len() {
        None
    } else if lower_seq(s[i].0) == key {
        Some(s[i].1)
    } else {
        find_ci(s, key, i + 1)
    }
}

/// The `charset=` label a content-type parameter starts with.
pub open spec fn charset_label() -> Seq<char> {
    seq!['c', 'h', 'a', 'r', 's', 'e', 't', '=']
}

/// Whether a `;`-separated segment is a charset parameter: trimmed and
/// lower-cased it starts with `charset=`.
pub open spec fn is_charset_segment(seg: Seq<char>) -> bool {
    starts_with(lower_seq(trimmed(seg)), charset_label())
}

/// The charset a matching segment names: the text between the first `=`
/// and the next `=` or the end, trimmed; empty yields nothing.
pub open spec fn charset_value(seg: Seq<char>) -> Option<Seq<char>>
    recommends
        is_charset_segment(seg),
{
    let t = trimmed(seg);
    let j = find_from(t, 8, '=');
    let v = trimmed(t.subrange(8, j));
    if v.len() > 0 {
        Some(v)
    } else {
        None
    }
}

/// Scans the `;`-separated segments of `ct` from `start` on; the first
/// charset segment decides the result.
pub open spec fn charset_in_params(ct: Seq<char>, start: int) -> Option<Seq<char>>
    decreases ct.len() - start,
        via charset_in_params_decreases
{
    if start < 0 || start > ct.len() {
        None
    } else {
        let end = find_from(ct, start, ';');
        let seg = ct.subrange(start, end);
        if is_charset_segment(seg) {
            charset_value(seg)
        } else if end == ct.len() {
            None
        } else {
            charset_in_params(ct, end + 1)
        }
    }
}

#[via_fn]
proof fn charset_in_params_decreases(ct: Seq<char>, start: int) {
    if 0 <= start <= ct.len() {
        crate::text::lemma_find_from_bounds(ct, start, ';');
    }
}

/// The charset parameter of a content-type value: the first `;`-separated
/// segment after the media type that names one.
pub open spec fn spec_charset_of(ct: Seq<char>) -> Option<Seq<char>> {
    let i = find_from(ct, 0, ';');
    if i == ct.len() {
        None
    } else {
        charset_in_params(ct, i + 1)
    }
}

/// A fully materialized response: status, final URL, collapsed headers and
/// the body text.  Immutable once built; share it with `into_shared`.
pub struct ResponseSnapshot {
    status: u16,
    url: String,
    headers: Vec<(String, String)>,
    body: String,
}

impl ResponseSnapshot {
    /// The status code.
    pub closed spec fn spec_status(&self) -> u16 {
        self.status
    }

    /// The final URL.
    pub closed spec fn spec_url(&self) -> Seq<char> {
        self.url@
    }

    /// The stored header pairs, case preserved, in storage order.
    pub closed spec fn spec_headers_seq(&self) -> Seq<(Seq<char>, Seq<char>)> {
        pairs_view(self.headers@)
    }

    /// The headers as a map from names (as received) to values.
    pub open spec fn spec_header_map(&self) -> Map<Seq<char>, Seq<char>> {
        assoc_map(self.spec_headers_seq())
    }

    /// The body text; empty when the body could not be decoded.
    pub closed spec fn spec_body(&self) -> Seq<char> {
        self.body@
    }

    /// The content-type header value, looked up case-insensitively.
    pub open spec fn spec_content_type(&self) -> Option<Seq<char>> {
        find_ci(self.spec_headers_seq(), content_type_key(), 0)
    }

    /// The charset the content-type header names, if any.
    pub open spec fn spec_charset(&self) -> Option<Seq<char>> {
        match self.spec_content_type() {
            Some(ct) => spec_charset_of(ct),
            None => None,
        }
    }

    pub open spec fn wf(&self) -> bool {
        &&& 100 <= self.spec_status() <= 599
        &&& distinct_keys(self.spec_headers_seq())
    }

    /// Drains a raw reply into a snapshot: headers collapse last-wins with
    /// undecodable values dropped, an undecodable body becomes empty text.
    pub fn from_raw(raw: RawReply) -> (r: Self)
        requires
            raw.wf(),
        ensures
            r.wf(),
            r.spec_status() == raw.status,
            r.spec_url() == raw.url@,
            r.spec_header_map() == collapsed_map(raw_pairs_view(raw.headers@)),
            r.spec_body() == match raw.body {
                Some(b) => b@,
                None => Seq::<char>::empty(),
            },
    {
        let mut headers: Vec<(String, String)> = Vec::new();
        let mut k: usize = 0;
        while k < raw.headers.len()
            invariant
                k <= raw.headers@.len(),
                distinct_keys(pairs_view(headers@)),
                assoc_map(pairs_view(headers@)) == collapsed_map(
                    raw_pairs_view(raw.headers@).take(k as int),
                ),
            decreases raw.headers@.len() - k,
        {
            let e = &raw.headers[k];
            match &e.1 {
                Some(v) => {
                    insert_exact(&mut headers, e.0.clone(), v.clone());
                },
                None => {},
            }
            proof {
                assert(raw_pairs_view(raw.headers@).take(k as int + 1).drop_last()
                    =~= raw_pairs_view(raw.headers@).take(k as int));
                assert(raw_pairs_view(raw.headers@).take(k as int + 1).last() == (
                    raw.headers@[k as int].0@,
                    match raw.headers@[k as int].1 {
                        Some(v) => Some(v@),
                        None => None,
                    },
                ));
            }
            k = k + 1;
        }
        proof {
            assert(raw_pairs_view(raw.headers@).take(raw.headers@.len() as int) =~= raw_pairs_view(
                raw.headers@,
            ));
        }
        let body = match raw.body {
            Some(b) => b,
            None => String::new(),
        };
        ResponseSnapshot { status: raw.status, url: raw.url, headers, body }
    }

    /// The status code.
    pub fn status(&self) -> (r: u16)
        ensures
            r == self.spec_status(),
    {
        self.status
    }

    /// The status code, under the name response objects traditionally use.
    pub fn code(&self) -> (r: u16)
        ensures
            r == self.spec_status(),
    {
        self.status
    }

    /// The body text, cloned.
    pub fn body(&self) -> (r: String)
        ensures
            r@ == self.spec_body(),
    {
        self.body.clone()
    }

    /// The body text; what printing a response shows.
    pub fn to_s(&self) -> (r: String)
        ensures
            r@ == self.spec_body(),
    {
        self.body.clone()
    }

    /// The final URL, cloned.
    pub fn uri(&self) -> (r: String)
        ensures
            r@ == self.spec_url(),
    {
        self.url.clone()
    }

    /// The collapsed header pairs, cloned, in storage order.
    pub fn headers(&self) -> (r: Vec<(String, String)>)
        ensures
            r@.len() == self.spec_headers_seq().len(),
            forall|i: int|
                0 <= i < r@.len() ==> ((#[trigger] r@[i]).0@, r@[i].1@)
                    == self.spec_headers_seq()[i],
    {
        let mut out: Vec<(String, String)> = Vec::new();
        let mut k: usize = 0;
        while k < self.headers.len()
            invariant
                k <= self.headers@.len(),
                out@.len() == k,
                forall|i: int| 0 <= i < k ==> out@[i] == self.headers@[i],
            decreases self.headers@.len() - k,
        {
            let e = &self.headers[k];
            out.push((e.0.clone(), e.1.clone()));
            k = k + 1;
        }
        out
    }

    /// Whether a header named `name` (case-insensitively) was received.
    pub fn has_header(&self, name: &str) -> (r: bool)
        ensures
            r == (find_ci(self.spec_headers_seq(), lower_seq(name@), 0) is Some),
    {
        let key = to_lowercase(name);
        match self.find_ci_exec(&key) {
            Some(_) => true,
            None => false,
        }
    }

    /// The first header whose name lower-cases to `key`.
    fn find_ci_exec(&self, key: &String) -> (r: Option<&String>)
        ensures
            match r {
                Some(v) => find_ci(self.spec_headers_seq(), key@, 0) == Some(v@),
                None => find_ci(self.spec_headers_seq(), key@, 0) is None,
            },
    {
        let mut k: usize = 0;
        while k < self.headers.len()
            invariant
                k <= self.headers@.len(),
                find_ci(self.spec_headers_seq(), key@, 0) == find_ci(
                    self.spec_headers_seq(),
                    key@,
                    k as int,
                ),
            decreases self.headers@.len() - k,
        {
            let e = &self.headers[k];
            let lowered = to_lowercase(e.0.as_str());
            if lowered.eq(key) {
                return Some(&self.headers[k].1);
            }
            k = k + 1;
        }
        None
    }

    /// The content-type header value, looked up case-insensitively.
    pub fn content_type(&self) -> (r: Option<String>)
        ensures
            match r {
                Some(v) => self.spec_content_type() == Some(v@),
                None => self.spec_content_type() is None,
            },
    {
        let key = String::from_str("content-type");
        proof {
            reveal_strlit("content-type");
            assert(key@ =~= content_type_key());
        }
        match self.find_ci_exec(&key) {
            Some(v) => Some(v.clone()),
            None => None,
        }
    }

    /// The charset the content-type header names: the value of the first
    /// `charset=` parameter after the media type, trimmed; absent when no
    /// content-type was received, no parameter names one, or it is empty.
    pub fn charset(&self) -> (r: Option<String>)
        ensures
            match r {
                Some(v) => self.spec_charset() == Some(v@),
                None => self.spec_charset() is None,
            },
    {
        let ct = match self.content_type() {
            Some(ct) => ct,
            None => {
                return None;
            },
        };
        charset_of(ct.as_str())
    }

    /// Moves the snapshot behind a reference count so many owners can read
    /// it concurrently.
    pub fn into_shared(self) -> (r: Arc<ResponseSnapshot>)
        ensures
            r == self,
    {
        Arc::new(self)
    }
}

/// Executable counterpart of `spec_charset_of`.
pub fn charset_of(ct: &str) -> (r: Option<String>)
    ensures
        match r {
            Some(v) => spec_charset_of(ct@) == Some(v@),
            None => spec_charset_of(ct@) is None,
        },
{
    let n = ct.unicode_len();
    let first = find_from_exec(ct, 0, ';');
    if first == n {
        return None;
    }
    let mut start = first + 1;
    loop
        invariant
            0 <= start <= n,
            n == ct@.len(),
            spec_charset_of(ct@) == charset_in_params(ct@, start as int),
        decreases n - start,
    {
        let end = find_from_exec(ct, start, ';');
        let seg = ct.substring_char(start, end);
        let t = trim(seg);
        let lowered = to_lowercase(t);
        let is_match = starts_with_exec(lowered.as_str(), "charset=");
        proof {
            reveal_strlit("charset=");
            assert("charset="@ =~= charset_label());
        }
        if is_match {
            assert(lowered@.len() == t@.len());
            let j = find_from_exec(t, 8, '=');
            let v = trim(t.substring_char(8, j));
            if v.unicode_len() > 0 {
                return Some(String::from_str(v));
            } else {
                return None;
            }
        }
        if end == n {
            return None;
        }
        start = end + 1;
    }
}

/// Sets `name` to `value` in an exact-keyed header list, overwriting the
/// entry that already carries the name, if any.
fn insert_exact(entries: &mut Vec<(String, String)>, name: String, value: String)
    requires
        distinct_keys(pairs_view(old(entries)@)),
    ensures
        distinct_keys(pairs_view(final(entries)@)),
        assoc_map(pairs_view(final(entries)@)) == assoc_map(pairs_view(old(entries)@)).insert(
            name@,
            value@,
        ),
{
    let mut k: usize = 0;
    while k < entries.len()
        invariant
            k <= entries@.len(),
            entries@ == old(entries)@,
            distinct_keys(pairs_view(entries@)),
            forall|i: int| 0 <= i < k ==> (#[trigger] pairs_view(entries@)[i]).0 != name@,
        decreases entries@.len() - k,
    {
        let e = &entries[k];
        if e.0.eq(&name) {
            proof {
                lemma_assoc_map_update(pairs_view(entries@), k as int, value@);
            }
            entries[k] = (name, value);
            proof {
                assert(pairs_view(entries@) =~= pairs_view(old(entries)@).update(
                    k as int,
                    (pairs_view(old(entries)@)[k as int].0, value@),
                ));
            }
            return ;
        }
        k = k + 1;
    }
    proof {
        lemma_assoc_map_push(pairs_view(entries@), name@, value@);
    }
    entries.push((name, value));
    proof {
        assert(pairs_view(entries@) =~= pairs_view(old(entries)@).push((name@, value@)));
    }
}

} // verus!
