//! The headers a mask forwards upstream: the caller's own headers, less the
//! local `Host`, with the mask's configured headers always overwriting them.

use vstd::prelude::*;
use vstd::utf8::encode_utf8;

use crate::mask::proxy::{is_enumeration, MaskConfig};
use crate::strmap::{map_entries, string_map};
use crate::text::str_eq;

verus! {

// ---------------------------------------------------------------------------
// What HTTP accepts in a header.
// ---------------------------------------------------------------------------

/// Whether `c` may appear in a header name: a letter, a digit, or one of
/// ``!#$%&'*+-.^_`|~``.
pub open spec fn is_token_char(c: char) -> bool {
    ||| ('a' <= c && c <= 'z')
    ||| ('A' <= c && c <= 'Z')
    ||| ('0' <= c && c <= '9')
    ||| c == '!' || c == '#' || c == '$' || c == '%' || c == '&' || c == '\''
    ||| c == '*' || c == '+' || c == '-' || c == '.' || c == '^' || c == '_'
    ||| c == '`' || c == '|' || c == '~'
}

/// Whether `s` is a header name: one to 65535 token characters.
pub open spec fn header_name_ok(s: Seq<char>) -> bool {
    &&& 1 <= s.len() <= 65535
    &&& forall|i: int| 0 <= i < s.len() ==> is_token_char(#[trigger] s[i])
}

/// A character with ASCII upper case turned to lower case.
pub open spec fn lower_char(c: char) -> char {
    if 'A' <= c && c <= 'Z' {
        ((c as u32) + 32) as char
    } else {
        c
    }
}

/// `s` with ASCII upper case turned to lower case.
pub open spec fn ascii_lower(s: Seq<char>) -> Seq<char> {
    s.map_values(|c: char| lower_char(c))
}

/// Whether a byte may appear in a header value: a tab, or any byte from 32
/// up but DEL.
pub open spec fn header_byte_ok(b: u8) -> bool {
    (b >= 32 && b != 127) || b == 9
}

/// Whether `v` is a header value.
pub open spec fn header_value_ok(v: Seq<u8>) -> bool {
    forall|i: int| 0 <= i < v.len() ==> header_byte_ok(#[trigger] v[i])
}

/// `HeaderName::from_bytes` of the `http` crate (re-exported by
/// `reqwest::header`), on the bytes of `key`: its source accepts one to
/// 65535 bytes, each a token character, and normalizes them to lower case;
/// it refuses anything else. The name's text is returned.
#[verifier::external_body]
fn header_name(key: &str) -> (r: Option<String>)
    ensures
        r is Some <==> header_name_ok(key@),
        r matches Some(n) ==> n@ == ascii_lower(key@),
{
    reqwest::header::HeaderName::from_bytes(key.as_bytes()).ok().map(|n| n.as_str().to_string())
}

/// `HeaderValue::from_bytes` of the `http` crate (re-exported by
/// `reqwest::header`): its source accepts exactly the byte strings whose
/// every byte is a tab or at least 32 and not DEL. (`HeaderValue::from_str`
/// runs the same check over the bytes of a string.)
#[verifier::external_body]
fn header_value_valid(value: &Vec<u8>) -> (b: bool)
    ensures
        b == header_value_ok(value@),
{
    reqwest::header::HeaderValue::from_bytes(value.as_slice()).is_ok()
}

// ---------------------------------------------------------------------------
// The merge.
// ---------------------------------------------------------------------------

/// The headers as a map: each entry inserted in order, a later one
/// replacing an earlier one of the same name.
pub open spec fn header_map(s: Seq<(Seq<char>, Seq<u8>)>) -> Map<Seq<char>, Seq<u8>>
    decreases s.len(),
{
    if s.len() == 0 {
        Map::empty()
    } else {
        header_map(s.drop_last()).insert(s.last().0, s.last().1)
    }
}

/// The caller's headers that go upstream, in order and normalized: the
/// local `host` header, and any header whose name or value is not valid,
/// are dropped.
pub open spec fn kept_request(req: Seq<(Seq<char>, Seq<u8>)>) -> Seq<(Seq<char>, Seq<u8>)>
    decreases req.len(),
{
    if req.len() == 0 {
        Seq::empty()
    } else {
        let prev = kept_request(req.drop_last());
        let k = req.last().0;
        let v = req.last().1;
        if header_name_ok(k) && ascii_lower(k) != "host"@ && header_value_ok(v) {
            prev.push((ascii_lower(k), v))
        } else {
            prev
        }
    }
}

/// The mask's headers that are injected, in the order given and
/// normalized: any whose name or value is not valid is dropped.
pub open spec fn kept_mask(es: Seq<(Seq<char>, Seq<char>)>) -> Seq<(Seq<char>, Seq<u8>)>
    decreases es.len(),
{
    if es.len() == 0 {
        Seq::empty()
    } else {
        let prev = kept_mask(es.drop_last());
        let k = es.last().0;
        let v = encode_utf8(es.last().1);
        if header_name_ok(k) && header_value_ok(v) {
            prev.push((ascii_lower(k), v))
        } else {
            prev
        }
    }
}

/// The headers forwarded for a request: the caller's kept headers, then the
/// mask's, each replacing any header of the same name.
pub open spec fn forwarded(req: Seq<(Seq<char>, Seq<u8>)>, es: Seq<(Seq<char>, Seq<char>)>) -> Map<
    Seq<char>,
    Seq<u8>,
> {
    header_map(kept_request(req) + kept_mask(es))
}

/// A list of headers as plain values.
pub open spec fn headers_view(v: Seq<(String, Vec<u8>)>) -> Seq<(Seq<char>, Seq<u8>)> {
    v.map_values(|h: (String, Vec<u8>)| (h.0@, h.1@))
}

/// Whether no two headers of a list share a name.
pub open spec fn names_distinct(s: Seq<(Seq<char>, Seq<u8>)>) -> bool {
    forall|i: int, j: int| 0 <= i < j < s.len() ==> s[i].0 != s[j].0
}

proof fn lemma_header_map_distinct(s: Seq<(Seq<char>, Seq<u8>)>)
    requires
        names_distinct(s),
    ensures
        forall|k: Seq<char>|
            #[trigger] header_map(s).dom().contains(k) <==> exists|i: int|
                0 <= i < s.len() && s[i].0 == k,
        forall|i: int| 0 <= i < s.len() ==> header_map(s)[#[trigger] s[i].0] == s[i].1,
    decreases s.len(),
{
    if s.len() > 0 {
        let p = s.drop_last();
        lemma_header_map_distinct(p);
        assert forall|k: Seq<char>|
            #[trigger] header_map(s).dom().contains(k) <==> exists|i: int|
                0 <= i < s.len() && s[i].0 == k by {
            if header_map(s).dom().contains(k) {
                if k == s.last().0 {
                    assert(s[s.len() - 1].0 == k);
                } else {
                    assert(header_map(p).dom().contains(k));
                    let i = choose|i: int| 0 <= i < p.len() && p[i].0 == k;
                    assert(p[i] == s[i]);
                    assert(s[i].0 == k);
                }
            }
            if exists|i: int| 0 <= i < s.len() && s[i].0 == k {
                let i = choose|i: int| 0 <= i < s.len() && s[i].0 == k;
                if i < s.len() - 1 {
                    assert(p[i] == s[i]);
                    assert(p[i].0 == k);
                    assert(header_map(p).dom().contains(k));
                }
            }
        }
        assert forall|i: int| 0 <= i < s.len() implies header_map(s)[#[trigger] s[i].0] == s[i].1 by {
            if i < s.len() - 1 {
                assert(p[i] == s[i]);
                assert(s[i].0 != s.last().0);
            }
        }
    }
}

proof fn lemma_header_map_update(s: Seq<(Seq<char>, Seq<u8>)>, j: int, v: Seq<u8>)
    requires
        names_distinct(s),
        0 <= j < s.len(),
    ensures
        header_map(s.update(j, (s[j].0, v))) == header_map(s).insert(s[j].0, v),
        names_distinct(s.update(j, (s[j].0, v))),
    decreases s.len(),
{
    let t = s.update(j, (s[j].0, v));
    if j == s.len() - 1 {
        assert(t.drop_last() =~= s.drop_last());
        assert(header_map(s).insert(s[j].0, v) =~= header_map(s.drop_last()).insert(s[j].0, v));
    } else {
        lemma_header_map_update(s.drop_last(), j, v);
        assert(t.drop_last() =~= s.drop_last().update(j, (s[j].0, v)));
        assert(s.last().0 != s[j].0);
        assert(header_map(t) =~= header_map(s).insert(s[j].0, v));
    }
}

proof fn lemma_header_map_absent(a: Seq<(Seq<char>, Seq<u8>)>, b: Seq<(Seq<char>, Seq<u8>)>, n: Seq<char>)
    requires
        forall|i: int| 0 <= i < b.len() ==> (#[trigger] b[i]).0 != n,
    ensures
        header_map(a + b).dom().contains(n) == header_map(a).dom().contains(n),
        header_map(a).dom().contains(n) ==> header_map(a + b)[n] == header_map(a)[n],
    decreases b.len(),
{
    if b.len() == 0 {
        assert(a + b =~= a);
    } else {
        assert((a + b).drop_last() =~= a + b.drop_last());
        assert((a + b).last() == b.last());
        assert(b.last() == b[b.len() - 1]);
        lemma_header_map_absent(a, b.drop_last(), n);
    }
}

proof fn lemma_header_map_all_same(a: Seq<(Seq<char>, Seq<u8>)>, b: Seq<(Seq<char>, Seq<u8>)>, n: Seq<char>, v: Seq<u8>)
    requires
        exists|i: int| 0 <= i < b.len() && (#[trigger] b[i]).0 == n,
        forall|i: int| 0 <= i < b.len() && (#[trigger] b[i]).0 == n ==> b[i].1 == v,
    ensures
        header_map(a + b).dom().contains(n),
        header_map(a + b)[n] == v,
    decreases b.len(),
{
    assert((a + b).drop_last() =~= a + b.drop_last());
    assert((a + b).last() == b.last());
    assert(b.last() == b[b.len() - 1]);
    if b.last().0 != n {
        let i = choose|i: int| 0 <= i < b.len() && (#[trigger] b[i]).0 == n;
        assert(b.drop_last()[i] == b[i]);
        assert forall|j: int| 0 <= j < b.drop_last().len() && (#[trigger] b.drop_last()[j]).0 == n implies b.drop_last()[j].1 == v by {
            assert(b.drop_last()[j] == b[j]);
        }
        lemma_header_map_all_same(a, b.drop_last(), n, v);
    }
}

/// Whether entry `i` of `es` is a valid configured header that is kept as
/// `e`.
spec fn kept_from(es: Seq<(Seq<char>, Seq<char>)>, i: int, e: (Seq<char>, Seq<u8>)) -> bool {
    &&& 0 <= i < es.len()
    &&& header_name_ok(es[i].0)
    &&& header_value_ok(encode_utf8(es[i].1))
    &&& e == (ascii_lower(es[i].0), encode_utf8(es[i].1))
}

/// Each kept header of the mask comes from a valid configured header.
proof fn lemma_kept_mask_source(es: Seq<(Seq<char>, Seq<char>)>, x: int)
    requires
        0 <= x < kept_mask(es).len(),
    ensures
        exists|i: int| kept_from(es, i, kept_mask(es)[x]),
    decreases es.len(),
{
    let p = es.drop_last();
    let kp = kept_mask(p);
    if x < kp.len() {
        lemma_kept_mask_source(p, x);
        let i = choose|i: int| kept_from(p, i, kp[x]);
        assert(p[i] == es[i]);
        assert(kept_from(es, i, kept_mask(es)[x]));
    } else {
        assert(es[es.len() - 1] == es.last());
        assert(kept_from(es, es.len() - 1, kept_mask(es)[x]));
    }
}

/// Each valid configured header is kept.
proof fn lemma_kept_mask_keeps(es: Seq<(Seq<char>, Seq<char>)>, i: int)
    requires
        0 <= i < es.len(),
        header_name_ok(es[i].0),
        header_value_ok(encode_utf8(es[i].1)),
    ensures
        kept_mask(es).contains((ascii_lower(es[i].0), encode_utf8(es[i].1))),
    decreases es.len(),
{
    let p = es.drop_last();
    let k = kept_mask(es);
    if i < es.len() - 1 {
        assert(p[i] == es[i]);
        lemma_kept_mask_keeps(p, i);
        let x = choose|x: int| 0 <= x < kept_mask(p).len() && kept_mask(p)[x] == (ascii_lower(p[i].0), encode_utf8(p[i].1));
        assert(k[x] == kept_mask(p)[x]);
    } else {
        assert(es[i] == es.last());
        assert(k[k.len() - 1] == (ascii_lower(es[i].0), encode_utf8(es[i].1)));
    }
}

/// No header the caller sends is kept under the name `host`.
proof fn lemma_kept_request_no_host(req: Seq<(Seq<char>, Seq<u8>)>)
    ensures
        forall|x: int| 0 <= x < kept_request(req).len() ==> (#[trigger] kept_request(req)[x]).0 != "host"@,
    decreases req.len(),
{
    if req.len() > 0 {
        lemma_kept_request_no_host(req.drop_last());
        let kp = kept_request(req.drop_last());
        assert forall|x: int| 0 <= x < kept_request(req).len() implies (#[trigger] kept_request(req)[x]).0 != "host"@ by {
            if x < kp.len() {
                assert(kept_request(req)[x] == kp[x]);
            }
        }
    }
}

/// A valid configured header, the only one of its name, is forwarded with
/// its value.
proof fn lemma_configured_wins(
    req: Seq<(Seq<char>, Seq<u8>)>,
    es: Seq<(Seq<char>, Seq<char>)>,
    m: Map<Seq<char>, Seq<char>>,
    k: Seq<char>,
)
    requires
        is_enumeration(es, m),
        sets_header(m, k, ascii_lower(k)),
        forall|k2: Seq<char>| sets_header(m, k2, ascii_lower(k)) ==> k2 == k,
    ensures
        forwarded(req, es).dom().contains(ascii_lower(k)),
        forwarded(req, es)[ascii_lower(k)] == encode_utf8(m[k]),
{
    let a = kept_request(req);
    let b = kept_mask(es);
    let n = ascii_lower(k);
    assert(m.dom().contains(k));
    let i = choose|i: int| 0 <= i < es.len() && es[i].0 == k;
    lemma_kept_mask_keeps(es, i);
    let x = choose|x: int| 0 <= x < b.len() && b[x] == (ascii_lower(es[i].0), encode_utf8(es[i].1));
    assert(b[x].0 == n);
    assert forall|y: int| 0 <= y < b.len() && (#[trigger] b[y]).0 == n implies b[y].1 == encode_utf8(m[k]) by {
        lemma_kept_mask_source(es, y);
        let j = choose|j: int| kept_from(es, j, b[y]);
        assert(m.dom().contains(es[j].0) && m[es[j].0] == es[j].1);
        assert(sets_header(m, es[j].0, n));
    }
    lemma_header_map_all_same(a, b, n, encode_utf8(m[k]));
}

/// A header no valid configured header sets is forwarded as the caller's
/// kept headers give it.
proof fn lemma_unset_kept(
    req: Seq<(Seq<char>, Seq<u8>)>,
    es: Seq<(Seq<char>, Seq<char>)>,
    m: Map<Seq<char>, Seq<char>>,
    n: Seq<char>,
)
    requires
        is_enumeration(es, m),
        forall|k: Seq<char>| !sets_header(m, k, n),
    ensures
        forwarded(req, es).dom().contains(n) == header_map(kept_request(req)).dom().contains(n),
        header_map(kept_request(req)).dom().contains(n) ==> forwarded(req, es)[n] == header_map(
            kept_request(req),
        )[n],
{
    let b = kept_mask(es);
    assert forall|y: int| 0 <= y < b.len() implies (#[trigger] b[y]).0 != n by {
        lemma_kept_mask_source(es, y);
        let j = choose|j: int| kept_from(es, j, b[y]);
        let k = es[j].0;
        assert(0 <= j < es.len());
        assert(is_enumeration(es, m));
        assert(m.dom().contains(es[j].0));
        assert(m.dom().contains(k) && m[k] == es[j].1);
        if b[y].0 == n {
            assert(sets_header(m, k, n));
        }
    }
    lemma_header_map_absent(kept_request(req), b, n);
}

/// Whether configured header `k` of `m` is valid and sets header `n`.
pub open spec fn sets_header(m: Map<Seq<char>, Seq<char>>, k: Seq<char>, n: Seq<char>) -> bool {
    &&& m.dom().contains(k)
    &&& header_name_ok(k)
    &&& header_value_ok(encode_utf8(m[k]))
    &&& ascii_lower(k) == n
}

/// A law of masks: configured headers always overwrite the caller's. Taken
/// in any order:
/// - a valid configured header, the only one of its name up to case, is
///   forwarded with its configured value, whatever the caller sent;
/// - a header that no valid configured header sets is forwarded exactly as
///   the caller's kept headers give it;
/// - the caller's own `host` header is never kept.
pub proof fn lemma_mask_headers_overwrite(
    req: Seq<(Seq<char>, Seq<u8>)>,
    es: Seq<(Seq<char>, Seq<char>)>,
    m: Map<Seq<char>, Seq<char>>,
)
    requires
        is_enumeration(es, m),
    ensures
        forall|k: Seq<char>|
            #[trigger] sets_header(m, k, ascii_lower(k)) && (forall|k2: Seq<char>|
                sets_header(m, k2, ascii_lower(k)) ==> k2 == k) ==> forwarded(req, es).dom().contains(
                ascii_lower(k),
            ) && forwarded(req, es)[ascii_lower(k)] == encode_utf8(m[k]),
        forall|n: Seq<char>|
            (forall|k: Seq<char>| !sets_header(m, k, n)) ==> (#[trigger] forwarded(req, es).dom().contains(n)
                == header_map(kept_request(req)).dom().contains(n)) && (header_map(
                kept_request(req),
            ).dom().contains(n) ==> forwarded(req, es)[n] == header_map(kept_request(req))[n]),
        !header_map(kept_request(req)).dom().contains("host"@),
{
    let a = kept_request(req);
    let b = kept_mask(es);
    assert forall|k: Seq<char>|
        #[trigger] sets_header(m, k, ascii_lower(k)) && (forall|k2: Seq<char>|
            sets_header(m, k2, ascii_lower(k)) ==> k2 == k) implies forwarded(req, es).dom().contains(
            ascii_lower(k),
        ) && forwarded(req, es)[ascii_lower(k)] == encode_utf8(m[k]) by {
        lemma_configured_wins(req, es, m, k);
    }
    assert forall|n: Seq<char>|
        (forall|k: Seq<char>| !sets_header(m, k, n)) implies (#[trigger] forwarded(req, es).dom().contains(n)
            == header_map(a).dom().contains(n)) && (header_map(a).dom().contains(n) ==> forwarded(
            req,
            es,
        )[n] == header_map(a)[n]) by {
        lemma_unset_kept(req, es, m, n);
    }
    lemma_kept_request_no_host(req);
    lemma_header_map_absent(Seq::empty(), a, "host"@);
    assert(Seq::<(Seq<char>, Seq<u8>)>::empty() + a =~= a);
}

/// Sets header `name` to `value`, replacing the header of that name if
/// there is one.
fn put_header(out: &mut Vec<(String, Vec<u8>)>, name: String, value: Vec<u8>)
    requires
        names_distinct(headers_view(old(out)@)),
    ensures
        names_distinct(headers_view(final(out)@)),
        header_map(headers_view(final(out)@)) == header_map(headers_view(old(out)@)).insert(
            name@,
            value@,
        ),
{
    let ghost s = headers_view(out@);
    let mut j: usize = 0;
    while j < out.len() && !str_eq(out[j].0.as_str(), name.as_str())
        invariant
            j <= out.len(),
            s == headers_view(out@),
            forall|i: int| 0 <= i < j ==> (#[trigger] s[i]).0 != name@,
        decreases out.len() - j,
    {
        j = j + 1;
    }
    if j < out.len() {
        proof {
            lemma_header_map_update(s, j as int, value@);
        }
        out.set(j, (name, value));
        assert(headers_view(out@) =~= s.update(j as int, (s[j as int].0, value@)));
    } else {
        out.push((name, value));
        assert(headers_view(out@) =~= s.push((name@, value@)));
        assert(headers_view(out@).drop_last() =~= s);
    }
}

/// The headers a mask forwards for a request with headers `request` (in
/// the order the request carries them): the request's own, without the
/// local `host` header and without any whose name or value HTTP refuses,
/// each name keeping its last value; then each configured header of the
/// mask, which always overwrites a header of the same name. Names come
/// out in lower case, each once. The configured headers are taken in the
/// order their map is walked, which depends on the hasher's seed; the
/// statement holds for some enumeration of them.
pub fn forwarded_headers(request: &Vec<(String, Vec<u8>)>, config: &MaskConfig) -> (r: Vec<
    (String, Vec<u8>),
>)
    ensures
        names_distinct(headers_view(r@)),
        exists|es: Seq<(Seq<char>, Seq<char>)>|
            #[trigger] is_enumeration(es, string_map(config.headers)) && header_map(
                headers_view(r@),
            ) == forwarded(headers_view(request@), es),
{
    let ghost rq = headers_view(request@);
    let mut out: Vec<(String, Vec<u8>)> = Vec::new();
    let mut i: usize = 0;
    assert(rq.take(0) =~= Seq::<(Seq<char>, Seq<u8>)>::empty());
    assert(headers_view(out@) =~= Seq::<(Seq<char>, Seq<u8>)>::empty());
    while i < request.len()
        invariant
            i <= request.len(),
            rq == headers_view(request@),
            names_distinct(headers_view(out@)),
            header_map(headers_view(out@)) == header_map(kept_request(rq.take(i as int))),
        decreases request.len() - i,
    {
        assert(rq.take(i + 1).drop_last() =~= rq.take(i as int));
        assert(rq.take(i + 1).last() == rq[i as int]);
        let key = &request[i].0;
        let value = &request[i].1;
        assert(rq[i as int] == (key@, value@));
        let ghost prev = kept_request(rq.take(i as int));
        let ghost next = kept_request(rq.take(i + 1));
        match header_name(key.as_str()) {
            Some(name) => {
                if !str_eq(name.as_str(), "host") && header_value_valid(value) {
                    assert(next == prev.push((ascii_lower(key@), value@)));
                    put_header(&mut out, name, value.clone());
                    assert(header_map(next) == header_map(prev).insert(ascii_lower(key@), value@)) by {
                        assert(next.drop_last() =~= prev);
                    }
                } else {
                    assert(next == prev);
                }
            },
            None => {
                assert(next == prev);
            },
        }
        i = i + 1;
    }
    assert(rq.take(request.len() as int) =~= rq);
    let entries = map_entries(&config.headers);
    let ghost es = entries@.map_values(|p: (String, String)| (p.0@, p.1@));
    let ghost kr = kept_request(rq);
    let mut j: usize = 0;
    assert(es.take(0) =~= Seq::<(Seq<char>, Seq<char>)>::empty());
    assert(kr + kept_mask(es.take(0)) =~= kr);
    while j < entries.len()
        invariant
            j <= entries.len(),
            es == entries@.map_values(|p: (String, String)| (p.0@, p.1@)),
            kr == kept_request(rq),
            names_distinct(headers_view(out@)),
            header_map(headers_view(out@)) == header_map(kr + kept_mask(es.take(j as int))),
        decreases entries.len() - j,
    {
        assert(es.take(j + 1).drop_last() =~= es.take(j as int));
        assert(es.take(j + 1).last() == es[j as int]);
        let key = &entries[j].0;
        let bytes = entries[j].1.as_str().as_bytes_vec();
        assert(es[j as int] == (key@, entries[j as int].1@));
        let ghost prev = kr + kept_mask(es.take(j as int));
        let ghost next = kr + kept_mask(es.take(j + 1));
        match header_name(key.as_str()) {
            Some(name) => {
                if header_value_valid(&bytes) {
                    assert(next =~= prev.push((ascii_lower(key@), bytes@)));
                    put_header(&mut out, name, bytes);
                    assert(header_map(next) == header_map(prev).insert(ascii_lower(key@), bytes@)) by {
                        assert(next.drop_last() =~= prev);
                    }
                } else {
                    assert(next =~= prev);
                }
            },
            None => {
                assert(next =~= prev);
            },
        }
        j = j + 1;
    }
    assert(es.take(entries.len() as int) =~= es);
    proof {
        let m = string_map(config.headers);
        assert forall|k: Seq<char>| #[trigger] m.dom().contains(k) implies exists|i: int|
            0 <= i < es.len() && es[i].0 == k by {
            let i = choose|i: int| 0 <= i < entries@.len() && entries@[i].0@ == k;
            assert(es[i].0 == k);
        }
        assert(is_enumeration(es, m));
    }
    out
}

} // verus!
