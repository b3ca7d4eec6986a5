//! Mask proxy configuration and error sanitizing. The proxy server itself
//! (sockets, HTTP forwarding) lives with the application's I/O.

use std::collections::HashMap;
use vstd::prelude::*;

use crate::strmap::{map_entries, string_map};
use crate::text::{contains_str, lemma_replace_absent, occurs_at, occurs_in, replace, replace_all};

verus! {

/// Configuration for a mask proxy instance.
#[derive(Debug, Clone)]
pub struct MaskConfig {
    pub name: String,
    pub target_url: String,
    pub listen_port: u16,
    /// Headers to inject (overwrite). Key -> Value.
    pub headers: HashMap<String, String>,
}

/// The text that replaces header values in error messages.
pub open spec fn redacted() -> Seq<char> {
    "[REDACTED]"@
}

/// `s` with every value of `values`, one after another in order, replaced
/// by [`redacted`].
pub open spec fn redact_all(s: Seq<char>, values: Seq<Seq<char>>) -> Seq<char>
    decreases values.len(),
{
    if values.len() == 0 {
        s
    } else {
        replace_all(redact_all(s, values.drop_last()), values.last(), redacted())
    }
}

/// Whether `es` lists the entries of `m`, each key once, in some order.
pub open spec fn is_enumeration(es: Seq<(Seq<char>, Seq<char>)>, m: Map<Seq<char>, Seq<char>>) -> bool {
    &&& forall|i: int| 0 <= i < es.len() ==> #[trigger] m.dom().contains(es[i].0) && m[es[i].0] == es[i].1
    &&& forall|i: int, j: int| 0 <= i < j < es.len() ==> es[i].0 != es[j].0
    &&& forall|k: Seq<char>| #[trigger] m.dom().contains(k) ==> exists|i: int| 0 <= i < es.len() && es[i].0 == k
}

/// The values of a list of entries.
pub open spec fn entry_values(es: Seq<(Seq<char>, Seq<char>)>) -> Seq<Seq<char>> {
    es.map_values(|e: (Seq<char>, Seq<char>)| e.1)
}

/// A law of redaction: an error message in which no (non-empty) header
/// value occurs comes out unchanged.
pub proof fn lemma_redact_untouched(s: Seq<char>, values: Seq<Seq<char>>)
    requires
        forall|k: int| 0 <= k < values.len() ==> (#[trigger] values[k]).len() > 0,
        forall|k: int, i: int| 0 <= k < values.len() ==> !#[trigger] occurs_at(s, values[k], i),
    ensures
        redact_all(s, values) == s,
    decreases values.len(),
{
    if values.len() > 0 {
        let p = values.drop_last();
        assert forall|k: int| 0 <= k < p.len() implies (#[trigger] p[k]).len() > 0 by {
            assert(p[k] == values[k]);
        }
        assert forall|k: int, i: int| 0 <= k < p.len() implies !#[trigger] occurs_at(s, p[k], i) by {
            assert(p[k] == values[k]);
        }
        lemma_redact_untouched(s, p);
        let last = values[values.len() - 1];
        assert(last == values.last());
        assert forall|i: int| !#[trigger] occurs_at(s, last, i) by {}
        lemma_replace_absent(s, last, redacted());
    }
}

/// Replaces each of `values`, in order, by "[REDACTED]" in `error`.
pub fn redact_values(error: &str, values: &Vec<String>) -> (r: String)
    ensures
        r@ == redact_all(error@, values@.map_values(|v: String| v@)),
{
    let ghost vs = values@.map_values(|v: String| v@);
    let mut out = String::from_str(error);
    let mut i: usize = 0;
    assert(vs.take(0) =~= Seq::<Seq<char>>::empty());
    while i < values.len()
        invariant
            i <= values.len(),
            vs == values@.map_values(|v: String| v@),
            out@ == redact_all(error@, vs.take(i as int)),
        decreases values.len() - i,
    {
        assert(vs.take(i + 1).drop_last() =~= vs.take(i as int));
        out = replace(out.as_str(), values[i].as_str(), "[REDACTED]");
        i = i + 1;
    }
    assert(vs.take(values.len() as int) =~= vs);
    out
}

/// The non-empty values of a list of entries, in order.
pub open spec fn nonempty_values(es: Seq<(Seq<char>, Seq<char>)>) -> Seq<Seq<char>>
    decreases es.len(),
{
    if es.len() == 0 {
        Seq::empty()
    } else if es.last().1.len() > 0 {
        nonempty_values(es.drop_last()).push(es.last().1)
    } else {
        nonempty_values(es.drop_last())
    }
}

/// Whether no non-empty value of `m` occurs in `s`.
pub open spec fn free_of_values(s: Seq<char>, m: Map<Seq<char>, Seq<char>>) -> bool {
    forall|k: Seq<char>| #[trigger] m.dom().contains(k) && m[k].len() > 0 ==> !occurs_in(s, m[k])
}

/// An error message with the header values of `m`, taken in the order
/// `es`, replaced by "[REDACTED]". Where a value still shows afterwards (it
/// lies inside the marker, or one replacement made another occurrence),
/// nothing of the message is kept.
pub open spec fn sanitized(s: Seq<char>, es: Seq<(Seq<char>, Seq<char>)>, m: Map<Seq<char>, Seq<char>>) -> Seq<
    char,
> {
    let t = redact_all(s, nonempty_values(es));
    if free_of_values(t, m) {
        t
    } else {
        Seq::empty()
    }
}

proof fn lemma_nonempty_values(es: Seq<(Seq<char>, Seq<char>)>)
    ensures
        forall|x: int|
            0 <= x < nonempty_values(es).len() ==> exists|i: int|
                0 <= i < es.len() && es[i].1.len() > 0 && #[trigger] nonempty_values(es)[x] == es[i].1,
    decreases es.len(),
{
    if es.len() > 0 {
        let p = es.drop_last();
        lemma_nonempty_values(p);
        let n = nonempty_values(es);
        let np = nonempty_values(p);
        assert forall|x: int| 0 <= x < n.len() implies exists|i: int|
            0 <= i < es.len() && es[i].1.len() > 0 && #[trigger] n[x] == es[i].1 by {
            if x < np.len() {
                assert(n[x] == np[x]);
                let i = choose|i: int| 0 <= i < p.len() && p[i].1.len() > 0 && np[x] == p[i].1;
                assert(p[i] == es[i]);
            } else {
                assert(es[es.len() - 1] == es.last());
            }
        }
    }
}

/// Whether `text` shows none of the configured header values (empty ones
/// aside).
pub fn free_of_header_values(text: &str, config: &MaskConfig) -> (b: bool)
    ensures
        b == free_of_values(text@, string_map(config.headers)),
{
    let entries = map_entries(&config.headers);
    let ghost m = string_map(config.headers);
    let mut j: usize = 0;
    while j < entries.len()
        invariant
            j <= entries.len(),
            m == string_map(config.headers),
            forall|i: int|
                0 <= i < entries@.len() ==> #[trigger] m.dom().contains(entries@[i].0@)
                    && m[entries@[i].0@] == entries@[i].1@,
            forall|i: int|
                0 <= i < j ==> (#[trigger] entries@[i]).1@.len() > 0 ==> !occurs_in(text@, entries@[i].1@),
        decreases entries.len() - j,
    {
        let v = entries[j].1.as_str();
        if v.unicode_len() > 0 && contains_str(text, v) {
            proof {
                let k = entries@[j as int].0@;
                assert(m.dom().contains(entries@[j as int].0@));
                assert(m[k] == entries@[j as int].1@);
                assert(v@ == entries@[j as int].1@);
                assert(m.dom().contains(k) && m[k].len() > 0 && occurs_in(text@, m[k]));
            }
            return false;
        }
        j = j + 1;
    }
    proof {
        assert forall|k: Seq<char>| #[trigger] m.dom().contains(k) && m[k].len() > 0 implies !occurs_in(
            text@,
            m[k],
        ) by {
            let i = choose|i: int| 0 <= i < entries@.len() && entries@[i].0@ == k;
            assert(entries@[i].1@ == m[k]);
        }
    }
    true
}

/// Remove any header values from error messages for security: each
/// non-empty configured header value is replaced by "[REDACTED]", in the
/// order the header map is walked (that order depends on the hasher's
/// seed, so the statement holds for some enumeration of the headers).
/// Where a value still shows afterwards, nothing of the message is kept.
/// Whatever comes out shows no header value, and a message that shows
/// none comes out unchanged.
pub fn sanitize_error(error: &str, config: &MaskConfig) -> (r: String)
    ensures
        exists|es: Seq<(Seq<char>, Seq<char>)>|
            #[trigger] is_enumeration(es, string_map(config.headers)) && r@ == sanitized(
                error@,
                es,
                string_map(config.headers),
            ),
        free_of_values(r@, string_map(config.headers)),
        free_of_values(error@, string_map(config.headers)) ==> r@ == error@,
{
    let entries = map_entries(&config.headers);
    let ghost es = entries@.map_values(|p: (String, String)| (p.0@, p.1@));
    let ghost m = string_map(config.headers);
    let mut values: Vec<String> = Vec::new();
    let mut i: usize = 0;
    assert(es.take(0) =~= Seq::<(Seq<char>, Seq<char>)>::empty());
    while i < entries.len()
        invariant
            i <= entries.len(),
            es == entries@.map_values(|p: (String, String)| (p.0@, p.1@)),
            values@.map_values(|v: String| v@) == nonempty_values(es.take(i as int)),
        decreases entries.len() - i,
    {
        assert(es.take(i + 1).drop_last() =~= es.take(i as int));
        assert(es.take(i + 1).last() == es[i as int]);
        if entries[i].1.as_str().unicode_len() > 0 {
            values.push(entries[i].1.clone());
            assert(values@.map_values(|v: String| v@) =~= nonempty_values(es.take(i as int)).push(
                es[i as int].1,
            ));
        }
        i = i + 1;
    }
    assert(es.take(entries.len() as int) =~= es);
    let t = redact_values(error, &values);
    proof {
        assert forall|k: Seq<char>| #[trigger] m.dom().contains(k) implies exists|i: int|
            0 <= i < es.len() && es[i].0 == k by {
            let i = choose|i: int| 0 <= i < entries@.len() && entries@[i].0@ == k;
            assert(es[i].0 == k);
        }
        assert(is_enumeration(es, m));
        if free_of_values(error@, m) {
            let vs = nonempty_values(es);
            lemma_nonempty_values(es);
            assert forall|x: int| 0 <= x < vs.len() implies (#[trigger] vs[x]).len() > 0 by {
                let i = choose|i: int| 0 <= i < es.len() && es[i].1.len() > 0 && vs[x] == es[i].1;
            }
            assert forall|x: int, y: int| 0 <= x < vs.len() implies !#[trigger] occurs_at(error@, vs[x], y) by {
                let i = choose|i: int| 0 <= i < es.len() && es[i].1.len() > 0 && vs[x] == es[i].1;
                assert(m.dom().contains(es[i].0) && m[es[i].0] == es[i].1);
                if occurs_at(error@, vs[x], y) {
                    assert(occurs_in(error@, m[es[i].0]));
                }
            }
            lemma_redact_untouched(error@, vs);
        }
    }
    if free_of_header_values(t.as_str(), config) {
        t
    } else {
        String::new()
    }
}

/// `s` without its trailing slashes (`str::trim_end_matches('/')`).
pub open spec fn strip_slashes(s: Seq<char>) -> Seq<char>
    decreases s.len(),
{
    if s.len() > 0 && s.last() == '/' {
        strip_slashes(s.drop_last())
    } else {
        s
    }
}

/// The URL a request is forwarded to: the target without trailing slashes,
/// followed by the request's path and query.
pub fn upstream_url(target_url: &str, path: &str) -> (u: String)
    ensures
        u@ == strip_slashes(target_url@) + path@,
{
    let mut end = target_url.unicode_len();
    assert(target_url@.take(end as int) =~= target_url@);
    while end > 0 && target_url.get_char(end - 1) == '/'
        invariant
            end <= target_url@.len(),
            strip_slashes(target_url@) == strip_slashes(target_url@.take(end as int)),
        decreases end,
    {
        assert(target_url@.take(end as int).drop_last() =~= target_url@.take(end - 1));
        end = end - 1;
    }
    proof {
        if end == target_url@.len() {
            assert(target_url@.take(end as int) =~= target_url@);
        }
    }
    let mut u = crate::text::to_owned_string(target_url.substring_char(0, end));
    assert(u@ =~= target_url@.take(end as int));
    crate::text::push_str(&mut u, path);
    u
}

/// The error a failed upstream request is logged with: "upstream error: "
/// and the sanitized transport error; where that prefix would make a header
/// value show, the sanitized error alone. It never shows a header value.
pub fn upstream_error_message(error: &str, config: &MaskConfig) -> (msg: String)
    ensures
        exists|es: Seq<(Seq<char>, Seq<char>)>|
            #[trigger] is_enumeration(es, string_map(config.headers)) && ({
                let s = sanitized(error@, es, string_map(config.headers));
                let u = "upstream error: "@ + s;
                msg@ == if free_of_values(u, string_map(config.headers)) {
                    u
                } else {
                    s
                }
            }),
        free_of_values(msg@, string_map(config.headers)),
{
    let mut m = String::from_str("upstream error: ");
    let s = sanitize_error(error, config);
    crate::text::push_str(&mut m, s.as_str());
    if free_of_header_values(m.as_str(), config) {
        m
    } else {
        s
    }
}

} // verus!
