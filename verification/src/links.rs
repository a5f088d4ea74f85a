//! Deep-link parsing.
//!
//! An activation string has the form `easymo://<action>[?<k>=<v>&...]`.
//! Parsing fails on a missing scheme prefix or an empty action, and on a
//! query value whose percent-encoding does not decode; query segments
//! without `=` are silently dropped, and on duplicate keys the last
//! occurrence wins.  The action is taken exactly as given, with no
//! canonicalization.  Parsing is pure: equal inputs yield equal results.

use vstd::prelude::*;
use vstd::string::StrSliceExecFns;
use crate::text::{first_index, lemma_first_index_is, split_on, str_eq};

verus! {

/// How parsing fails: `BadScheme` when the input does not begin with the
/// scheme prefix followed by a nonempty action, `Encoding` when a query
/// value is not validly percent-encoded.
#[derive(Clone, Copy, PartialEq, Eq, Structural, Debug)]
pub enum ParseError {
    BadScheme,
    Encoding,
}

/// A parsed activation: the action path plus the decoded query
/// parameters, keys unique with the last occurrence winning.
#[derive(Debug)]
pub struct DeepLink {
    pub action: String,
    pub params: Vec<(String, String)>,
}

/// What percent-decoding yields on a string, `None` when the string is
/// not validly percent-encoded; the decoder's result depends on the
/// characters alone.
pub uninterp spec fn decoded_of(s: Seq<char>) -> Option<Seq<char>>;

/// Relies on `urlencoding::decode`: it percent-unescapes the string and
/// fails exactly when the unescaped bytes are not valid UTF-8, and it
/// returns a string without `%` unchanged, since it finds no escape in
/// it.
#[verifier::external_body]
fn percent_decode(s: &str) -> (r: Option<String>)
    ensures
        r is Some <==> decoded_of(s@) is Some,
        r matches Some(v) ==> v@ == decoded_of(s@)->0,
        r is None ==> exists|i: int| 0 <= i < s@.len() && s@[i] == '%',
        r matches Some(v) ==> ((forall|i: int| 0 <= i < s@.len() ==> s@[i] != '%') ==> v@ == s@),
{
    match urlencoding::decode(s) {
        Ok(c) => Some(c.into_owned()),
        Err(_) => None,
    }
}

/// Percent-decodes one query value exactly as the parser does, so a
/// verified caller can relate concrete values to the parser's
/// parameters: the result is `decoded_of` the input, and an input
/// without `%` comes back unchanged.
pub fn decode_value(s: &str) -> (r: Option<String>)
    ensures
        r is Some <==> decoded_of(s@) is Some,
        r matches Some(v) ==> v@ == decoded_of(s@)->0,
        r is None ==> exists|i: int| 0 <= i < s@.len() && s@[i] == '%',
        r matches Some(v) ==> ((forall|i: int| 0 <= i < s@.len() ==> s@[i] != '%') ==> v@ == s@),
{
    percent_decode(s)
}

/// The scheme prefix every activation string must carry.
pub open spec fn scheme() -> Seq<char> {
    seq!['e', 'a', 's', 'y', 'm', 'o', ':', '/', '/']
}

pub open spec fn has_scheme(s: Seq<char>) -> bool {
    s.len() >= 9 && s.subrange(0, 9) == scheme()
}

/// The `(key, raw value)` pairs of the query segments, in order;
/// segments without `=` contribute nothing.
pub open spec fn raw_pairs(segs: Seq<Seq<char>>) -> Seq<(Seq<char>, Seq<char>)>
    decreases segs.len(),
{
    if segs.len() == 0 {
        Seq::empty()
    } else {
        let rest = raw_pairs(segs.drop_last());
        let seg = segs.last();
        let e = first_index(seg, '=');
        if e == seg.len() {
            rest
        } else {
            rest.push((seg.subrange(0, e), seg.subrange(e + 1, seg.len() as int)))
        }
    }
}

/// Whether every raw value percent-decodes.
pub open spec fn all_values_decode(ps: Seq<(Seq<char>, Seq<char>)>) -> bool {
    forall|i: int| 0 <= i < ps.len() ==> decoded_of(#[trigger] ps[i].1) is Some
}

/// The parameter map of raw pairs, values decoded, later pairs winning.
pub open spec fn decoded_params(ps: Seq<(Seq<char>, Seq<char>)>) -> Map<Seq<char>, Seq<char>>
    decreases ps.len(),
{
    if ps.len() == 0 {
        Map::empty()
    } else {
        decoded_params(ps.drop_last()).insert(ps.last().0, decoded_of(ps.last().1)->0)
    }
}

/// The map held by a pair vector whose values are already decoded.
pub open spec fn pairs_to_map(ps: Seq<(Seq<char>, Seq<char>)>) -> Map<Seq<char>, Seq<char>>
    decreases ps.len(),
{
    if ps.len() == 0 {
        Map::empty()
    } else {
        pairs_to_map(ps.drop_last()).insert(ps.last().0, ps.last().1)
    }
}

pub open spec fn unique_keys(ps: Seq<(Seq<char>, Seq<char>)>) -> bool {
    forall|i: int, j: int| 0 <= i < j < ps.len() ==> ps[i].0 != ps[j].0
}

/// What `parse` yields on any input: the action and the parameter map on
/// success, the exact error otherwise.
pub open spec fn spec_parse(s: Seq<char>) -> Result<
    (Seq<char>, Map<Seq<char>, Seq<char>>),
    ParseError,
> {
    if !has_scheme(s) {
        Err(ParseError::BadScheme)
    } else {
        let rest = s.subrange(9, s.len() as int);
        let q = first_index(rest, '?');
        let action = rest.subrange(0, q);
        if action.len() == 0 {
            Err(ParseError::BadScheme)
        } else if q == rest.len() {
            Ok((action, Map::empty()))
        } else {
            let query = rest.subrange(q + 1, rest.len() as int);
            let ps = raw_pairs(split_on(query, '&'));
            if all_values_decode(ps) {
                Ok((action, decoded_params(ps)))
            } else {
                Err(ParseError::Encoding)
            }
        }
    }
}

impl DeepLink {
    /// The decoded parameters as a map.
    pub open spec fn params_map(self) -> Map<Seq<char>, Seq<char>> {
        pairs_to_map(self.params.deep_view())
    }

    pub open spec fn keys_unique(self) -> bool {
        unique_keys(self.params.deep_view())
    }

    /// The decoded value stored under `key`, if any.
    pub fn get(&self, key: &str) -> (r: Option<&String>)
        requires
            self.keys_unique(),
        ensures
            match r {
                Some(v) => self.params_map().contains_key(key@) && v@ == self.params_map()[key@],
                None => !self.params_map().contains_key(key@),
            },
    {
        let mut i: usize = 0;
        while i < self.params.len()
            invariant
                self.keys_unique(),
                0 <= i <= self.params@.len(),
                forall|j: int| 0 <= j < i ==> self.params.deep_view()[j].0 != key@,
            decreases self.params@.len() - i,
        {
            if str_eq(self.params[i].0.as_str(), key) {
                proof {
                    let dv = self.params.deep_view();
                    assert(dv[i as int] == (self.params@[i as int].0@, self.params@[i as int].1@));
                    assert(dv[i as int].0 == key@);
                    lemma_pairs_to_map_at(dv, i as int);
                }
                return Some(&self.params[i].1);
            }
            proof {
                assert(self.params.deep_view()[i as int] == (
                    self.params@[i as int].0@,
                    self.params@[i as int].1@,
                ));
            }
            i += 1;
        }
        proof {
            lemma_pairs_to_map_absent(self.params.deep_view(), key@);
        }
        None
    }
}

/// Under unique keys, the map holds each pair's key and maps it to that
/// pair's value.
pub proof fn lemma_pairs_to_map_at(ps: Seq<(Seq<char>, Seq<char>)>, i: int)
    requires
        unique_keys(ps),
        0 <= i < ps.len(),
    ensures
        pairs_to_map(ps).contains_key(ps[i].0),
        pairs_to_map(ps)[ps[i].0] == ps[i].1,
    decreases ps.len(),
{
    let t = ps.drop_last();
    let q = ps.last();
    if i < ps.len() - 1 {
        assert(forall|x: int| 0 <= x < t.len() ==> t[x] == ps[x]);
        assert(unique_keys(t));
        lemma_pairs_to_map_at(t, i);
        assert(q.0 != ps[i].0);
    }
}

/// A key carried by no pair is absent from the map.
pub proof fn lemma_pairs_to_map_absent(ps: Seq<(Seq<char>, Seq<char>)>, k: Seq<char>)
    requires
        forall|i: int| 0 <= i < ps.len() ==> (#[trigger] ps[i]).0 != k,
    ensures
        !pairs_to_map(ps).contains_key(k),
    decreases ps.len(),
{
    if ps.len() > 0 {
        let t = ps.drop_last();
        assert(forall|x: int| 0 <= x < t.len() ==> t[x] == ps[x]);
        lemma_pairs_to_map_absent(t, k);
        assert(ps.last().0 != k);
    }
}

/// Removing an entry keeps the remaining keys unique, and no remaining
/// entry carries the removed entry's key.
proof fn lemma_unique_remove(ps: Seq<(Seq<char>, Seq<char>)>, i: int)
    requires
        unique_keys(ps),
        0 <= i < ps.len(),
    ensures
        unique_keys(ps.remove(i)),
        forall|j: int| 0 <= j < ps.remove(i).len() ==> #[trigger] ps.remove(i)[j].0 != ps[i].0,
{
    let r = ps.remove(i);
    assert forall|p: int, q: int| 0 <= p < q < r.len() implies r[p].0 != r[q].0 by {
        let p0 = if p < i {
            p
        } else {
            p + 1
        };
        let q0 = if q < i {
            q
        } else {
            q + 1
        };
        assert(r[p] == ps[p0]);
        assert(r[q] == ps[q0]);
    }
    assert forall|j: int| 0 <= j < r.len() implies r[j].0 != ps[i].0 by {
        let j0 = if j < i {
            j
        } else {
            j + 1
        };
        assert(r[j] == ps[j0]);
    }
}

/// Replacing the entry that carries `k` and re-adding `(k, v)` yields the
/// same map as inserting `(k, v)` over the original pairs.
proof fn lemma_remove_insert(ps: Seq<(Seq<char>, Seq<char>)>, i: int, k: Seq<char>, v: Seq<char>)
    requires
        unique_keys(ps),
        0 <= i < ps.len(),
        ps[i].0 == k,
    ensures
        pairs_to_map(ps.remove(i)).insert(k, v) == pairs_to_map(ps).insert(k, v),
    decreases ps.len(),
{
    if i == ps.len() - 1 {
        assert(ps.remove(i) =~= ps.drop_last());
        assert(pairs_to_map(ps.drop_last()).insert(k, v) =~= pairs_to_map(ps.drop_last()).insert(
            ps.last().0,
            ps.last().1,
        ).insert(k, v));
    } else {
        let t = ps.drop_last();
        let q = ps.last();
        assert(forall|x: int| 0 <= x < t.len() ==> t[x] == ps[x]);
        assert(unique_keys(t));
        assert(q.0 != k) by {
            assert(ps[i].0 != ps[ps.len() - 1].0);
        }
        lemma_remove_insert(t, i, k, v);
        assert(ps.remove(i).drop_last() =~= t.remove(i));
        assert(ps.remove(i).last() == q);
        let m1 = pairs_to_map(t.remove(i));
        let m2 = pairs_to_map(t);
        assert(pairs_to_map(ps.remove(i)) == m1.insert(q.0, q.1));
        assert(m1.insert(q.0, q.1).insert(k, v) =~= m1.insert(k, v).insert(q.0, q.1));
        assert(m2.insert(q.0, q.1).insert(k, v) =~= m2.insert(k, v).insert(q.0, q.1));
        assert(m1.insert(k, v).insert(q.0, q.1) == m2.insert(k, v).insert(q.0, q.1));
    }
}

/// Index of the last pair carrying `k`, or `-1` if none does.
pub open spec fn last_key_index(ps: Seq<(Seq<char>, Seq<char>)>, k: Seq<char>) -> int
    decreases ps.len(),
{
    if ps.len() == 0 {
        -1
    } else if ps.last().0 == k {
        ps.len() - 1
    } else {
        last_key_index(ps.drop_last(), k)
    }
}

/// On duplicate keys the last write wins: the parameter map holds a key
/// exactly when some raw pair carries it, and maps it to the decoded
/// value of the last such pair.
pub proof fn lemma_last_write_wins(ps: Seq<(Seq<char>, Seq<char>)>, k: Seq<char>)
    ensures
        -1 <= last_key_index(ps, k) < ps.len(),
        last_key_index(ps, k) >= 0 ==> ps[last_key_index(ps, k)].0 == k,
        decoded_params(ps).contains_key(k) <==> last_key_index(ps, k) >= 0,
        last_key_index(ps, k) >= 0 ==> decoded_params(ps)[k] == decoded_of(
            ps[last_key_index(ps, k)].1,
        )->0,
    decreases ps.len(),
{
    if ps.len() > 0 {
        lemma_last_write_wins(ps.drop_last(), k);
    }
}

/// The segment `k=v` holds its `=` exactly after `k`, and its two sides
/// are `k` and `v`.
proof fn lemma_kv_segment(k: Seq<char>, v: Seq<char>)
    requires
        forall|i: int| 0 <= i < k.len() ==> k[i] != '=',
    ensures
        first_index(k + seq!['='] + v, '=') == k.len(),
        (k + seq!['='] + v).subrange(0, k.len() as int) == k,
        (k + seq!['='] + v).subrange(k.len() as int + 1, (k + seq!['='] + v).len() as int) == v,
{
    let seg = k + seq!['='] + v;
    assert forall|j: int| 0 <= j < k.len() implies seg[j] != '=' by {
        assert(seg[j] == k[j]);
    }
    assert(seg[k.len() as int] == '=');
    lemma_first_index_is(seg, '=', k.len() as int);
    assert(seg.subrange(0, k.len() as int) =~= k);
    assert(seg.subrange(k.len() as int + 1, seg.len() as int) =~= v);
}

/// A segment `k=v` whose sides are free of `&` is free of `&` itself.
proof fn lemma_kv_segment_amp_free(k: Seq<char>, v: Seq<char>)
    requires
        forall|i: int| 0 <= i < k.len() ==> k[i] != '&',
        forall|i: int| 0 <= i < v.len() ==> v[i] != '&',
    ensures
        forall|j: int|
            0 <= j < (k + seq!['='] + v).len() ==> (#[trigger] (k + seq!['='] + v)[j]) != '&',
{
    let seg = k + seq!['='] + v;
    assert forall|j: int| 0 <= j < seg.len() implies seg[j] != '&' by {
        if j < k.len() {
            assert(seg[j] == k[j]);
        } else if j == k.len() {
            assert(seg[j] == '=');
        } else {
            assert(seg[j] == v[j - k.len() - 1]);
        }
    }
}

/// One key-value pair written as a query segment.
pub open spec fn segment_of(p: (Seq<char>, Seq<char>)) -> Seq<char> {
    p.0 + seq!['='] + p.1
}

pub open spec fn segments_of(ps: Seq<(Seq<char>, Seq<char>)>) -> Seq<Seq<char>> {
    ps.map_values(|p: (Seq<char>, Seq<char>)| segment_of(p))
}

/// The query string a list of pairs writes to: `k=v` segments joined by
/// `&`.
pub open spec fn query_of(ps: Seq<(Seq<char>, Seq<char>)>) -> Seq<char>
    decreases ps.len(),
{
    if ps.len() == 0 {
        Seq::empty()
    } else if ps.len() == 1 {
        segment_of(ps[0])
    } else {
        segment_of(ps[0]) + seq!['&'] + query_of(ps.drop_first())
    }
}

/// A pair that writes cleanly into a query: the key free of `&` and
/// `=`, the value free of `&`.
pub open spec fn pair_wf(p: (Seq<char>, Seq<char>)) -> bool {
    &&& forall|j: int| 0 <= j < p.0.len() ==> p.0[j] != '&' && p.0[j] != '='
    &&& forall|j: int| 0 <= j < p.1.len() ==> p.1[j] != '&'
}

pub open spec fn wf_pairs(ps: Seq<(Seq<char>, Seq<char>)>) -> bool {
    forall|i: int| 0 <= i < ps.len() ==> pair_wf(#[trigger] ps[i])
}

/// The query a list of well-formed pairs writes splits back into the
/// pairs' segments.
proof fn lemma_split_query(ps: Seq<(Seq<char>, Seq<char>)>)
    requires
        wf_pairs(ps),
        ps.len() >= 1,
    ensures
        split_on(query_of(ps), '&') == segments_of(ps),
    decreases ps.len(),
{
    let q = query_of(ps);
    let seg0 = segment_of(ps[0]);
    assert(pair_wf(ps[0]));
    lemma_kv_segment_amp_free(ps[0].0, ps[0].1);
    if ps.len() == 1 {
        lemma_first_index_is(q, '&', q.len() as int);
        assert(split_on(q, '&') == seq![q]);
        assert(seq![q] =~= segments_of(ps));
    } else {
        let t = ps.drop_first();
        let rest = query_of(t);
        assert forall|j: int| 0 <= j < seg0.len() implies q[j] != '&' by {
            assert(q[j] == seg0[j]);
        }
        assert(q[seg0.len() as int] == '&');
        lemma_first_index_is(q, '&', seg0.len() as int);
        assert(q.subrange(0, seg0.len() as int) =~= seg0);
        assert(q.subrange(seg0.len() as int + 1, q.len() as int) =~= rest);
        assert(wf_pairs(t)) by {
            assert(forall|i: int| 0 <= i < t.len() ==> t[i] == ps[i + 1]);
        }
        lemma_split_query(t);
        assert(split_on(q, '&') == seq![seg0] + split_on(rest, '&'));
        assert(seq![seg0] + segments_of(t) =~= segments_of(ps)) by {
            assert(forall|i: int| 0 <= i < t.len() ==> t[i] == ps[i + 1]);
        }
    }
}

/// Reading the pairs back out of their segments gives the pairs.
proof fn lemma_raw_pairs_of_segments(ps: Seq<(Seq<char>, Seq<char>)>)
    requires
        wf_pairs(ps),
    ensures
        raw_pairs(segments_of(ps)) == ps,
    decreases ps.len(),
{
    if ps.len() == 0 {
        assert(segments_of(ps) =~= Seq::<Seq<char>>::empty());
        assert(raw_pairs(segments_of(ps)) =~= ps);
    } else {
        let t = ps.drop_last();
        let p = ps.last();
        let segs = segments_of(ps);
        assert(segs.drop_last() =~= segments_of(t));
        assert(segs.last() == segment_of(p));
        assert(wf_pairs(t)) by {
            assert(forall|i: int| 0 <= i < t.len() ==> t[i] == ps[i]);
        }
        lemma_raw_pairs_of_segments(t);
        assert(pair_wf(p));
        lemma_kv_segment(p.0, p.1);
        assert(raw_pairs(segs) =~= ps);
    }
}

/// What any link with a query parses to: the action and, once every
/// value decodes, the decoded parameters of the query's pairs; a value
/// that does not decode is the encoding error.
proof fn lemma_parse_shape(action: Seq<char>, q: Seq<char>)
    requires
        action.len() > 0,
        forall|i: int| 0 <= i < action.len() ==> action[i] != '?',
    ensures
        ({
            let ps = raw_pairs(split_on(q, '&'));
            spec_parse(scheme() + action + seq!['?'] + q) == (if all_values_decode(ps) {
                Ok::<(Seq<char>, Map<Seq<char>, Seq<char>>), ParseError>((
                    action,
                    decoded_params(ps),
                ))
            } else {
                Err(ParseError::Encoding)
            })
        }),
{
    let s = scheme() + action + seq!['?'] + q;
    assert(s.subrange(0, 9) =~= scheme());
    assert(has_scheme(s));
    let rest = s.subrange(9, s.len() as int);
    assert(rest =~= action + seq!['?'] + q);
    assert forall|j: int| 0 <= j < action.len() implies rest[j] != '?' by {
        assert(rest[j] == action[j]);
    }
    assert(rest[action.len() as int] == '?');
    lemma_first_index_is(rest, '?', action.len() as int);
    assert(rest.subrange(0, action.len() as int) =~= action);
    assert(rest.subrange(action.len() as int + 1, rest.len() as int) =~= q);
}

/// The general parse law: a link written from a nonempty action free
/// of `?` and any list of well-formed key-value pairs whose values all
/// percent-decode parses to exactly that action and the pairs' decoded
/// parameter map — `lemma_last_write_wins` says which value a repeated
/// key ends up with.
pub proof fn lemma_parse_params(action: Seq<char>, ps: Seq<(Seq<char>, Seq<char>)>)
    requires
        action.len() > 0,
        forall|i: int| 0 <= i < action.len() ==> action[i] != '?',
        wf_pairs(ps),
        ps.len() >= 1,
        all_values_decode(ps),
    ensures
        spec_parse(scheme() + action + seq!['?'] + query_of(ps)) == Ok::<
            (Seq<char>, Map<Seq<char>, Seq<char>>),
            ParseError,
        >((action, decoded_params(ps))),
{
    lemma_parse_shape(action, query_of(ps));
    lemma_split_query(ps);
    lemma_raw_pairs_of_segments(ps);
}

/// The parameter map of the two pairs, once both values decode.
proof fn lemma_two_pair_map(
    k1: Seq<char>,
    v1: Seq<char>,
    k2: Seq<char>,
    v2: Seq<char>,
    w1: Seq<char>,
    w2: Seq<char>,
)
    requires
        decoded_of(v1) == Some(w1),
        decoded_of(v2) == Some(w2),
    ensures
        all_values_decode(seq![(k1, v1), (k2, v2)]),
        decoded_params(seq![(k1, v1), (k2, v2)]) == map![k1 => w1, k2 => w2],
{
    let ps = seq![(k1, v1), (k2, v2)];
    assert(all_values_decode(ps)) by {
        assert forall|i: int| 0 <= i < ps.len() implies decoded_of(#[trigger] ps[i].1)
            is Some by {
            if i == 0 {
                assert(ps[0].1 == v1);
            } else {
                assert(ps[1].1 == v2);
            }
        }
    }
    assert(ps.drop_last() =~= seq![(k1, v1)]);
    assert(seq![(k1, v1)].drop_last() =~= Seq::<(Seq<char>, Seq<char>)>::empty());
    assert(decoded_params(Seq::<(Seq<char>, Seq<char>)>::empty()) == Map::<
        Seq<char>,
        Seq<char>,
    >::empty());
    assert(decoded_params(seq![(k1, v1)]) == Map::<Seq<char>, Seq<char>>::empty().insert(k1, w1));
    assert(decoded_params(ps) == decoded_params(seq![(k1, v1)]).insert(k2, w2));
    assert(decoded_params(ps) =~= map![k1 => w1, k2 => w2]);
}

/// The shape every well-formed two-parameter link parses to: with a
/// nonempty action free of `?`, keys free of `&` and `=`, distinct keys,
/// and values free of `&` that percent-decode, the parse yields exactly
/// that action and those two decoded parameters.
pub proof fn lemma_parse_two_params(
    action: Seq<char>,
    k1: Seq<char>,
    v1: Seq<char>,
    k2: Seq<char>,
    v2: Seq<char>,
    w1: Seq<char>,
    w2: Seq<char>,
)
    requires
        action.len() > 0,
        forall|i: int| 0 <= i < action.len() ==> action[i] != '?',
        forall|i: int| 0 <= i < k1.len() ==> k1[i] != '&' && k1[i] != '=',
        forall|i: int| 0 <= i < k2.len() ==> k2[i] != '&' && k2[i] != '=',
        forall|i: int| 0 <= i < v1.len() ==> v1[i] != '&',
        forall|i: int| 0 <= i < v2.len() ==> v2[i] != '&',
        k1 != k2,
        decoded_of(v1) == Some(w1),
        decoded_of(v2) == Some(w2),
    ensures
        spec_parse(scheme() + action + seq!['?'] + k1 + seq!['='] + v1 + seq!['&'] + k2 + seq!['=']
            + v2) == Ok::<(Seq<char>, Map<Seq<char>, Seq<char>>), ParseError>(
            (action, map![k1 => w1, k2 => w2]),
        ),
{
    let ps = seq![(k1, v1), (k2, v2)];
    assert(wf_pairs(ps)) by {
        assert(pair_wf(ps[0]));
        assert(pair_wf(ps[1]));
    }
    lemma_two_pair_map(k1, v1, k2, v2, w1, w2);
    lemma_parse_params(action, ps);
    let t = ps.drop_first();
    assert(t =~= seq![(k2, v2)]);
    assert(query_of(ps) == segment_of(ps[0]) + seq!['&'] + query_of(t));
    assert(query_of(t) == segment_of((k2, v2)));
    assert(scheme() + action + seq!['?'] + query_of(ps) =~= scheme() + action + seq!['?'] + k1
        + seq!['='] + v1 + seq!['&'] + k2 + seq!['='] + v2);
}

/// The pairs of a prefix of the segments stand unchanged, and in the
/// same places, among the pairs of all the segments.
proof fn lemma_raw_pairs_prefix(segs: Seq<Seq<char>>, d: int)
    requires
        0 <= d <= segs.len(),
    ensures
        raw_pairs(segs.take(d)).len() <= raw_pairs(segs).len(),
        forall|x: int|
            0 <= x < raw_pairs(segs.take(d)).len() ==> #[trigger] raw_pairs(segs)[x] == raw_pairs(
                segs.take(d),
            )[x],
    decreases segs.len() - d,
{
    if d == segs.len() {
        assert(segs.take(d) =~= segs);
    } else {
        lemma_raw_pairs_prefix(segs, d + 1);
        let a = segs.take(d + 1);
        assert(a.drop_last() =~= segs.take(d));
        assert(a.last() == segs[d]);
    }
}

/// Records `(key, value)`, overwriting the entry under `key` if one is
/// already held: last write wins.
fn upsert(params: &mut Vec<(String, String)>, key: String, value: String)
    requires
        unique_keys(old(params).deep_view()),
    ensures
        unique_keys(final(params).deep_view()),
        pairs_to_map(final(params).deep_view()) == pairs_to_map(old(params).deep_view()).insert(
            key@,
            value@,
        ),
{
    let ghost ps = params.deep_view();
    proof {
        assert(ps == old(params).deep_view());
    }
    let mut i: usize = 0;
    let n = params.len();
    while i < n
        invariant
            0 <= i <= n,
            n == params@.len(),
            ps == old(params).deep_view(),
            unique_keys(ps),
            params.deep_view() == ps,
            *params == *old(params),
            forall|j: int| 0 <= j < i ==> ps[j].0 != key@,
        decreases n - i,
    {
        if str_eq(params[i].0.as_str(), key.as_str()) {
            proof {
                assert(params.deep_view()[i as int] == (params@[i as int].0@, params@[i as int].1@));
                assert(ps[i as int].0 == key@);
                lemma_unique_remove(ps, i as int);
                lemma_remove_insert(ps, i as int, key@, value@);
            }
            params.remove(i);
            proof {
                assert(params.deep_view() =~= ps.remove(i as int));
            }
            let ghost mid = params.deep_view();
            params.push((key, value));
            proof {
                assert(params.deep_view() =~= mid.push((key@, value@)));
                assert(params.deep_view().drop_last() =~= mid);
                assert(unique_keys(params.deep_view())) by {
                    let f = params.deep_view();
                    assert forall|p: int, q: int| 0 <= p < q < f.len() implies f[p].0 != f[q].0 by {
                        if q < f.len() - 1 {
                            assert(f[p] == mid[p]);
                            assert(f[q] == mid[q]);
                        } else {
                            assert(f[p] == mid[p]);
                            assert(mid[p].0 != ps[i as int].0);
                        }
                    }
                }
            }
            return ;
        }
        proof {
            assert(params.deep_view()[i as int] == (params@[i as int].0@, params@[i as int].1@));
        }
        i += 1;
    }
    let ghost mid = params.deep_view();
    params.push((key, value));
    proof {
        assert(params.deep_view() =~= mid.push((key@, value@)));
        assert(params.deep_view().drop_last() =~= mid);
        let f = params.deep_view();
        assert forall|p: int, q: int| 0 <= p < q < f.len() implies f[p].0 != f[q].0 by {
            if q < f.len() - 1 {
                assert(f[p] == mid[p]);
                assert(f[q] == mid[q]);
            } else {
                assert(f[p] == mid[p]);
            }
        }
    }
}

/// Whether the string begins with the scheme prefix.
fn check_scheme(url: &str) -> (b: bool)
    ensures
        b == has_scheme(url@),
{
    let n = url.unicode_len();
    if n < 9 {
        return false;
    }
    let ok = url.get_char(0) == 'e' && url.get_char(1) == 'a' && url.get_char(2) == 's'
        && url.get_char(3) == 'y' && url.get_char(4) == 'm' && url.get_char(5) == 'o'
        && url.get_char(6) == ':' && url.get_char(7) == '/' && url.get_char(8) == '/';
    proof {
        if ok {
            assert(url@.subrange(0, 9) =~= scheme());
        }
        if has_scheme(url@) {
            assert forall|k: int| 0 <= k < 9 implies url@[k] == scheme()[k] by {
                assert(url@.subrange(0, 9)[k] == url@[k]);
            }
            assert(url@[0] == 'e');
            assert(url@[1] == 'a');
            assert(url@[2] == 's');
            assert(url@[3] == 'y');
            assert(url@[4] == 'm');
            assert(url@[5] == 'o');
            assert(url@[6] == ':');
            assert(url@[7] == '/');
            assert(url@[8] == '/');
        }
    }
    ok
}

impl DeepLink {
    /// Parses an activation string of the form
    /// `easymo://<action>[?<k>=<v>&...]`.
    pub fn parse(url: &str) -> (r: Result<DeepLink, ParseError>)
        ensures
            match spec_parse(url@) {
                Ok(am) => r matches Ok(link) && link.action@ == am.0 && link.params_map() == am.1
                    && link.keys_unique(),
                Err(e) => r == Err::<DeepLink, ParseError>(e),
            },
    {
        let n = url.unicode_len();
        if !check_scheme(url) {
            return Err(ParseError::BadScheme);
        }
        // Find the first '?' after the scheme, or the end.
        let mut qpos: usize = 9;
        while qpos < n && url.get_char(qpos) != '?'
            invariant
                9 <= qpos <= n,
                n == url@.len(),
                forall|j: int| 9 <= j < qpos ==> url@[j] != '?',
            decreases n - qpos,
        {
            qpos += 1;
        }
        proof {
            let rest = url@.subrange(9, n as int);
            assert forall|j: int| 0 <= j < qpos - 9 implies rest[j] != '?' by {
                assert(rest[j] == url@[j + 9]);
            }
            if qpos < n {
                assert(rest[qpos - 9] == url@[qpos as int]);
            }
            lemma_first_index_is(rest, '?', qpos as int - 9);
        }
        if qpos == 9 {
            // The action path is empty, which no successful parse allows.
            return Err(ParseError::BadScheme);
        }
        let action = url.substring_char(9, qpos).to_owned();
        proof {
            assert(action@ =~= url@.subrange(9, n as int).subrange(0, qpos as int - 9));
        }
        if qpos == n {
            let link = DeepLink { action, params: Vec::new() };
            proof {
                assert(link.params.deep_view() =~= Seq::<(Seq<char>, Seq<char>)>::empty());
            }
            return Ok(link);
        }
        // Walk the query, one '&'-separated segment per iteration.
        let ghost query = url@.subrange(qpos as int + 1, n as int);
        let ghost segs = split_on(query, '&');
        let ghost mut done: int = 0;
        let mut params: Vec<(String, String)> = Vec::new();
        let mut seg_start: usize = qpos + 1;
        proof {
            assert(segs.skip(0) =~= segs);
            assert(segs.take(0) =~= Seq::<Seq<char>>::empty());
            assert(params.deep_view() =~= Seq::<(Seq<char>, Seq<char>)>::empty());
            crate::text::lemma_split_on_len(query, '&');
        }
        loop
            invariant_except_break
                n == url@.len(),
                has_scheme(url@),
                9 < qpos < n,
                first_index(url@.subrange(9, n as int), '?') == qpos - 9,
                qpos + 1 <= seg_start <= n,
                segs == split_on(url@.subrange(qpos as int + 1, n as int), '&'),
                0 <= done < segs.len(),
                split_on(url@.subrange(seg_start as int, n as int), '&') == segs.skip(done),
                all_values_decode(raw_pairs(segs.take(done))),
                pairs_to_map(params.deep_view()) == decoded_params(raw_pairs(segs.take(done))),
                unique_keys(params.deep_view()),
            ensures
                all_values_decode(raw_pairs(segs)),
                pairs_to_map(params.deep_view()) == decoded_params(raw_pairs(segs)),
                unique_keys(params.deep_view()),
            decreases n - seg_start,
        {
            // Find the end of this segment: the next '&' or the end.
            let mut seg_end: usize = seg_start;
            while seg_end < n && url.get_char(seg_end) != '&'
                invariant
                    seg_start <= seg_end <= n,
                    n == url@.len(),
                    forall|j: int| seg_start <= j < seg_end ==> url@[j] != '&',
                decreases n - seg_end,
            {
                seg_end += 1;
            }
            let ghost remaining = url@.subrange(seg_start as int, n as int);
            let ghost fi = seg_end as int - seg_start as int;
            let ghost seg = url@.subrange(seg_start as int, seg_end as int);
            proof {
                assert forall|j: int| 0 <= j < fi implies remaining[j] != '&' by {
                    assert(remaining[j] == url@[j + seg_start]);
                }
                if seg_end < n {
                    assert(remaining[fi] == url@[seg_end as int]);
                }
                lemma_first_index_is(remaining, '&', fi);
                assert(remaining.subrange(0, fi) =~= seg);
                if seg_end == n {
                    assert(remaining =~= seg);
                    assert(segs.skip(done) == seq![seg]);
                    assert(segs.skip(done)[0] == segs[done]);
                    assert(segs[done] == seg);
                    assert(segs.len() - done == 1);
                } else {
                    let rem2 = remaining.subrange(fi + 1, remaining.len() as int);
                    assert(split_on(remaining, '&') == seq![seg] + split_on(rem2, '&'));
                    assert(rem2 =~= url@.subrange(seg_end as int + 1, n as int));
                    assert(segs.skip(done)[0] == segs[done]);
                    assert((seq![seg] + split_on(rem2, '&'))[0] == seg);
                    assert(segs[done] == seg);
                    assert(segs.skip(done).drop_first() =~= segs.skip(done + 1));
                    assert((seq![seg] + split_on(rem2, '&')).drop_first() =~= split_on(rem2, '&'));
                    assert(segs.skip(done + 1) == split_on(
                        url@.subrange(seg_end as int + 1, n as int),
                        '&',
                    ));
                }
            }
            // Find the '=' inside the segment, if any.
            let mut epos: usize = seg_start;
            while epos < seg_end && url.get_char(epos) != '='
                invariant
                    seg_start <= epos <= seg_end,
                    seg_end <= n,
                    n == url@.len(),
                    forall|j: int| seg_start <= j < epos ==> url@[j] != '=',
                decreases seg_end - epos,
            {
                epos += 1;
            }
            let ghost ei = epos as int - seg_start as int;
            proof {
                assert forall|j: int| 0 <= j < ei implies seg[j] != '=' by {
                    assert(seg[j] == url@[j + seg_start]);
                }
                if epos < seg_end {
                    assert(seg[ei] == url@[epos as int]);
                }
                lemma_first_index_is(seg, '=', ei);
                assert(segs.take(done + 1).drop_last() =~= segs.take(done));
                assert(segs.take(done + 1).last() == segs[done]);
            }
            if epos == seg_end {
                // No '=': the segment is dropped.
                proof {
                    assert(raw_pairs(segs.take(done + 1)) == raw_pairs(segs.take(done)));
                    done = done + 1;
                }
            } else {
                let key = url.substring_char(seg_start, epos).to_owned();
                let raw_value = url.substring_char(epos + 1, seg_end);
                let ghost pair = (seg.subrange(0, ei), seg.subrange(ei + 1, seg.len() as int));
                proof {
                    assert(key@ =~= pair.0);
                    assert(raw_value@ =~= pair.1);
                    assert(raw_pairs(segs.take(done + 1)) == raw_pairs(segs.take(done)).push(pair));
                }
                match percent_decode(raw_value) {
                    Some(value) => {
                        let ghost prev = raw_pairs(segs.take(done));
                        let ghost cur = raw_pairs(segs.take(done + 1));
                        proof {
                            assert(cur.drop_last() =~= prev);
                            assert(cur.last() == pair);
                            assert(decoded_params(cur) == decoded_params(prev).insert(
                                pair.0,
                                decoded_of(pair.1)->0,
                            ));
                            assert(all_values_decode(cur)) by {
                                assert(forall|x: int| 0 <= x < prev.len() ==> cur[x] == prev[x]);
                                assert(cur[cur.len() - 1].1 == pair.1);
                            }
                        }
                        upsert(&mut params, key, value);
                        proof {
                            done = done + 1;
                        }
                    },
                    None => {
                        proof {
                            let rest = url@.subrange(9, n as int);
                            assert(rest.subrange(qpos as int - 9 + 1, rest.len() as int)
                                =~= url@.subrange(qpos as int + 1, n as int));
                            lemma_raw_pairs_prefix(segs, done + 1);
                            let cur = raw_pairs(segs.take(done + 1));
                            let idx = cur.len() - 1;
                            assert(cur[idx] == pair);
                            assert(raw_pairs(segs)[idx] == pair);
                            assert(!all_values_decode(raw_pairs(segs))) by {
                                assert(decoded_of(raw_pairs(segs)[idx].1) is None);
                            }
                        }
                        return Err(ParseError::Encoding);
                    },
                }
            }
            if seg_end == n {
                proof {
                    assert(segs.take(done) =~= segs);
                }
                break ;
            }
            seg_start = seg_end + 1;
            proof {
                crate::text::lemma_split_on_len(
                    url@.subrange(seg_start as int, n as int),
                    '&',
                );
            }
        }
        proof {
            let rest = url@.subrange(9, n as int);
            assert(rest.subrange(qpos as int - 9 + 1, rest.len() as int) =~= url@.subrange(
                qpos as int + 1,
                n as int,
            ));
        }
        let link = DeepLink { action, params };
        Ok(link)
    }
}

} // verus!
