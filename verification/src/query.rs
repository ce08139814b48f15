//! Verified parsing of `key=value&key=value` query strings.
//!
//! The model splits the raw text on `'&'`, keeps exactly the fragments with a
//! single `'='`, and looks a key up by its last occurrence.
use vstd::prelude::*;
use crate::text::find_char;
use crate::text::str_eq;

verus! {

/// Split `s` on the separator `sep`, the way `str::split` does: the result
/// always has at least one element, and separators delimit (possibly empty)
/// fragments.
pub open spec fn split_on(s: Seq<char>, sep: char) -> Seq<Seq<char>>
    decreases s.len(),
{
    if s.len() == 0 {
        seq![Seq::<char>::empty()]
    } else if s[0] == sep {
        seq![Seq::<char>::empty()] + split_on(s.drop_first(), sep)
    } else {
        let rest = split_on(s.drop_first(), sep);
        seq![seq![s[0]] + rest[0]] + rest.skip(1)
    }
}

pub proof fn lemma_split_len_ge_1(s: Seq<char>, sep: char)
    ensures
        split_on(s, sep).len() >= 1,
    decreases s.len(),
{
    if s.len() == 0 {
    } else if s[0] == sep {
    } else {
        lemma_split_len_ge_1(s.drop_first(), sep);
    }
}

/// A fragment without the separator splits into just itself.
pub proof fn lemma_split_no_sep(s: Seq<char>, sep: char)
    requires
        forall|j: int| 0 <= j < s.len() ==> s[j] != sep,
    ensures
        split_on(s, sep) == seq![s],
    decreases s.len(),
{
    if s.len() == 0 {
        assert(s =~= Seq::<char>::empty());
    } else {
        lemma_split_no_sep(s.drop_first(), sep);
        assert(seq![s[0]] + s.drop_first() =~= s);
        assert(split_on(s, sep) =~= seq![s]);
    }
}

/// Splitting at the first separator peels off the text before it.
pub proof fn lemma_split_at_first(s: Seq<char>, sep: char, i: int)
    requires
        0 <= i < s.len(),
        s[i] == sep,
        forall|j: int| 0 <= j < i ==> s[j] != sep,
    ensures
        split_on(s, sep) == seq![s.subrange(0, i)] + split_on(s.skip(i + 1), sep),
    decreases i,
{
    if i == 0 {
        assert(s.subrange(0, 0) =~= Seq::<char>::empty());
        assert(s.skip(1) =~= s.drop_first());
        assert(split_on(s, sep) =~= seq![s.subrange(0, 0)] + split_on(s.skip(1), sep));
    } else {
        let d = s.drop_first();
        assert(d[i - 1] == sep);
        assert(forall|j: int| 0 <= j < i - 1 ==> d[j] != sep);
        lemma_split_at_first(d, sep, i - 1);
        lemma_split_len_ge_1(d.skip(i), sep);
        assert(seq![s[0]] + d.subrange(0, i - 1) =~= s.subrange(0, i));
        assert(d.skip(i) =~= s.skip(i + 1));
        assert((seq![d.subrange(0, i - 1)] + split_on(d.skip(i), sep))[0] == d.subrange(0, i - 1));
        assert((seq![d.subrange(0, i - 1)] + split_on(d.skip(i), sep)).skip(1) =~= split_on(
            d.skip(i),
            sep,
        ));
        assert(split_on(s, sep) =~= seq![s.subrange(0, i)] + split_on(s.skip(i + 1), sep));
    }
}

/// A fragment that contains the separator splits into at least two parts.
pub proof fn lemma_split_with_sep_len_ge_2(s: Seq<char>, sep: char, i: int)
    requires
        0 <= i < s.len(),
        s[i] == sep,
        forall|j: int| 0 <= j < i ==> s[j] != sep,
    ensures
        split_on(s, sep).len() >= 2,
{
    lemma_split_at_first(s, sep, i);
    lemma_split_len_ge_1(s.skip(i + 1), sep);
}

/// The key/value reading of one `&`-delimited fragment: defined exactly when
/// the fragment holds a single `'='`.
pub open spec fn part_pair(p: Seq<char>) -> Option<(Seq<char>, Seq<char>)> {
    let sp = split_on(p, '=');
    if sp.len() == 2 {
        Some((sp[0], sp[1]))
    } else {
        None
    }
}

/// Key/value pairs read from a sequence of fragments, skipping malformed ones.
pub open spec fn pairs_of_parts(parts: Seq<Seq<char>>) -> Seq<(Seq<char>, Seq<char>)>
    decreases parts.len(),
{
    if parts.len() == 0 {
        Seq::empty()
    } else {
        match part_pair(parts[0]) {
            Some(kv) => seq![kv] + pairs_of_parts(parts.drop_first()),
            None => pairs_of_parts(parts.drop_first()),
        }
    }
}

/// The pairs written in a raw query string, in order of appearance.
pub open spec fn query_pairs(q: Seq<char>) -> Seq<(Seq<char>, Seq<char>)> {
    pairs_of_parts(split_on(q, '&'))
}

pub proof fn lemma_pairs_cons(p: Seq<char>, rest: Seq<Seq<char>>)
    ensures
        part_pair(p) matches Some(kv) ==> pairs_of_parts(seq![p] + rest) == seq![kv]
            + pairs_of_parts(rest),
        part_pair(p) is None ==> pairs_of_parts(seq![p] + rest) == pairs_of_parts(rest),
{
    assert((seq![p] + rest).drop_first() =~= rest);
    assert((seq![p] + rest)[0] == p);
}

/// Character-sequence view of parsed parameters.
pub open spec fn pairs_view(v: Seq<(String, String)>) -> Seq<(Seq<char>, Seq<char>)> {
    v.map_values(|p: (String, String)| (p.0@, p.1@))
}

/// Reads the key/value pair out of `q[pstart..pend]` if that fragment holds
/// exactly one `'='`, and appends it to `out`.
fn handle_part(q: &str, pstart: usize, pend: usize, out: &mut Vec<(String, String)>)
    requires
        pstart <= pend <= q@.len(),
    ensures
        part_pair(q@.subrange(pstart as int, pend as int)) matches Some(kv) ==> pairs_view(
            final(out)@,
        ) == pairs_view(old(out)@) + seq![kv],
        part_pair(q@.subrange(pstart as int, pend as int)) is None ==> final(out)@ == old(out)@,
{
    let ghost p = q@.subrange(pstart as int, pend as int);
    let eq1 = find_char(q, '=', pstart, pend);
    match eq1 {
        None => {
            proof {
                assert(forall|j: int| 0 <= j < p.len() ==> p[j] == q@[pstart + j]);
                lemma_split_no_sep(p, '=');
            }
        },
        Some(e) => {
            let eq2 = find_char(q, '=', e + 1, pend);
            proof {
                assert(p[e - pstart] == '=');
                assert(forall|j: int| 0 <= j < e - pstart ==> p[j] == q@[pstart + j] && p[j] != '=');
            }
            match eq2 {
                Some(f) => {
                    proof {
                        lemma_split_at_first(p, '=', e - pstart);
                        let tail = p.skip(e - pstart + 1);
                        assert(forall|j: int| 0 <= j < tail.len() ==> tail[j] == q@[e + 1 + j]);
                        assert(tail[f - e - 1] == '=');
                        lemma_split_with_sep_len_ge_2(tail, '=', f - e - 1);
                        assert(split_on(p, '=').len() >= 3);
                    }
                },
                None => {
                    let key = String::from_str(q.substring_char(pstart, e));
                    let val = String::from_str(q.substring_char(e + 1, pend));
                    proof {
                        lemma_split_at_first(p, '=', e - pstart);
                        let tail = p.skip(e - pstart + 1);
                        assert(forall|j: int|
                            0 <= j < tail.len() ==> tail[j] == q@[e + 1 + j] && tail[j] != '=');
                        lemma_split_no_sep(tail, '=');
                        assert(p.subrange(0, e - pstart) =~= q@.subrange(pstart as int, e as int));
                        assert(tail =~= q@.subrange(e + 1, pend as int));
                        assert(split_on(p, '=') == seq![key@] + seq![val@]);
                        assert((seq![key@] + seq![val@]).len() == 2);
                        assert((seq![key@] + seq![val@])[0] == key@);
                        assert((seq![key@] + seq![val@])[1] == val@);
                    }
                    let ghost oldout = out@;
                    out.push((key, val));
                    proof {
                        assert(pairs_view(out@) =~= pairs_view(oldout) + seq![(key@, val@)]);
                    }
                },
            }
        },
    }
}

/// Parses a raw query string into its written key/value pairs, in order.
pub fn parse_query(q: &str) -> (r: Vec<(String, String)>)
    ensures
        pairs_view(r@) == query_pairs(q@),
{
    let n = q.unicode_len();
    let mut out: Vec<(String, String)> = Vec::new();
    let mut start: usize = 0;
    proof {
        assert(q@.skip(0) =~= q@);
        assert(pairs_view(out@) =~= Seq::<(Seq<char>, Seq<char>)>::empty());
    }
    loop
        invariant_except_break
            start <= n,
            n == q@.len(),
            query_pairs(q@) == pairs_view(out@) + pairs_of_parts(split_on(q@.skip(start as int), '&')),
        ensures
            query_pairs(q@) == pairs_view(out@),
        decreases n - start,
    {
        let amp = find_char(q, '&', start, n);
        let pend = match amp {
            Some(a) => a,
            None => n,
        };
        let ghost rem = q@.skip(start as int);
        let ghost p = q@.subrange(start as int, pend as int);
        proof {
            assert(forall|j: int| 0 <= j < rem.len() ==> rem[j] == q@[start + j]);
            assert(p =~= rem.subrange(0, pend - start));
        }
        let ghost before = out@;
        handle_part(q, start, pend, &mut out);
        proof {
            if part_pair(p) is Some {
                assert(pairs_view(out@) == pairs_view(before) + seq![part_pair(p)->Some_0]);
            } else {
                assert(out@ == before);
            }
        }
        match amp {
            Some(a) => {
                proof {
                    assert(rem[a - start] == '&');
                    assert(forall|j: int| 0 <= j < a - start ==> rem[j] != '&');
                    lemma_split_at_first(rem, '&', a - start);
                    assert(rem.subrange(0, a - start) =~= p);
                    assert(rem.skip(a - start + 1) =~= q@.skip(a + 1));
                    lemma_pairs_cons(p, split_on(q@.skip(a + 1), '&'));
                }
                start = a + 1;
            },
            None => {
                proof {
                    assert(forall|j: int| 0 <= j < rem.len() ==> rem[j] != '&');
                    lemma_split_no_sep(rem, '&');
                    assert(rem =~= p);
                    lemma_pairs_cons(p, Seq::<Seq<char>>::empty());
                    assert(seq![p] + Seq::<Seq<char>>::empty() =~= seq![p]);
                    assert(pairs_of_parts(Seq::<Seq<char>>::empty()) =~= Seq::<(
                        Seq<char>,
                        Seq<char>,
                    )>::empty());
                    if part_pair(p) is Some {
                        assert(pairs_view(out@) =~= pairs_view(before) + seq![part_pair(p)->Some_0]
                            + Seq::<(Seq<char>, Seq<char>)>::empty());
                    }
                    assert(query_pairs(q@) == pairs_view(out@));
                }
                break ;
            },
        }
    }
    out
}

/// One pair written as `key=value`.
pub open spec fn encode_pair(kv: (Seq<char>, Seq<char>)) -> Seq<char> {
    kv.0 + seq!['='] + kv.1
}

/// Pairs joined with `'&'`, the way a caller writes a query string.
pub open spec fn encode_query(ps: Seq<(Seq<char>, Seq<char>)>) -> Seq<char>
    decreases ps.len(),
{
    if ps.len() == 0 {
        Seq::empty()
    } else if ps.len() == 1 {
        encode_pair(ps[0])
    } else {
        encode_pair(ps[0]) + seq!['&'] + encode_query(ps.drop_first())
    }
}

/// The key and the value hold no further `'='` or `'&'`.
pub open spec fn wf_query_pair(kv: (Seq<char>, Seq<char>)) -> bool {
    (forall|j: int| 0 <= j < kv.0.len() ==> kv.0[j] != '=' && kv.0[j] != '&') && (forall|j: int|
        0 <= j < kv.1.len() ==> kv.1[j] != '=' && kv.1[j] != '&')
}

proof fn lemma_part_pair_encoded(kv: (Seq<char>, Seq<char>))
    requires
        wf_query_pair(kv),
    ensures
        part_pair(encode_pair(kv)) == Some(kv),
{
    let p = encode_pair(kv);
    let kl = kv.0.len() as int;
    assert(p[kl] == '=');
    assert(forall|j: int| 0 <= j < kl ==> p[j] == kv.0[j] && p[j] != '=');
    lemma_split_at_first(p, '=', kl);
    assert(p.subrange(0, kl) =~= kv.0);
    assert(p.skip(kl + 1) =~= kv.1);
    lemma_split_no_sep(kv.1, '=');
    assert(split_on(p, '=') == seq![kv.0] + seq![kv.1]);
    assert((seq![kv.0] + seq![kv.1]).len() == 2);
    assert((seq![kv.0] + seq![kv.1])[0] == kv.0);
    assert((seq![kv.0] + seq![kv.1])[1] == kv.1);
}

/// Law: a query string written from well-formed pairs (no stray `'='` or
/// `'&'` in any key or value) parses back to exactly the pairs written, in
/// their order, whatever that order is; looking a key up therefore sees the
/// last value written for it.
pub proof fn lemma_query_round_trip(ps: Seq<(Seq<char>, Seq<char>)>)
    requires
        ps.len() > 0,
        forall|i: int| 0 <= i < ps.len() ==> wf_query_pair(#[trigger] ps[i]),
    ensures
        query_pairs(encode_query(ps)) == ps,
    decreases ps.len(),
{
    let s = encode_query(ps);
    let part = encode_pair(ps[0]);
    let kl = ps[0].0.len() as int;
    lemma_part_pair_encoded(ps[0]);
    assert(forall|j: int| 0 <= j < part.len() ==> part[j] != '&') by {
        assert(forall|j: int| 0 <= j < kl ==> part[j] == ps[0].0[j]);
        assert(part[kl] == '=');
        assert(forall|j: int| kl < j < part.len() ==> part[j] == ps[0].1[j - kl - 1]);
    }
    if ps.len() == 1 {
        lemma_split_no_sep(part, '&');
        lemma_pairs_cons(part, Seq::<Seq<char>>::empty());
        assert(seq![part] + Seq::<Seq<char>>::empty() =~= seq![part]);
        assert(pairs_of_parts(Seq::<Seq<char>>::empty()) =~= Seq::<(Seq<char>, Seq<char>)>::empty());
        assert(seq![ps[0]] + Seq::<(Seq<char>, Seq<char>)>::empty() =~= ps);
    } else {
        let plen = part.len() as int;
        let rest = encode_query(ps.drop_first());
        assert(s[plen] == '&');
        assert(forall|j: int| 0 <= j < plen ==> s[j] == part[j]);
        lemma_split_at_first(s, '&', plen);
        assert(s.subrange(0, plen) =~= part);
        assert(s.skip(plen + 1) =~= rest);
        assert(forall|i: int| 0 <= i < ps.drop_first().len() ==> wf_query_pair(
            #[trigger] ps.drop_first()[i],
        ));
        lemma_query_round_trip(ps.drop_first());
        lemma_pairs_cons(part, split_on(rest, '&'));
        assert(seq![ps[0]] + ps.drop_first() =~= ps);
    }
}

/// Value of the last pair written under `k`, if any.
pub open spec fn lookup_pairs(ps: Seq<(Seq<char>, Seq<char>)>, k: Seq<char>) -> Option<Seq<char>>
    decreases ps.len(),
{
    if ps.len() == 0 {
        None
    } else if ps.last().0 == k {
        Some(ps.last().1)
    } else {
        lookup_pairs(ps.drop_last(), k)
    }
}

/// Looks `key` up among parsed parameters; the last occurrence wins.
pub fn get_param(params: &Vec<(String, String)>, key: &str) -> (r: Option<String>)
    ensures
        r matches Some(v) ==> lookup_pairs(pairs_view(params@), key@) == Some(v@),
        r is None ==> lookup_pairs(pairs_view(params@), key@) is None,
{
    let mut i: usize = params.len();
    proof {
        assert(pairs_view(params@).subrange(0, i as int) =~= pairs_view(params@));
    }
    while i > 0
        invariant
            0 <= i <= params@.len(),
            lookup_pairs(pairs_view(params@), key@) == lookup_pairs(
                pairs_view(params@).subrange(0, i as int),
                key@,
            ),
        decreases i,
    {
        let pair = &params[i - 1];
        let ghost sub = pairs_view(params@).subrange(0, i as int);
        proof {
            assert(sub.last() == (params@[i - 1].0@, params@[i - 1].1@));
            assert(sub.drop_last() =~= pairs_view(params@).subrange(0, i - 1));
        }
        if str_eq(pair.0.as_str(), key) {
            return Some(pair.1.clone());
        }
        i -= 1;
    }
    proof {
        assert(pairs_view(params@).subrange(0, 0) =~= Seq::<(Seq<char>, Seq<char>)>::empty());
    }
    None
}

} // verus!
