//! The response parser: a provider reply carries generated text fragments
//! nested candidate by candidate and part by part. The fragments are
//! flattened in document order, each is split on the literal candidate
//! separator, and every piece is trimmed; blank pieces are dropped.
use vstd::prelude::*;

use crate::text;

verus! {

/// The literal separator the provider is instructed to emit between
/// distinct commit-message candidates.
pub open spec fn candidate_separator() -> Seq<char> {
    "\n---\n"@
}

/// What a reply body decodes to: the text of each part of each candidate,
/// in document order, or the deserialization failure described in words
/// when the body is not the expected shape.
pub uninterp spec fn reply_of(s: Seq<char>) -> Result<Seq<Seq<Seq<char>>>, Seq<char>>;

/// Relies on `serde_json::from_str`, `serde_json::Value::get`, `as_array`
/// and `as_str`: deserializes the reply shape
/// `{"candidates":[{"content":{"parts":[{"text":...}]}}]}` into the text of
/// each part of each candidate, in document order; any other shape is
/// rejected with the failure described in the library's or serde's words.
/// The outcome is a function of the body text alone.
#[verifier::external_body]
pub fn decode_reply(body: &str) -> (r: Result<Vec<Vec<String>>, String>)
    ensures
        r is Ok <==> reply_of(body@) is Ok,
        r matches Ok(v) ==> (reply_of(body@) matches Ok(d) && d == v.deep_view()),
        r matches Err(m) ==> (reply_of(body@) matches Err(c) && c == m@),
{
    let shape = "missing the {\"candidates\":[{\"content\":{\"parts\":[{\"text\":..}]}}]} shape";
    let root: serde_json::Value = serde_json::from_str(body).map_err(|e| e.to_string())?;
    let candidates = root.get("candidates").and_then(|c| c.as_array()).ok_or(shape)?;
    let mut out: Vec<Vec<String>> = Vec::new();
    for candidate in candidates {
        let parts = candidate.get("content").and_then(|c| c.get("parts")).and_then(|p| p.as_array());
        let mut texts: Vec<String> = Vec::new();
        for part in parts.ok_or(shape)? {
            texts.push(part.get("text").and_then(|t| t.as_str()).ok_or(shape)?.to_owned());
        }
        out.push(texts);
    }
    Ok(out)
}

/// The trimmed, non-empty pieces, in order.
pub open spec fn kept_pieces(ps: Seq<Seq<char>>) -> Seq<Seq<char>>
    decreases ps.len(),
{
    if ps.len() == 0 {
        Seq::empty()
    } else {
        let t = text::spec_trim(ps[0]);
        let rest = kept_pieces(ps.drop_first());
        if t.len() == 0 {
            rest
        } else {
            seq![t] + rest
        }
    }
}

/// The candidates one text fragment contributes: its pieces between
/// separators, trimmed, blanks dropped.
pub open spec fn fragment_candidates(t: Seq<char>) -> Seq<Seq<char>> {
    kept_pieces(text::spec_split(t, candidate_separator()))
}

/// The candidates one reply candidate contributes, part by part in order.
pub open spec fn candidate_texts(parts: Seq<Seq<char>>) -> Seq<Seq<char>>
    decreases parts.len(),
{
    if parts.len() == 0 {
        Seq::empty()
    } else {
        fragment_candidates(parts[0]) + candidate_texts(parts.drop_first())
    }
}

/// Every candidate of the whole reply, in document order.
pub open spec fn spec_candidates(reply: Seq<Seq<Seq<char>>>) -> Seq<Seq<char>>
    decreases reply.len(),
{
    if reply.len() == 0 {
        Seq::empty()
    } else {
        candidate_texts(reply[0]) + spec_candidates(reply.drop_first())
    }
}

/// Flattening distributes over concatenation of part lists: the pieces of
/// parts listed one after another are the pieces of the first run followed
/// by the pieces of the second, so document order is preserved.
pub proof fn lemma_candidate_texts_concat(a: Seq<Seq<char>>, b: Seq<Seq<char>>)
    ensures
        candidate_texts(a + b) == candidate_texts(a) + candidate_texts(b),
    decreases a.len(),
{
    if a.len() == 0 {
        assert(a + b =~= b);
        assert(candidate_texts(a) + candidate_texts(b) =~= candidate_texts(b));
    } else {
        lemma_candidate_texts_concat(a.drop_first(), b);
        assert((a + b).drop_first() =~= a.drop_first() + b);
        assert((a + b)[0] == a[0]);
        assert(fragment_candidates(a[0]) + (candidate_texts(a.drop_first()) + candidate_texts(b))
            =~= (fragment_candidates(a[0]) + candidate_texts(a.drop_first())) + candidate_texts(
            b,
        ));
    }
}

/// Flattening distributes over concatenation of candidate lists: candidates
/// listed one after another contribute their pieces in that order.
pub proof fn lemma_candidates_concat(a: Seq<Seq<Seq<char>>>, b: Seq<Seq<Seq<char>>>)
    ensures
        spec_candidates(a + b) == spec_candidates(a) + spec_candidates(b),
    decreases a.len(),
{
    if a.len() == 0 {
        assert(a + b =~= b);
        assert(spec_candidates(a) + spec_candidates(b) =~= spec_candidates(b));
    } else {
        lemma_candidates_concat(a.drop_first(), b);
        assert((a + b).drop_first() =~= a.drop_first() + b);
        assert((a + b)[0] == a[0]);
        assert(candidate_texts(a[0]) + (spec_candidates(a.drop_first()) + spec_candidates(b))
            =~= (candidate_texts(a[0]) + spec_candidates(a.drop_first())) + spec_candidates(b));
    }
}

proof fn lemma_kept_pieces_push(ps: Seq<Seq<char>>, x: Seq<char>)
    ensures
        kept_pieces(ps.push(x)) == kept_pieces(ps) + (if text::spec_trim(x).len() == 0 {
            Seq::<Seq<char>>::empty()
        } else {
            seq![text::spec_trim(x)]
        }),
    decreases ps.len(),
{
    let tail = (if text::spec_trim(x).len() == 0 {
        Seq::<Seq<char>>::empty()
    } else {
        seq![text::spec_trim(x)]
    });
    if ps.len() == 0 {
        let p = ps.push(x);
        assert(p.len() == 1);
        assert(p[0] == x);
        assert(p.drop_first() =~= Seq::<Seq<char>>::empty());
        assert(kept_pieces(p.drop_first()).len() == 0);
        if text::spec_trim(x).len() == 0 {
            assert(kept_pieces(p) =~= tail);
        } else {
            assert(kept_pieces(p) == seq![text::spec_trim(x)] + kept_pieces(p.drop_first()));
            assert(kept_pieces(p) =~= tail);
        }
        assert(kept_pieces(ps) + tail =~= tail);
    } else {
        lemma_kept_pieces_push(ps.drop_first(), x);
        assert(ps.push(x).drop_first() =~= ps.drop_first().push(x));
        assert(ps.push(x)[0] == ps[0]);
        if text::spec_trim(ps[0]).len() == 0 {
        } else {
            assert(seq![text::spec_trim(ps[0])] + (kept_pieces(ps.drop_first()) + tail)
                =~= (seq![text::spec_trim(ps[0])] + kept_pieces(ps.drop_first())) + tail);
        }
    }
}

proof fn lemma_candidate_texts_singleton(x: Seq<char>)
    ensures
        candidate_texts(seq![x]) == fragment_candidates(x),
{
    let s = seq![x];
    assert(s.len() == 1);
    assert(s[0] == x);
    assert(s.drop_first() =~= Seq::<Seq<char>>::empty());
    assert(candidate_texts(s.drop_first()).len() == 0);
    assert(candidate_texts(s) == fragment_candidates(x) + candidate_texts(s.drop_first()));
    assert(fragment_candidates(x) + candidate_texts(s.drop_first()) =~= fragment_candidates(x));
}

proof fn lemma_candidates_singleton(x: Seq<Seq<char>>)
    ensures
        spec_candidates(seq![x]) == candidate_texts(x),
{
    let s = seq![x];
    assert(s.len() == 1);
    assert(s[0] == x);
    assert(s.drop_first() =~= Seq::<Seq<Seq<char>>>::empty());
    assert(spec_candidates(s.drop_first()).len() == 0);
    assert(spec_candidates(s) == candidate_texts(x) + spec_candidates(s.drop_first()));
    assert(candidate_texts(x) + spec_candidates(s.drop_first()) =~= candidate_texts(x));
}

/// The candidates one text fragment contributes, executable form.
fn extract_fragment(t: &Vec<char>, out: &mut Vec<String>)
    ensures
        final(out).deep_view() == old(out).deep_view() + fragment_candidates(t@),
{
    let sep = text::chars_of("\n---\n");
    proof {
        reveal_strlit("\n---\n");
        assert(sep@.len() == 5);
    }
    let pieces = text::split(t, &sep);
    let ghost all = pieces.deep_view();
    let mut i: usize = 0;
    let n = pieces.len();
    proof {
        assert(all.take(0) =~= Seq::<Seq<char>>::empty());
        assert(kept_pieces(all.take(0)) =~= Seq::<Seq<char>>::empty());
        assert(out.deep_view() =~~= old(out).deep_view() + kept_pieces(all.take(0)));
    }
    while i < n
        invariant
            i <= n,
            n == pieces@.len(),
            n == all.len(),
            all == pieces.deep_view(),
            out.deep_view() =~~= old(out).deep_view() + kept_pieces(all.take(i as int)),
        decreases n - i,
    {
        let trimmed = text::trim(&pieces[i]);
        proof {
            assert(pieces.deep_view()[i as int] == pieces@[i as int]@);
            assert(trimmed@ == text::spec_trim(all[i as int]));
        }
        let ghost prev = out.deep_view();
        if trimmed.len() > 0 {
            let s = text::string_of(&trimmed);
            out.push(s);
            proof {
                assert(out.deep_view() =~~= prev.push(text::spec_trim(all[i as int])));
            }
        }
        proof {
            lemma_kept_pieces_push(all.take(i as int), all[i as int]);
            assert(all.take(i as int).push(all[i as int]) =~= all.take(i + 1));
            assert(out.deep_view() =~~= old(out).deep_view() + kept_pieces(all.take(i + 1)));
        }
        i = i + 1;
    }
    proof {
        assert(all.take(n as int) =~= all);
        assert(text::spec_split(t@, "\n---\n"@) == all);
    }
}

/// Flattens the decoded reply into the candidate list: every part of every
/// candidate in document order, split on the separator, trimmed, with blank
/// pieces dropped. Duplicates are kept.
pub fn extract_candidates(reply: &Vec<Vec<String>>) -> (r: Vec<String>)
    ensures
        r.deep_view() == spec_candidates(reply.deep_view()),
{
    let mut out: Vec<String> = Vec::new();
    let ghost whole = reply.deep_view();
    let mut i: usize = 0;
    let n = reply.len();
    proof {
        assert(whole.take(0) =~= Seq::<Seq<Seq<char>>>::empty());
        assert(spec_candidates(whole.take(0)) =~= Seq::<Seq<char>>::empty());
        assert(out.deep_view() =~~= spec_candidates(whole.take(0)));
    }
    while i < n
        invariant
            i <= n,
            n == reply@.len(),
            n == whole.len(),
            whole == reply.deep_view(),
            out.deep_view() =~~= spec_candidates(whole.take(i as int)),
        decreases n - i,
    {
        let parts = &reply[i];
        let ghost cparts = whole[i as int];
        proof {
            assert(reply.deep_view()[i as int] == reply@[i as int].deep_view());
            assert(cparts == parts.deep_view());
        }
        let mut j: usize = 0;
        let m = parts.len();
        proof {
            assert(cparts.take(0) =~= Seq::<Seq<char>>::empty());
            assert(candidate_texts(cparts.take(0)) =~= Seq::<Seq<char>>::empty());
            assert(out.deep_view() =~~= spec_candidates(whole.take(i as int)) + candidate_texts(
                cparts.take(0),
            ));
        }
        while j < m
            invariant
                j <= m,
                m == parts@.len(),
                m == cparts.len(),
                cparts == parts.deep_view(),
                i < n,
                n == whole.len(),
                whole == reply.deep_view(),
                cparts == whole[i as int],
                out.deep_view() =~~= spec_candidates(whole.take(i as int)) + candidate_texts(
                    cparts.take(j as int),
                ),
            decreases m - j,
        {
            let chars = text::chars_of(parts[j].as_str());
            proof {
                assert(parts.deep_view()[j as int] == parts@[j as int]@);
                assert(chars@ == cparts[j as int]);
            }
            let ghost before = out.deep_view();
            extract_fragment(&chars, &mut out);
            proof {
                lemma_candidate_texts_concat(cparts.take(j as int), seq![cparts[j as int]]);
                assert(cparts.take(j as int) + seq![cparts[j as int]] =~= cparts.take(j + 1));
                lemma_candidate_texts_singleton(cparts[j as int]);
                assert(out.deep_view() =~~= spec_candidates(whole.take(i as int))
                    + candidate_texts(cparts.take(j + 1)));
            }
            j = j + 1;
        }
        proof {
            assert(cparts.take(m as int) =~= cparts);
            lemma_candidates_concat(whole.take(i as int), seq![cparts]);
            assert(whole.take(i as int) + seq![cparts] =~= whole.take(i + 1));
            lemma_candidates_singleton(cparts);
            assert(out.deep_view() =~~= spec_candidates(whole.take(i + 1)));
        }
        i = i + 1;
    }
    proof {
        assert(whole.take(n as int) =~= whole);
        assert(out.deep_view() =~~= spec_candidates(reply.deep_view()));
    }
    out
}

} // verus!
