//! Joining a sequence of word segments with a delimiter, and the inverse
//! operation of splitting the joined text back into segments. The round-trip
//! laws here carry the guarantees about hyphenated output: as long as the
//! delimiter's characters do not occur in the segments, the joined text
//! determines the segments exactly, and removing the delimiters reconstructs
//! the original character sequence.

use vstd::prelude::*;
use vstd::string::StringExecFns;

verus! {

/// The concatenation of all segments, in order.
pub open spec fn concat_segs(segs: Seq<Seq<char>>) -> Seq<char>
    decreases segs.len(),
{
    if segs.len() == 0 {
        Seq::empty()
    } else {
        segs[0] + concat_segs(segs.drop_first())
    }
}

/// All segments joined in order, with `d` between each adjacent pair.
pub open spec fn join_segs(segs: Seq<Seq<char>>, d: Seq<char>) -> Seq<char>
    decreases segs.len(),
{
    if segs.len() == 0 {
        Seq::empty()
    } else if segs.len() == 1 {
        segs[0]
    } else {
        segs[0] + d + join_segs(segs.drop_first(), d)
    }
}

/// Greedy left-to-right split of `s` at occurrences of the delimiter `d`.
/// With an empty delimiter nothing is split.
pub open spec fn split_segs(s: Seq<char>, d: Seq<char>) -> Seq<Seq<char>>
    decreases s.len(),
{
    if d.len() == 0 || s.len() < d.len() {
        seq![s]
    } else if s.take(d.len() as int) == d {
        seq![Seq::<char>::empty()] + split_segs(s.skip(d.len() as int), d)
    } else {
        let rest = split_segs(s.drop_first(), d);
        seq![seq![s[0]] + rest[0]] + rest.drop_first()
    }
}

/// Whether none of the characters of `p` occurs in the delimiter `d`.
pub open spec fn avoids(p: Seq<char>, d: Seq<char>) -> bool {
    forall|i: int| 0 <= i < p.len() ==> !d.contains(p[i])
}

/// Whether no character of any segment occurs in the delimiter `d`.
pub open spec fn segs_avoid(segs: Seq<Seq<char>>, d: Seq<char>) -> bool {
    forall|k: int| 0 <= k < segs.len() ==> avoids(#[trigger] segs[k], d)
}

/// A split always yields at least one segment.
pub proof fn lemma_split_nonempty(s: Seq<char>, d: Seq<char>)
    ensures
        split_segs(s, d).len() >= 1,
    decreases s.len(),
{
    if d.len() == 0 || s.len() < d.len() {
    } else if s.take(d.len() as int) == d {
        lemma_split_nonempty(s.skip(d.len() as int), d)
    } else {
        lemma_split_nonempty(s.drop_first(), d)
    }
}

/// A text whose characters avoid the delimiter splits into itself alone.
pub proof fn lemma_split_avoiding(p: Seq<char>, d: Seq<char>)
    requires
        d.len() > 0,
        avoids(p, d),
    ensures
        split_segs(p, d) == seq![p],
    decreases p.len(),
{
    if p.len() < d.len() {
    } else {
        assert(p.take(d.len() as int) != d) by {
            assert(d.contains(d[0]));
            assert(p.take(d.len() as int)[0] == p[0]);
        }
        assert(avoids(p.drop_first(), d)) by {
            assert(forall|i: int|
                0 <= i < p.drop_first().len() ==> p.drop_first()[i] == p[i + 1]);
        }
        lemma_split_avoiding(p.drop_first(), d);
        assert(split_segs(p, d) =~= seq![seq![p[0]] + p.drop_first()]);
        assert(seq![p[0]] + p.drop_first() =~= p);
    }
}

/// Splitting `p + d + s` takes `p` as the first segment and continues with the
/// split of `s`, provided `p`'s characters avoid the delimiter.
proof fn lemma_split_step(p: Seq<char>, d: Seq<char>, s: Seq<char>)
    requires
        d.len() > 0,
        avoids(p, d),
    ensures
        split_segs(p + d + s, d) == seq![p] + split_segs(s, d),
    decreases p.len(),
{
    let whole = p + d + s;
    if p.len() == 0 {
        assert(whole.take(d.len() as int) =~= d);
        assert(whole.skip(d.len() as int) =~= s);
        assert(split_segs(whole, d) == seq![Seq::<char>::empty()] + split_segs(s, d));
        assert(p =~= Seq::<char>::empty());
        assert(seq![Seq::<char>::empty()] + split_segs(s, d) =~= seq![p] + split_segs(s, d));
    } else {
        assert(whole.len() >= d.len());
        assert(whole.take(d.len() as int) != d) by {
            assert(d.contains(d[0]));
            assert(whole.take(d.len() as int)[0] == p[0]);
        }
        let tail = p.drop_first();
        assert(avoids(tail, d)) by {
            assert(forall|i: int| 0 <= i < tail.len() ==> tail[i] == p[i + 1]);
        }
        lemma_split_step(tail, d, s);
        assert(whole.drop_first() =~= tail + d + s);
        let rest = split_segs(tail + d + s, d);
        assert(rest == seq![tail] + split_segs(s, d));
        assert(rest[0] == tail);
        lemma_split_nonempty(s, d);
        assert(rest.drop_first() =~= split_segs(s, d));
        assert(seq![whole[0]] + rest[0] =~= p);
        assert(split_segs(whole, d) =~= seq![p] + split_segs(s, d));
    }
}

/// Round trip: joining segments with a delimiter that their characters avoid,
/// then splitting on that delimiter, recovers the segments exactly.
pub proof fn lemma_split_join(segs: Seq<Seq<char>>, d: Seq<char>)
    requires
        segs.len() >= 1,
        d.len() > 0,
        segs_avoid(segs, d),
    ensures
        split_segs(join_segs(segs, d), d) == segs,
    decreases segs.len(),
{
    if segs.len() == 1 {
        lemma_split_avoiding(segs[0], d);
        assert(split_segs(join_segs(segs, d), d) =~= segs);
    } else {
        let tail = segs.drop_first();
        assert(segs_avoid(tail, d)) by {
            assert(forall|k: int| 0 <= k < tail.len() ==> tail[k] == segs[k + 1]);
        }
        lemma_split_join(tail, d);
        lemma_split_step(segs[0], d, join_segs(tail, d));
        assert(join_segs(segs, d) == segs[0] + d + join_segs(tail, d));
        assert(seq![segs[0]] + tail =~= segs);
    }
}

/// Concatenating the segments recovered by the round trip reconstructs the
/// concatenation of the original segments.
pub proof fn lemma_remove_delimiters(segs: Seq<Seq<char>>, d: Seq<char>)
    requires
        segs.len() >= 1,
        d.len() > 0,
        segs_avoid(segs, d),
    ensures
        concat_segs(split_segs(join_segs(segs, d), d)) == concat_segs(segs),
{
    lemma_split_join(segs, d);
}

/// Every character of every segment occurs in the segments' concatenation.
pub proof fn lemma_concat_covers(segs: Seq<Seq<char>>, k: int, i: int)
    requires
        0 <= k < segs.len(),
        0 <= i < segs[k].len(),
    ensures
        concat_segs(segs).contains(segs[k][i]),
    decreases segs.len(),
{
    if k == 0 {
        assert(concat_segs(segs)[i] == segs[0][i]);
    } else {
        let tail = segs.drop_first();
        lemma_concat_covers(tail, k - 1, i);
        let c = segs[k][i];
        assert(tail[k - 1] == segs[k]);
        let j = choose|j: int| 0 <= j < concat_segs(tail).len() && concat_segs(tail)[j] == c;
        assert(concat_segs(segs)[segs[0].len() + j] == c);
    }
}

/// If the concatenation of the segments avoids the delimiter, so does every
/// segment.
pub proof fn lemma_segs_avoid_from_concat(segs: Seq<Seq<char>>, d: Seq<char>)
    requires
        avoids(concat_segs(segs), d),
    ensures
        segs_avoid(segs, d),
{
    assert forall|k: int| 0 <= k < segs.len() implies avoids(#[trigger] segs[k], d) by {
        assert forall|i: int| 0 <= i < segs[k].len() implies !d.contains(segs[k][i]) by {
            lemma_concat_covers(segs, k, i);
        }
    }
}

/// Joining one more segment extends the joined text by a delimiter (if it is
/// not the first segment) and the segment.
proof fn lemma_join_push(segs: Seq<Seq<char>>, d: Seq<char>, p: Seq<char>)
    ensures
        segs.len() == 0 ==> join_segs(segs.push(p), d) == p,
        segs.len() > 0 ==> join_segs(segs.push(p), d) == join_segs(segs, d) + d + p,
    decreases segs.len(),
{
    if segs.len() == 0 {
        assert(join_segs(segs.push(p), d) == segs.push(p)[0]);
        assert(segs.push(p)[0] == p);
    } else if segs.len() == 1 {
        let two = segs.push(p);
        assert(two.drop_first() =~= seq![p]);
        assert(join_segs(two, d) == two[0] + d + join_segs(seq![p], d));
        assert(join_segs(seq![p], d) == p);
        assert(two[0] + d + p =~= segs[0] + d + p);
        assert(join_segs(segs, d) == segs[0]);
    } else {
        let tail = segs.drop_first();
        lemma_join_push(tail, d, p);
        assert(segs.push(p).drop_first() =~= tail.push(p));
        assert(join_segs(segs.push(p), d) == segs[0] + d + join_segs(tail.push(p), d));
        assert(segs[0] + d + (join_segs(tail, d) + d + p) =~= (segs[0] + d + join_segs(
            tail,
            d,
        )) + d + p);
    }
}

/// Joining with an empty delimiter concatenates the segments with no
/// separator.
pub proof fn lemma_join_empty_delimiter(segs: Seq<Seq<char>>)
    ensures
        join_segs(segs, Seq::empty()) == concat_segs(segs),
    decreases segs.len(),
{
    let d = Seq::<char>::empty();
    if segs.len() == 0 {
    } else if segs.len() == 1 {
        assert(concat_segs(segs.drop_first()) =~= Seq::<char>::empty());
        assert(segs[0] + Seq::<char>::empty() =~= segs[0]);
    } else {
        lemma_join_empty_delimiter(segs.drop_first());
        assert(segs[0] + d + join_segs(segs.drop_first(), d) =~= segs[0] + concat_segs(
            segs.drop_first(),
        ));
    }
}

/// The views of a sequence of strings.
pub open spec fn views_of(parts: Seq<String>) -> Seq<Seq<char>> {
    parts.map_values(|p: String| p@)
}

/// Join the parts in order, inserting the delimiter between each adjacent
/// pair.
pub fn join_parts(parts: &Vec<String>, delimiter: &str) -> (r: String)
    ensures
        r@ == join_segs(views_of(parts@), delimiter@),
{
    let mut out = String::new();
    let mut i: usize = 0;
    while i < parts.len()
        invariant
            i <= parts.len(),
            out@ == join_segs(views_of(parts@.take(i as int)), delimiter@),
        decreases parts.len() - i,
    {
        if i > 0 {
            out.append(delimiter);
        }
        out.append(parts[i].as_str());
        proof {
            let prev = views_of(parts@.take(i as int));
            let next = views_of(parts@.take(i + 1 as int));
            assert(next =~= prev.push(parts@[i as int]@));
            lemma_join_push(prev, delimiter@, parts@[i as int]@);
        }
        i = i + 1;
    }
    proof {
        assert(parts@.take(parts@.len() as int) =~= parts@);
    }
    out
}

} // verus!
