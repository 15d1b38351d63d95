//! The keystroke matcher: which spelling of the input-method table, if any,
//! accepts a key at the cursor.

use vstd::prelude::*;
use crate::model::TextConvert;
use crate::text::{chars_occur_at, occurs_at, str_chars};

verus! {

/// What a keystroke is matched against: the target text of the current
/// segment, the cursor's offset in it, the keys typed so far towards a
/// spelling, and the key itself.
pub struct Probe {
    pub target: Seq<char>,
    pub pos: int,
    pub unconfirmed: Seq<char>,
    pub input: char,
}

/// A spelling goes on with `input` when the keys typed so far are a proper
/// prefix of it and `input` is its next key.
pub open spec fn continues_with(candidate: Seq<char>, unconfirmed: Seq<char>, input: char) -> bool {
    &&& unconfirmed.len() < candidate.len()
    &&& candidate.take(unconfirmed.len() as int) == unconfirmed
    &&& candidate[unconfirmed.len() as int] == input
}

/// Spelling `c` of entry `k` accepts the keystroke: the entry's key stands in
/// the target text at the cursor, and the spelling goes on with the input.
pub open spec fn hits(layout: Seq<(Seq<char>, Seq<Seq<char>>)>, probe: Probe, k: int, c: int) -> bool {
    &&& 0 <= k < layout.len()
    &&& 0 <= c < layout[k].1.len()
    &&& occurs_at(probe.target, probe.pos, layout[k].0)
    &&& continues_with(layout[k].1[c], probe.unconfirmed, probe.input)
}

/// Table order: entry by entry, and within an entry spelling by spelling.
pub open spec fn earlier(k1: int, c1: int, k2: int, c2: int) -> bool {
    k1 < k2 || (k1 == k2 && c1 < c2)
}

/// Spelling `c` of entry `k` accepts the keystroke and none before it in
/// table order does.
pub open spec fn is_first_hit(
    layout: Seq<(Seq<char>, Seq<Seq<char>>)>,
    probe: Probe,
    k: int,
    c: int,
) -> bool {
    &&& hits(layout, probe, k, c)
    &&& forall|k2: int, c2: int| #[trigger] hits(layout, probe, k2, c2) ==> !earlier(k2, c2, k, c)
}

/// The first spelling in table order that accepts the keystroke, as the
/// offsets of its entry and of the spelling in it.
pub open spec fn first_hit(layout: Seq<(Seq<char>, Seq<Seq<char>>)>, probe: Probe) -> Option<
    (int, int),
> {
    if exists|p: (int, int)| is_first_hit(layout, probe, p.0, p.1) {
        Some(choose|p: (int, int)| is_first_hit(layout, probe, p.0, p.1))
    } else {
        None
    }
}

/// There is at most one first hit, and [`first_hit`] names it.
pub proof fn lemma_first_hit_found(
    layout: Seq<(Seq<char>, Seq<Seq<char>>)>,
    probe: Probe,
    k: int,
    c: int,
)
    requires
        is_first_hit(layout, probe, k, c),
    ensures
        first_hit(layout, probe) == Some((k, c)),
{
    let found = (k, c);
    assert(is_first_hit(layout, probe, found.0, found.1));
    let p = choose|p: (int, int)| is_first_hit(layout, probe, p.0, p.1);
    assert(hits(layout, probe, p.0, p.1));
    assert(hits(layout, probe, k, c));
    assert(!earlier(p.0, p.1, k, c));
    assert(!earlier(k, c, p.0, p.1));
    assert(p == found);
}

/// Where no spelling accepts the keystroke there is no first hit.
pub proof fn lemma_first_hit_none(layout: Seq<(Seq<char>, Seq<Seq<char>>)>, probe: Probe)
    requires
        forall|k: int, c: int| !hits(layout, probe, k, c),
    ensures
        first_hit(layout, probe) is None,
{
}

/// Whether the spelling `candidate` goes on with `input` after the keys in
/// `unconfirmed`.
fn spelling_continues(candidate: &Vec<char>, unconfirmed: &Vec<char>, input: char) -> (b: bool)
    ensures
        b == continues_with(candidate@, unconfirmed@, input),
{
    if unconfirmed.len() >= candidate.len() {
        return false;
    }
    let prefix = chars_occur_at(candidate, 0, unconfirmed);
    prefix && candidate[unconfirmed.len()] == input
}

/// Looks the keystroke up in the table: the first spelling in table order
/// that accepts it, as the offsets of its entry and of the spelling in it.
pub fn find_hit(
    layout: &TextConvert,
    target: &Vec<char>,
    pos: usize,
    unconfirmed: &Vec<char>,
    input: char,
) -> (hit: Option<(usize, usize)>)
    ensures
        match hit {
            Some((k, c)) => first_hit(
                layout@,
                Probe { target: target@, pos: pos as int, unconfirmed: unconfirmed@, input },
            ) == Some((k as int, c as int)) && hits(
                layout@,
                Probe { target: target@, pos: pos as int, unconfirmed: unconfirmed@, input },
                k as int,
                c as int,
            ) && k < layout.mapping@.len() && c < layout.mapping@[k as int].1@.len(),
            None => first_hit(
                layout@,
                Probe { target: target@, pos: pos as int, unconfirmed: unconfirmed@, input },
            ) is None,
        },
{
    let ghost probe = Probe { target: target@, pos: pos as int, unconfirmed: unconfirmed@, input };
    let mut k: usize = 0;
    while k < layout.mapping.len()
        invariant
            k <= layout.mapping.len(),
            probe == (Probe {
                target: target@,
                pos: pos as int,
                unconfirmed: unconfirmed@,
                input,
            }),
            forall|k2: int, c2: int| #[trigger] hits(layout@, probe, k2, c2) ==> k2 >= k,
        decreases layout.mapping.len() - k,
    {
        let key = str_chars(layout.mapping[k].0.as_str());
        if chars_occur_at(target, pos, &key) {
            let mut c: usize = 0;
            while c < layout.mapping[k].1.len()
                invariant
                    k < layout.mapping.len(),
                    c <= layout.mapping[k as int].1.len(),
                    occurs_at(target@, pos as int, layout@[k as int].0),
                    probe == (Probe {
                        target: target@,
                        pos: pos as int,
                        unconfirmed: unconfirmed@,
                        input,
                    }),
                    forall|k2: int, c2: int| #[trigger]
                        hits(layout@, probe, k2, c2) ==> !earlier(k2, c2, k as int, c as int),
                decreases layout.mapping[k as int].1.len() - c,
            {
                let candidate = str_chars(layout.mapping[k].1[c].as_str());
                if spelling_continues(&candidate, unconfirmed, input) {
                    proof {
                        lemma_first_hit_found(layout@, probe, k as int, c as int);
                    }
                    return Some((k, c));
                }
                c += 1;
            }
        }
        k += 1;
    }
    proof {
        lemma_first_hit_none(layout@, probe);
    }
    None
}

/// Where some spelling accepts the keystroke, one of them is the first in
/// table order.
pub proof fn lemma_first_hit_exists(
    layout: Seq<(Seq<char>, Seq<Seq<char>>)>,
    probe: Probe,
    k: int,
    c: int,
) -> (first: (int, int))
    requires
        hits(layout, probe, k, c),
    ensures
        is_first_hit(layout, probe, first.0, first.1),
        first_hit(layout, probe) == Some(first),
    decreases k, c,
{
    if exists|k2: int, c2: int| hits(layout, probe, k2, c2) && earlier(k2, c2, k, c) {
        let (k2, c2) = choose|k2: int, c2: int|
            hits(layout, probe, k2, c2) && earlier(k2, c2, k, c);
        lemma_first_hit_exists(layout, probe, k2, c2)
    } else {
        lemma_first_hit_found(layout, probe, k, c);
        (k, c)
    }
}

/// A spelling stands alone at a place in the target text when, among the
/// spellings of the entries whose key stands there, none is a proper prefix
/// of it, it is a proper prefix of none, and those equal to it belong to keys
/// of `span` characters.
pub open spec fn stands_alone(
    layout: Seq<(Seq<char>, Seq<Seq<char>>)>,
    target: Seq<char>,
    pos: int,
    spelling: Seq<char>,
    span: int,
) -> bool {
    forall|k: int, c: int|
        0 <= k < layout.len() && 0 <= c < layout[k].1.len() && occurs_at(target, pos, layout[k].0)
            ==> {
            let other = #[trigger] layout[k].1[c];
            &&& !(0 < other.len() < spelling.len() && spelling.take(other.len() as int) == other)
            &&& !(spelling.len() < other.len() && other.take(spelling.len() as int) == spelling)
            &&& other == spelling ==> layout[k].0.len() == span
        }
}

} // verus!
