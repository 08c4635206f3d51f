//! What holds of stored facts whatever is merged into them.

use crate::calendar::{day_at, expiry_days};
use crate::facts::{
    is_expired, merged, merged_all, merged_one, outranks, placed, ranked, topmost, unexpired,
    MAX_FACTS,
};
use crate::text::{
    lemma_text_before_irreflexive, lemma_text_before_total, lemma_text_before_transitive,
    same_but_case, text_before, trimmed,
};
use crate::types::Fact;
use vstd::prelude::*;

verus! {

/// Whether the importance of each fact is a number.
pub open spec fn all_numbers(facts: Seq<Fact>) -> bool {
    forall|i: int| 0 <= i < facts.len() ==> !(#[trigger] facts[i]).importance.is_nan()
}

/// Whether no fact outranks one that stands before it.
pub open spec fn in_order(facts: Seq<Fact>) -> bool {
    forall|i: int, j: int|
        #![trigger facts[i], facts[j]]
        0 <= i < j < facts.len() ==> !outranks(facts[j], facts[i])
}

/// Whether no two facts have the same text, case aside.
pub open spec fn all_distinct(facts: Seq<Fact>) -> bool {
    forall|i: int, j: int|
        #![trigger facts[i], facts[j]]
        0 <= i < j < facts.len() ==> !same_but_case(facts[i].fact, facts[j].fact)
}

/// The facts that stay are those that have not expired.
pub proof fn law_only_expired_facts_leave(facts: Seq<Fact>, today: Option<i64>)
    ensures
        forall|fact: Fact| #[trigger]
            unexpired(facts, today).contains(fact) <==> facts.contains(fact) && !is_expired(
                fact,
                today,
            ),
    decreases facts.len(),
{
    reveal(Seq::filter);
    if facts.len() > 0 {
        let shorter = facts.drop_last();
        law_only_expired_facts_leave(shorter, today);
        let kept = unexpired(shorter, today);
        let all = unexpired(facts, today);
        assert(facts =~= shorter.push(facts.last()));
        assert forall|fact: Fact| #[trigger]
            all.contains(fact) <==> facts.contains(fact) && !is_expired(fact, today) by {
            assert(facts.contains(fact) <==> shorter.contains(fact) || fact == facts.last()) by {
                if shorter.contains(fact) {
                    let q = choose|q: int| 0 <= q < shorter.len() && shorter[q] == fact;
                    assert(facts[q] == fact);
                }
                assert(facts[facts.len() - 1] == facts.last());
                if facts.contains(fact) && fact != facts.last() {
                    let q = choose|q: int| 0 <= q < facts.len() && facts[q] == fact;
                    assert(shorter[q] == fact);
                }
            }
            if !is_expired(facts.last(), today) {
                assert(all == kept.push(facts.last()));
                assert(all[all.len() - 1] == facts.last());
                if kept.contains(fact) {
                    let q = choose|q: int| 0 <= q < kept.len() && kept[q] == fact;
                    assert(all[q] == fact);
                }
                if all.contains(fact) && fact != facts.last() {
                    let q = choose|q: int| 0 <= q < all.len() && all[q] == fact;
                    assert(kept[q] == fact);
                }
            }
            assert(kept.contains(fact) <==> shorter.contains(fact) && !is_expired(fact, today));
        }
    }
}

/// A fact whose expiry is unknown never expires.
pub proof fn law_unknown_expiry_stays(fact: Fact, today: Option<i64>)
    requires
        same_but_case(trimmed(fact.expiry), "unknown"@),
    ensures
        !is_expired(fact, today),
{
}

/// A fact whose last day lies before 1970 has expired whatever the clock shows.
pub proof fn law_dates_before_1970_have_expired(fact: Fact, now: std::time::SystemTime)
    requires
        !same_but_case(trimmed(fact.expiry), "unknown"@),
        expiry_days(trimmed(fact.expiry)) matches Some(last) && last < 0,
    ensures
        is_expired(fact, day_at(now)),
{
}

/// A fact that has expired stays expired on later days.
pub proof fn law_expired_stays_expired(fact: Fact, day: i64, later: i64)
    requires
        day <= later,
        is_expired(fact, Some(day)),
    ensures
        is_expired(fact, Some(later)),
{
}

proof fn lemma_outranks_weak_order(a: Fact, b: Fact, c: Fact)
    requires
        !a.importance.is_nan(),
        !b.importance.is_nan(),
        !c.importance.is_nan(),
        !outranks(a, b),
        !outranks(b, c),
    ensures
        !outranks(a, c),
{
    if outranks(a, c) && a.importance.rank() == c.importance.rank() {
        lemma_text_before_total(a.fact, b.fact);
        lemma_text_before_total(b.fact, c.fact);
        lemma_text_before_irreflexive(a.fact);
        lemma_text_before_irreflexive(c.fact);
        if text_before(b.fact, a.fact) {
            lemma_text_before_transitive(b.fact, a.fact, c.fact);
        }
    }
}

proof fn lemma_outranks_asymmetric(a: Fact, b: Fact)
    requires
        !a.importance.is_nan(),
        !b.importance.is_nan(),
        outranks(a, b),
    ensures
        !outranks(b, a),
{
    if outranks(b, a) {
        lemma_text_before_transitive(a.fact, b.fact, a.fact);
        lemma_text_before_irreflexive(a.fact);
    }
}

/// Placing a fact adds it and keeps the others.
proof fn lemma_placed_members(facts: Seq<Fact>, fact: Fact)
    ensures
        placed(facts, fact).to_multiset() == facts.to_multiset().insert(fact),
        placed(facts, fact).len() == facts.len() + 1,
    decreases facts.len(),
{
    broadcast use vstd::seq_lib::group_to_multiset_ensures;

    if facts.len() > 0 && outranks(fact, facts.last()) {
        let shorter = facts.drop_last();
        lemma_placed_members(shorter, fact);
        assert(facts =~= shorter.push(facts.last()));
        assert(placed(facts, fact).to_multiset() =~= facts.to_multiset().insert(fact));
    }
}

/// Ranking changes the order of the facts and nothing else.
pub proof fn law_ranking_keeps_the_facts(facts: Seq<Fact>)
    ensures
        ranked(facts).to_multiset() == facts.to_multiset(),
        ranked(facts).len() == facts.len(),
    decreases facts.len(),
{
    broadcast use vstd::seq_lib::group_to_multiset_ensures;

    if facts.len() > 0 {
        let shorter = facts.drop_last();
        law_ranking_keeps_the_facts(shorter);
        lemma_placed_members(ranked(shorter), facts.last());
        assert(facts =~= shorter.push(facts.last()));
    } else {
        assert(facts =~= seq![]);
    }
}

proof fn lemma_same_members(a: Seq<Fact>, b: Seq<Fact>)
    requires
        a.to_multiset() == b.to_multiset(),
    ensures
        forall|fact: Fact| #[trigger] a.contains(fact) <==> b.contains(fact),
{
    broadcast use vstd::seq_lib::group_to_multiset_ensures;

    assert forall|fact: Fact| #[trigger] a.contains(fact) <==> b.contains(fact) by {
        assert(a.contains(fact) <==> a.to_multiset().count(fact) > 0);
        assert(b.contains(fact) <==> b.to_multiset().count(fact) > 0);
    }
}

proof fn lemma_ranked_members(facts: Seq<Fact>)
    ensures
        forall|i: int| 0 <= i < ranked(facts).len() ==> facts.contains(#[trigger] ranked(facts)[i]),
        ranked(facts).len() == facts.len(),
{
    law_ranking_keeps_the_facts(facts);
    lemma_same_members(ranked(facts), facts);
    assert forall|i: int| 0 <= i < ranked(facts).len() implies facts.contains(
        #[trigger] ranked(facts)[i],
    ) by {
        assert(ranked(facts).contains(ranked(facts)[i]));
    }
}

proof fn lemma_placed_in_order(facts: Seq<Fact>, fact: Fact)
    requires
        all_numbers(facts),
        !fact.importance.is_nan(),
        in_order(facts),
    ensures
        in_order(placed(facts, fact)),
        all_numbers(placed(facts, fact)),
        forall|i: int|
            0 <= i < placed(facts, fact).len() ==> #[trigger] placed(facts, fact)[i] == fact
                || facts.contains(placed(facts, fact)[i]),
    decreases facts.len(),
{
    let r = placed(facts, fact);
    if facts.len() > 0 && outranks(fact, facts.last()) {
        let shorter = facts.drop_last();
        assert forall|i: int, j: int|
            #![trigger shorter[i], shorter[j]]
            0 <= i < j < shorter.len() implies !outranks(shorter[j], shorter[i]) by {
            assert(!outranks(facts[j], facts[i]));
        }
        assert forall|i: int| 0 <= i < shorter.len() implies !(#[trigger]
        shorter[i]).importance.is_nan() by {
            assert(!facts[i].importance.is_nan());
        }
        lemma_placed_in_order(shorter, fact);
        let p = placed(shorter, fact);
        assert(r == p.push(facts.last()));
        assert forall|i: int| 0 <= i < r.len() implies #[trigger] r[i] == fact || facts.contains(
            r[i],
        ) by {
            if i < p.len() {
                assert(p[i] == r[i]);
                if p[i] != fact {
                    let k = choose|k: int| 0 <= k < shorter.len() && shorter[k] == p[i];
                    assert(facts[k] == r[i]);
                }
            } else {
                assert(facts[facts.len() - 1] == r[i]);
            }
        }
        assert forall|i: int, j: int|
            #![trigger r[i], r[j]]
            0 <= i < j < r.len() implies !outranks(r[j], r[i]) by {
            if j < p.len() {
                assert(!outranks(p[j], p[i]));
            } else if p[i] == fact {
                lemma_outranks_asymmetric(fact, facts.last());
            } else {
                let k = choose|k: int| 0 <= k < shorter.len() && shorter[k] == p[i];
                assert(!outranks(facts[facts.len() - 1], facts[k]));
            }
        }
    } else {
        assert forall|i: int, j: int|
            #![trigger r[i], r[j]]
            0 <= i < j < r.len() implies !outranks(r[j], r[i]) by {
            if j == facts.len() {
                if i < facts.len() - 1 {
                    assert(!outranks(facts[facts.len() - 1], facts[i]));
                    lemma_outranks_weak_order(fact, facts.last(), facts[i]);
                }
            } else {
                assert(!outranks(facts[j], facts[i]));
            }
        }
        assert forall|i: int| 0 <= i < r.len() implies #[trigger] r[i] == fact || facts.contains(
            r[i],
        ) by {
            if i < facts.len() {
                assert(facts[i] == r[i]);
            }
        }
    }
}

proof fn lemma_ranked_in_order(facts: Seq<Fact>)
    requires
        all_numbers(facts),
    ensures
        in_order(ranked(facts)),
        all_numbers(ranked(facts)),
    decreases facts.len(),
{
    if facts.len() > 0 {
        let shorter = facts.drop_last();
        assert forall|i: int| 0 <= i < shorter.len() implies !(#[trigger]
        shorter[i]).importance.is_nan() by {
            assert(!facts[i].importance.is_nan());
        }
        lemma_ranked_in_order(shorter);
        assert(!facts[facts.len() - 1].importance.is_nan());
        lemma_placed_in_order(ranked(shorter), facts.last());
    }
}

/// The facts that are kept stand in the order of their rank, are no more than the limit,
/// and no fact that was cut off outranks one that was kept.
pub proof fn law_kept_facts_are_the_highest_ranked(facts: Seq<Fact>)
    requires
        all_numbers(facts),
    ensures
        in_order(topmost(facts)),
        topmost(facts).len() <= MAX_FACTS,
        topmost(facts).len() == MAX_FACTS || topmost(facts).to_multiset() == facts.to_multiset(),
        forall|i: int, j: int|
            #![trigger topmost(facts)[i], ranked(facts)[j]]
            0 <= i < topmost(facts).len() <= j < facts.len() ==> !outranks(
                ranked(facts)[j],
                topmost(facts)[i],
            ),
{
    law_ranking_keeps_the_facts(facts);
    lemma_ranked_in_order(facts);
    let r = ranked(facts);
    let t = topmost(facts);
    assert forall|i: int| 0 <= i < t.len() implies #[trigger] t[i] == r[i] by {}
    assert forall|i: int, j: int| #![trigger t[i], t[j]] 0 <= i < j < t.len() implies !outranks(
        t[j],
        t[i],
    ) by {
        assert(!outranks(r[j], r[i]));
    }
    assert forall|i: int, j: int|
        #![trigger topmost(facts)[i], ranked(facts)[j]]
        0 <= i < t.len() <= j < facts.len() implies !outranks(r[j], t[i]) by {
        assert(!outranks(r[j], r[i]));
    }
}

/// Whether neither of two facts outranks the other.
pub open spec fn level(a: Fact, b: Fact) -> bool {
    !outranks(a, b) && !outranks(b, a)
}

proof fn lemma_level_transitive(a: Fact, b: Fact, c: Fact)
    requires
        !a.importance.is_nan(),
        !b.importance.is_nan(),
        !c.importance.is_nan(),
        level(a, b),
        level(b, c),
    ensures
        level(a, c),
{
    lemma_outranks_weak_order(a, b, c);
    lemma_outranks_weak_order(c, b, a);
}

proof fn lemma_placed_is_stable(facts: Seq<Fact>, fact: Fact, like: Fact)
    requires
        all_numbers(facts),
        !fact.importance.is_nan(),
        !like.importance.is_nan(),
    ensures
        placed(facts, fact).filter(|f: Fact| level(f, like)) == facts.push(fact).filter(
            |f: Fact| level(f, like),
        ),
    decreases facts.len(),
{
    reveal(Seq::filter);
    let same = |f: Fact| level(f, like);
    assert(facts.push(fact).drop_last() =~= facts);
    if facts.len() > 0 && outranks(fact, facts.last()) {
        let shorter = facts.drop_last();
        assert forall|i: int| 0 <= i < shorter.len() implies !(#[trigger]
        shorter[i]).importance.is_nan() by {
            assert(!facts[i].importance.is_nan());
        }
        assert(!facts[facts.len() - 1].importance.is_nan());
        lemma_placed_is_stable(shorter, fact, like);
        assert(shorter.push(fact).drop_last() =~= shorter);
        let p = placed(shorter, fact);
        assert(p.push(facts.last()).drop_last() =~= p);
        if same(facts.last()) && same(fact) {
            lemma_level_transitive(fact, like, facts.last());
        }
        assert(facts.filter(same) == if same(facts.last()) {
            shorter.filter(same).push(facts.last())
        } else {
            shorter.filter(same)
        });
        assert(shorter.push(fact).filter(same) == if same(fact) {
            shorter.filter(same).push(fact)
        } else {
            shorter.filter(same)
        });
        assert(p.push(facts.last()).filter(same) == if same(facts.last()) {
            p.filter(same).push(facts.last())
        } else {
            p.filter(same)
        });
    }
}

/// Facts of which neither outranks the other keep the order in which they stood.
pub proof fn law_ranking_is_stable(facts: Seq<Fact>, like: Fact)
    requires
        all_numbers(facts),
        !like.importance.is_nan(),
    ensures
        ranked(facts).filter(|f: Fact| level(f, like)) == facts.filter(|f: Fact| level(f, like)),
    decreases facts.len(),
{
    reveal(Seq::filter);
    if facts.len() > 0 {
        let shorter = facts.drop_last();
        assert forall|i: int| 0 <= i < shorter.len() implies !(#[trigger]
        shorter[i]).importance.is_nan() by {
            assert(!facts[i].importance.is_nan());
        }
        law_ranking_is_stable(shorter, like);
        lemma_ranked_in_order(shorter);
        assert(!facts[facts.len() - 1].importance.is_nan());
        lemma_placed_is_stable(ranked(shorter), facts.last(), like);
        assert(ranked(shorter).push(facts.last()).drop_last() =~= ranked(shorter));
    }
}

proof fn lemma_ranked_of_ordered(facts: Seq<Fact>)
    requires
        in_order(facts),
    ensures
        ranked(facts) == facts,
    decreases facts.len(),
{
    if facts.len() > 0 {
        let shorter = facts.drop_last();
        assert forall|i: int, j: int|
            #![trigger shorter[i], shorter[j]]
            0 <= i < j < shorter.len() implies !outranks(shorter[j], shorter[i]) by {
            assert(!outranks(facts[j], facts[i]));
        }
        lemma_ranked_of_ordered(shorter);
        if shorter.len() > 0 {
            assert(shorter.last() == facts[facts.len() - 2]);
            assert(!outranks(facts[facts.len() - 1], facts[facts.len() - 2]));
        }
        assert(shorter.push(facts.last()) =~= facts);
    } else {
        assert(facts =~= seq![]);
    }
}

/// Keeping the highest-ranked facts a second time changes nothing.
pub proof fn law_trimming_is_idempotent(facts: Seq<Fact>)
    requires
        all_numbers(facts),
    ensures
        topmost(topmost(facts)) == topmost(facts),
{
    law_kept_facts_are_the_highest_ranked(facts);
    lemma_ranked_of_ordered(topmost(facts));
}

proof fn lemma_merged_one(stored: Seq<Fact>, fact: Fact)
    ensures
        exists|i: int|
            0 <= i < merged_one(stored, fact).len() && same_but_case(
                #[trigger] merged_one(stored, fact)[i].fact,
                fact.fact,
            ) && (merged_one(stored, fact)[i] == fact || !fact.importance.ge(
                merged_one(stored, fact)[i].importance,
            )),
        forall|i: int|
            0 <= i < merged_one(stored, fact).len() ==> #[trigger] merged_one(stored, fact)[i]
                == fact || stored.contains(merged_one(stored, fact)[i]),
        stored.len() <= merged_one(stored, fact).len() <= stored.len() + 1,
        forall|i: int|
            0 <= i < stored.len() ==> #[trigger] merged_one(stored, fact)[i] == stored[i] || (
            merged_one(stored, fact)[i] == fact && same_but_case(stored[i].fact, fact.fact)),
    decreases stored.len(),
{
    let r = merged_one(stored, fact);
    if stored.len() == 0 {
        assert(r[0] == fact);
        assert(same_but_case(r[0].fact, fact.fact));
    } else if same_but_case(stored[0].fact, fact.fact) {
        assert(same_but_case(r[0].fact, fact.fact));
        assert forall|i: int| 0 <= i < r.len() implies #[trigger] r[i] == fact || stored.contains(
            r[i],
        ) by {
            if r[i] != fact {
                assert(stored[i] == r[i]);
            }
        }
    } else {
        let rest = stored.drop_first();
        lemma_merged_one(rest, fact);
        let m = merged_one(rest, fact);
        let k = choose|i: int|
            0 <= i < m.len() && same_but_case(#[trigger] m[i].fact, fact.fact) && (m[i] == fact
                || !fact.importance.ge(m[i].importance));
        assert(r[k + 1] == m[k]);
        assert(same_but_case(r[k + 1].fact, fact.fact));
        assert forall|i: int| 0 <= i < r.len() implies #[trigger] r[i] == fact || stored.contains(
            r[i],
        ) by {
            if i == 0 {
                assert(stored[0] == r[0]);
            } else {
                assert(r[i] == m[i - 1]);
                if m[i - 1] != fact {
                    let q = choose|q: int| 0 <= q < rest.len() && rest[q] == m[i - 1];
                    assert(stored[q + 1] == r[i]);
                }
            }
        }
        assert forall|i: int| 0 <= i < stored.len() implies #[trigger] r[i] == stored[i] || (r[i]
            == fact && same_but_case(stored[i].fact, fact.fact)) by {
            if i > 0 {
                assert(r[i] == m[i - 1]);
                assert(stored[i] == rest[i - 1]);
            }
        }
    }
}

/// After a fact is merged in, a fact with its text is stored, case aside: the fact
/// itself, or one that it does not match in importance.
pub proof fn law_merged_fact_is_represented(stored: Seq<Fact>, fact: Fact)
    ensures
        exists|i: int|
            0 <= i < merged_one(stored, fact).len() && same_but_case(
                #[trigger] merged_one(stored, fact)[i].fact,
                fact.fact,
            ) && (merged_one(stored, fact)[i] == fact || !fact.importance.ge(
                merged_one(stored, fact)[i].importance,
            )),
{
    lemma_merged_one(stored, fact);
}

proof fn lemma_merged_one_distinct(stored: Seq<Fact>, fact: Fact)
    requires
        all_distinct(stored),
    ensures
        all_distinct(merged_one(stored, fact)),
    decreases stored.len(),
{
    let r = merged_one(stored, fact);
    if stored.len() > 0 {
        let rest = stored.drop_first();
        assert forall|i: int, j: int|
            #![trigger rest[i], rest[j]]
            0 <= i < j < rest.len() implies !same_but_case(rest[i].fact, rest[j].fact) by {
            assert(!same_but_case(stored[i + 1].fact, stored[j + 1].fact));
        }
        if same_but_case(stored[0].fact, fact.fact) {
            assert forall|i: int, j: int|
                #![trigger r[i], r[j]]
                0 <= i < j < r.len() implies !same_but_case(r[i].fact, r[j].fact) by {
                assert(r[j] == stored[j]);
                assert(!same_but_case(stored[i].fact, stored[j].fact));
                if i == 0 && r[0] == fact {
                    if same_but_case(fact.fact, stored[j].fact) {
                        assert(same_but_case(stored[0].fact, stored[j].fact));
                    }
                }
            }
        } else {
            lemma_merged_one_distinct(rest, fact);
            lemma_merged_one(rest, fact);
            let m = merged_one(rest, fact);
            assert forall|i: int, j: int|
                #![trigger r[i], r[j]]
                0 <= i < j < r.len() implies !same_but_case(r[i].fact, r[j].fact) by {
                assert(r[j] == m[j - 1]);
                if i == 0 {
                    if m[j - 1] != fact {
                        let q = choose|q: int| 0 <= q < rest.len() && rest[q] == m[j - 1];
                        assert(stored[q + 1] == r[j]);
                        assert(!same_but_case(stored[0].fact, stored[q + 1].fact));
                    }
                } else {
                    assert(r[i] == m[i - 1]);
                    assert(!same_but_case(m[i - 1].fact, m[j - 1].fact));
                }
            }
        }
    }
}

proof fn lemma_merged_all_distinct(stored: Seq<Fact>, incoming: Seq<Fact>)
    requires
        all_distinct(stored),
    ensures
        all_distinct(merged_all(stored, incoming)),
    decreases incoming.len(),
{
    if incoming.len() > 0 {
        lemma_merged_all_distinct(stored, incoming.drop_last());
        lemma_merged_one_distinct(merged_all(stored, incoming.drop_last()), incoming.last());
    }
}

proof fn lemma_unexpired_distinct(facts: Seq<Fact>, today: Option<i64>)
    requires
        all_distinct(facts),
    ensures
        all_distinct(unexpired(facts, today)),
    decreases facts.len(),
{
    reveal(Seq::filter);
    if facts.len() > 0 {
        let shorter = facts.drop_last();
        assert forall|i: int, j: int|
            #![trigger shorter[i], shorter[j]]
            0 <= i < j < shorter.len() implies !same_but_case(shorter[i].fact, shorter[j].fact) by {
            assert(!same_but_case(facts[i].fact, facts[j].fact));
        }
        lemma_unexpired_distinct(shorter, today);
        law_only_expired_facts_leave(shorter, today);
        let kept = unexpired(shorter, today);
        let r = unexpired(facts, today);
        assert forall|i: int, j: int|
            #![trigger r[i], r[j]]
            0 <= i < j < r.len() implies !same_but_case(r[i].fact, r[j].fact) by {
            if j < kept.len() {
                assert(!same_but_case(kept[i].fact, kept[j].fact));
            } else {
                assert(kept.contains(kept[i]));
                let q = choose|q: int| 0 <= q < shorter.len() && shorter[q] == kept[i];
                assert(!same_but_case(facts[q].fact, facts[facts.len() - 1].fact));
            }
        }
    }
}

proof fn lemma_placed_distinct(facts: Seq<Fact>, fact: Fact)
    requires
        all_distinct(facts),
        forall|i: int| 0 <= i < facts.len() ==> !same_but_case(#[trigger] facts[i].fact, fact.fact),
    ensures
        all_distinct(placed(facts, fact)),
    decreases facts.len(),
{
    let r = placed(facts, fact);
    if facts.len() > 0 && outranks(fact, facts.last()) {
        let shorter = facts.drop_last();
        assert forall|i: int, j: int|
            #![trigger shorter[i], shorter[j]]
            0 <= i < j < shorter.len() implies !same_but_case(shorter[i].fact, shorter[j].fact) by {
            assert(!same_but_case(facts[i].fact, facts[j].fact));
        }
        assert forall|i: int| 0 <= i < shorter.len() implies !same_but_case(
            #[trigger] shorter[i].fact,
            fact.fact,
        ) by {
            assert(!same_but_case(facts[i].fact, fact.fact));
        }
        lemma_placed_distinct(shorter, fact);
        let p = placed(shorter, fact);
        lemma_placed_members(shorter, fact);
        assert forall|i: int, j: int|
            #![trigger r[i], r[j]]
            0 <= i < j < r.len() implies !same_but_case(r[i].fact, r[j].fact) by {
            if j < p.len() {
                assert(!same_but_case(p[i].fact, p[j].fact));
            } else {
                broadcast use vstd::seq_lib::group_to_multiset_ensures;

                assert(p.contains(p[i]));
                assert(p.to_multiset().count(p[i]) > 0);
                assert(!same_but_case(facts[facts.len() - 1].fact, fact.fact));
                if p[i] != fact {
                    assert(shorter.to_multiset().count(p[i]) > 0);
                    assert(shorter.contains(p[i]));
                    let q = choose|q: int| 0 <= q < shorter.len() && shorter[q] == p[i];
                    assert(!same_but_case(facts[q].fact, facts[facts.len() - 1].fact));
                }
            }
        }
    } else {
        assert forall|i: int, j: int|
            #![trigger r[i], r[j]]
            0 <= i < j < r.len() implies !same_but_case(r[i].fact, r[j].fact) by {
            if j < facts.len() {
                assert(!same_but_case(facts[i].fact, facts[j].fact));
            } else {
                assert(!same_but_case(facts[i].fact, fact.fact));
            }
        }
    }
}

proof fn lemma_ranked_distinct(facts: Seq<Fact>)
    requires
        all_distinct(facts),
    ensures
        all_distinct(ranked(facts)),
    decreases facts.len(),
{
    if facts.len() > 0 {
        let shorter = facts.drop_last();
        assert forall|i: int, j: int|
            #![trigger shorter[i], shorter[j]]
            0 <= i < j < shorter.len() implies !same_but_case(shorter[i].fact, shorter[j].fact) by {
            assert(!same_but_case(facts[i].fact, facts[j].fact));
        }
        lemma_ranked_distinct(shorter);
        lemma_ranked_members(shorter);
        let r = ranked(shorter);
        assert forall|i: int| 0 <= i < r.len() implies !same_but_case(
            #[trigger] r[i].fact,
            facts.last().fact,
        ) by {
            let q = choose|q: int| 0 <= q < shorter.len() && shorter[q] == r[i];
            assert(!same_but_case(facts[q].fact, facts[facts.len() - 1].fact));
        }
        lemma_placed_distinct(r, facts.last());
    }
}

/// Merging keeps the texts of the stored facts apart, case aside, however often a text
/// comes in.
pub proof fn law_merging_keeps_facts_distinct(
    stored: Seq<Fact>,
    incoming: Seq<Fact>,
    today: Option<i64>,
)
    requires
        all_distinct(stored),
    ensures
        all_distinct(merged(stored, incoming, today)),
{
    lemma_unexpired_distinct(stored, today);
    let all = merged_all(unexpired(stored, today), incoming);
    lemma_merged_all_distinct(unexpired(stored, today), incoming);
    lemma_ranked_distinct(all);
    law_ranking_keeps_the_facts(all);
    let r = ranked(all);
    let t = topmost(all);
    assert forall|i: int, j: int|
        #![trigger t[i], t[j]]
        0 <= i < j < t.len() implies !same_but_case(t[i].fact, t[j].fact) by {
        assert(!same_but_case(r[i].fact, r[j].fact));
    }
}

/// A fact lasts through the last day that its expiry writes and has expired on every later
/// one; one whose expiry writes no day, nor that it is unknown, has expired already, and so
/// has every dated one where the day is not known.
pub proof fn law_facts_last_through_their_last_day(fact: Fact, day: i64)
    requires
        !same_but_case(trimmed(fact.expiry), "unknown"@),
    ensures
        match expiry_days(trimmed(fact.expiry)) {
            Some(last) => is_expired(fact, Some(day)) <==> day > last,
            None => is_expired(fact, Some(day)),
        },
        is_expired(fact, None),
{
}

/// Facts expire each for itself, and those that stay keep their order.
pub proof fn law_facts_expire_each_for_itself(
    facts: Seq<Fact>,
    more: Seq<Fact>,
    today: Option<i64>,
)
    ensures
        unexpired(facts + more, today) == unexpired(facts, today) + unexpired(more, today),
        more.len() == 1 ==> unexpired(more, today) == if is_expired(more[0], today) {
            seq![]
        } else {
            more
        },
    decreases more.len(),
{
    reveal(Seq::filter);
    if more.len() == 0 {
        assert(facts + more =~= facts);
        assert(unexpired(more, today) =~= seq![]);
        assert(unexpired(facts, today) + unexpired(more, today) =~= unexpired(facts, today));
    } else {
        law_facts_expire_each_for_itself(facts, more.drop_last(), today);
        assert((facts + more).drop_last() =~= facts + more.drop_last());
        assert(unexpired(facts + more, today) =~= unexpired(facts, today) + unexpired(more, today));
        if more.len() == 1 {
            assert(more.drop_last() =~= seq![]);
            assert(unexpired(more.drop_last(), today) =~= seq![]);
            assert(unexpired(more, today) =~= if is_expired(more[0], today) {
                seq![]
            } else {
                more
            });
        }
    }
}

/// Of two facts with numbers for their importance the more important one stands first, and
/// of two equally important ones the one whose text comes first.
pub proof fn law_importance_ranks_before_text(a: Fact, b: Fact)
    requires
        !a.importance.is_nan(),
        !b.importance.is_nan(),
    ensures
        a.importance.rank() > b.importance.rank() ==> outranks(a, b) && !outranks(b, a),
        a.importance.rank() == b.importance.rank() ==> (outranks(a, b) <==> text_before(
            a.fact,
            b.fact,
        )),
{
}

/// A fact with a text that is not stored, case aside, is added behind the stored ones.
pub proof fn law_new_facts_are_added(stored: Seq<Fact>, fact: Fact)
    requires
        forall|i: int|
            0 <= i < stored.len() ==> !same_but_case(#[trigger] stored[i].fact, fact.fact),
    ensures
        merged_one(stored, fact) == stored.push(fact),
    decreases stored.len(),
{
    if stored.len() == 0 {
        assert(seq![fact] =~= stored.push(fact));
    } else {
        let rest = stored.drop_first();
        assert forall|i: int| 0 <= i < rest.len() implies !same_but_case(
            #[trigger] rest[i].fact,
            fact.fact,
        ) by {
            assert(rest[i] == stored[i + 1]);
        }
        law_new_facts_are_added(rest, fact);
        assert(!same_but_case(stored[0].fact, fact.fact));
        assert(seq![stored[0]] + rest.push(fact) =~= stored.push(fact));
    }
}

/// A fact whose text is stored takes the place of the first that has it, case aside, if it
/// is at least as important, and else is dropped; all others stay as they are.
pub proof fn law_known_facts_are_replaced(stored: Seq<Fact>, fact: Fact, i: int)
    requires
        0 <= i < stored.len(),
        same_but_case(stored[i].fact, fact.fact),
        forall|j: int| 0 <= j < i ==> !same_but_case(#[trigger] stored[j].fact, fact.fact),
    ensures
        fact.importance.ge(stored[i].importance) ==> merged_one(stored, fact) == stored.update(
            i,
            fact,
        ),
        !fact.importance.ge(stored[i].importance) ==> merged_one(stored, fact) == stored,
    decreases stored.len(),
{
    let rest = stored.drop_first();
    if i == 0 {
        assert(seq![fact] + rest =~= stored.update(0, fact));
    } else {
        assert(!same_but_case(stored[0].fact, fact.fact));
        assert(rest[i - 1] == stored[i]);
        assert forall|j: int| 0 <= j < i - 1 implies !same_but_case(
            #[trigger] rest[j].fact,
            fact.fact,
        ) by {
            assert(rest[j] == stored[j + 1]);
        }
        law_known_facts_are_replaced(rest, fact, i - 1);
        assert(seq![stored[0]] + rest.update(i - 1, fact) =~= stored.update(i, fact));
        assert(seq![stored[0]] + rest =~= stored);
    }
}

/// Facts that come in are merged in one after the other.
pub proof fn law_facts_are_merged_in_one_by_one(
    stored: Seq<Fact>,
    first: Seq<Fact>,
    later: Seq<Fact>,
)
    ensures
        merged_all(stored, first + later) == merged_all(merged_all(stored, first), later),
        later.len() == 1 ==> merged_all(stored, later) == merged_one(stored, later[0]),
        merged_all(stored, seq![]) == stored,
    decreases later.len(),
{
    if later.len() == 0 {
        assert(first + later =~= first);
    } else {
        law_facts_are_merged_in_one_by_one(stored, first, later.drop_last());
        assert((first + later).drop_last() =~= first + later.drop_last());
        if later.len() == 1 {
            assert(later.drop_last() =~= seq![]);
            assert(merged_all(stored, later.drop_last()) == stored);
        }
    }
}

proof fn lemma_texts_stay(stored: Seq<Fact>, incoming: Seq<Fact>, text: Seq<char>)
    requires
        (exists|i: int| 0 <= i < stored.len() && same_but_case(#[trigger] stored[i].fact, text))
            || (exists|i: int|
            0 <= i < incoming.len() && same_but_case(#[trigger] incoming[i].fact, text)),
    ensures
        exists|i: int|
            0 <= i < merged_all(stored, incoming).len() && same_but_case(
                #[trigger] merged_all(stored, incoming)[i].fact,
                text,
            ),
    decreases incoming.len(),
{
    if incoming.len() > 0 {
        let before = incoming.drop_last();
        let held = merged_all(stored, before);
        let fact = incoming.last();
        let after = merged_all(stored, incoming);
        lemma_merged_one(held, fact);
        let earlier = (exists|i: int|
            0 <= i < stored.len() && same_but_case(#[trigger] stored[i].fact, text)) || (exists|
            i: int,
        |
            0 <= i < before.len() && same_but_case(#[trigger] before[i].fact, text));
        if earlier {
            lemma_texts_stay(stored, before, text);
            let i = choose|i: int|
                0 <= i < held.len() && same_but_case(#[trigger] held[i].fact, text);
            assert(after[i] == held[i] || (after[i] == fact && same_but_case(
                held[i].fact,
                fact.fact,
            )));
            lemma_same_but_case(after[i].fact, held[i].fact, text);
            assert(same_but_case(after[i].fact, text));
        } else {
            let i = choose|i: int|
                0 <= i < incoming.len() && same_but_case(#[trigger] incoming[i].fact, text);
            assert(i == incoming.len() - 1) by {
                if i < before.len() {
                    assert(before[i] == incoming[i]);
                }
            }
            let j = choose|j: int|
                0 <= j < after.len() && same_but_case(#[trigger] after[j].fact, fact.fact);
            lemma_same_but_case(after[j].fact, fact.fact, text);
            assert(same_but_case(after[j].fact, text));
        }
    } else {
        let i = choose|i: int|
            0 <= i < stored.len() && same_but_case(#[trigger] stored[i].fact, text);
        assert(merged_all(stored, incoming) == stored);
        assert(same_but_case(merged_all(stored, incoming)[i].fact, text));
    }
}

proof fn lemma_same_but_case(a: Seq<char>, b: Seq<char>, c: Seq<char>)
    ensures
        same_but_case(a, b) && same_but_case(b, c) ==> same_but_case(a, c),
        same_but_case(b, a) && same_but_case(b, c) ==> same_but_case(a, c),
        a == b && same_but_case(b, c) ==> same_but_case(a, c),
{
}

proof fn lemma_merged_all_members(stored: Seq<Fact>, incoming: Seq<Fact>)
    ensures
        forall|i: int|
            0 <= i < merged_all(stored, incoming).len() ==> stored.contains(
                #[trigger] merged_all(stored, incoming)[i],
            ) || incoming.contains(merged_all(stored, incoming)[i]),
        stored.len() <= merged_all(stored, incoming).len() <= stored.len() + incoming.len(),
    decreases incoming.len(),
{
    let after = merged_all(stored, incoming);
    if incoming.len() == 0 {
        assert forall|i: int| 0 <= i < after.len() implies stored.contains(
            #[trigger] after[i],
        ) by {}
    } else {
        let before = incoming.drop_last();
        lemma_merged_all_members(stored, before);
        let held = merged_all(stored, before);
        lemma_merged_one(held, incoming.last());
        assert forall|i: int| 0 <= i < after.len() implies stored.contains(#[trigger] after[i])
            || incoming.contains(after[i]) by {
            if after[i] == incoming.last() {
                assert(incoming[incoming.len() - 1] == after[i]);
            } else {
                let j = choose|j: int| 0 <= j < held.len() && held[j] == after[i];
                if before.contains(held[j]) {
                    let k = choose|k: int| 0 <= k < before.len() && before[k] == held[j];
                    assert(incoming[k] == after[i]);
                }
            }
        }
    }
}

/// What is stored after a merge is what was stored and had not expired, or came in; nothing
/// is made up, and no more than the limit is kept.
pub proof fn law_merging_makes_nothing_up(
    stored: Seq<Fact>,
    incoming: Seq<Fact>,
    today: Option<i64>,
)
    ensures
        merged(stored, incoming, today).len() <= MAX_FACTS,
        forall|fact: Fact| #[trigger]
            merged(stored, incoming, today).contains(fact) ==> incoming.contains(fact) || (
            stored.contains(fact) && !is_expired(fact, today)),
{
    let alive = unexpired(stored, today);
    let all = merged_all(alive, incoming);
    law_only_expired_facts_leave(stored, today);
    lemma_merged_all_members(alive, incoming);
    lemma_ranked_members(all);
    assert forall|fact: Fact| #[trigger] merged(stored, incoming, today).contains(
        fact,
    ) implies incoming.contains(fact) || (stored.contains(fact) && !is_expired(fact, today)) by {
        let kept = merged(stored, incoming, today);
        let i = choose|i: int| 0 <= i < kept.len() && kept[i] == fact;
        assert(kept[i] == ranked(all)[i]);
        assert(all.contains(fact));
        let j = choose|j: int| 0 <= j < all.len() && all[j] == fact;
        assert(alive.contains(all[j]) || incoming.contains(all[j]));
        assert(alive.contains(fact) ==> unexpired(stored, today).contains(fact));
    }
}

/// While no more facts come together than are kept, a merge loses no text: of each fact
/// that came in, and of each that was stored and has not expired, the text is still stored,
/// case aside.
pub proof fn law_merging_within_the_limit_loses_no_text(
    stored: Seq<Fact>,
    incoming: Seq<Fact>,
    today: Option<i64>,
    fact: Fact,
)
    requires
        unexpired(stored, today).len() + incoming.len() <= MAX_FACTS,
        incoming.contains(fact) || (stored.contains(fact) && !is_expired(fact, today)),
    ensures
        exists|i: int|
            0 <= i < merged(stored, incoming, today).len() && same_but_case(
                #[trigger] merged(stored, incoming, today)[i].fact,
                fact.fact,
            ),
{
    let alive = unexpired(stored, today);
    let all = merged_all(alive, incoming);
    let kept = merged(stored, incoming, today);
    law_only_expired_facts_leave(stored, today);
    if incoming.contains(fact) {
        let i = choose|i: int| 0 <= i < incoming.len() && incoming[i] == fact;
        assert(same_but_case(incoming[i].fact, fact.fact));
    } else {
        assert(alive.contains(fact));
        let i = choose|i: int| 0 <= i < alive.len() && alive[i] == fact;
        assert(same_but_case(alive[i].fact, fact.fact));
    }
    lemma_texts_stay(alive, incoming, fact.fact);
    lemma_merged_all_members(alive, incoming);
    let i = choose|i: int| 0 <= i < all.len() && same_but_case(#[trigger] all[i].fact, fact.fact);
    law_ranking_keeps_the_facts(all);
    lemma_same_members(ranked(all), all);
    assert(all.contains(all[i]));
    assert(kept == ranked(all));
    assert(kept.contains(all[i]));
    let j = choose|j: int| 0 <= j < kept.len() && kept[j] == all[i];
    assert(same_but_case(kept[j].fact, fact.fact));
}

/// Facts with texts of their own that come in while none are stored are all stored, each
/// as it is, while they are no more than the limit.
pub proof fn law_first_facts_are_stored_as_they_are(incoming: Seq<Fact>, today: Option<i64>)
    requires
        all_distinct(incoming),
        incoming.len() <= MAX_FACTS,
    ensures
        merged(seq![], incoming, today).to_multiset() == incoming.to_multiset(),
{
    reveal(Seq::filter);
    assert(unexpired(seq![], today) =~= seq![]);
    lemma_merged_into_none(incoming);
    law_ranking_keeps_the_facts(incoming);
}

proof fn lemma_merged_into_none(incoming: Seq<Fact>)
    requires
        all_distinct(incoming),
    ensures
        merged_all(seq![], incoming) == incoming,
    decreases incoming.len(),
{
    if incoming.len() == 0 {
        assert(incoming =~= seq![]);
    } else {
        let before = incoming.drop_last();
        assert forall|i: int, j: int|
            #![trigger before[i], before[j]]
            0 <= i < j < before.len() implies !same_but_case(before[i].fact, before[j].fact) by {
            assert(before[i] == incoming[i] && before[j] == incoming[j]);
        }
        lemma_merged_into_none(before);
        assert forall|i: int| 0 <= i < before.len() implies !same_but_case(
            #[trigger] before[i].fact,
            incoming.last().fact,
        ) by {
            assert(before[i] == incoming[i]);
            assert(!same_but_case(incoming[i].fact, incoming[incoming.len() - 1].fact));
        }
        law_new_facts_are_added(before, incoming.last());
        assert(before.push(incoming.last()) =~= incoming);
    }
}

/// A merge adds no more facts than come in.
pub proof fn law_merging_adds_no_more_than_came_in(
    stored: Seq<Fact>,
    incoming: Seq<Fact>,
    today: Option<i64>,
)
    ensures
        merged(stored, incoming, today).len() <= unexpired(stored, today).len() + incoming.len(),
{
    lemma_merged_all_members(unexpired(stored, today), incoming);
    law_ranking_keeps_the_facts(merged_all(unexpired(stored, today), incoming));
}

} // verus!
