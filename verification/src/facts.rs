//! Durable facts: when they expire, how they are ranked, and how new ones are merged
//! into stored ones.

use crate::calendar::{current_utc_days_since_epoch, day_at, expiry_days, parse_expiry_days};
use crate::text::{
    comes_before, eq_ignore_ascii_case, same_but_case, text_before, trim, trimmed,
};
use crate::types::{Fact, LlmConversationFact};
use vstd::prelude::*;

verus! {

/// How many facts are kept.
pub const MAX_FACTS: usize = 24;

/// Whether a fact has expired on a day. One whose expiry is unknown never does, and
/// one whose expiry is no date always has.
pub open spec fn is_expired(fact: Fact, today: Option<i64>) -> bool {
    let expiry = trimmed(fact.expiry);
    if same_but_case(expiry, "unknown"@) {
        false
    } else {
        match (expiry_days(expiry), today) {
            (Some(last), Some(day)) => last < day,
            _ => true,
        }
    }
}

/// Whether a fact has expired on a day.
pub fn fact_is_expired_on(fact: &LlmConversationFact, today: Option<i64>) -> (r: bool)
    ensures
        r == is_expired(fact.deep_view(), today),
{
    let expiry = trim(fact.expiry.as_str());
    if eq_ignore_ascii_case(expiry, "unknown") {
        return false;
    }
    match parse_expiry_days(expiry) {
        Some(last) => match today {
            Some(day) => last < day,
            None => true,
        },
        None => true,
    }
}

/// Whether a fact has expired by now.
pub fn fact_is_expired(fact: &LlmConversationFact) -> (r: bool)
    ensures
        exists|now: std::time::SystemTime| #[trigger]
            call_ensures(std::time::SystemTime::now, (), now) && r == is_expired(
                fact.deep_view(),
                day_at(now),
            ),
{
    let today = current_utc_days_since_epoch();
    fact_is_expired_on(fact, today)
}

/// The facts that have not expired on a day.
pub open spec fn unexpired(facts: Seq<Fact>, today: Option<i64>) -> Seq<Fact> {
    facts.filter(|fact: Fact| !is_expired(fact, today))
}

/// Drops the facts that have expired on a day.
pub fn prune_expired_facts_on(facts: &mut Vec<LlmConversationFact>, today: Option<i64>)
    ensures
        final(facts).deep_view() == unexpired(old(facts).deep_view(), today),
{
    let ghost all = facts.deep_view();
    let ghost alive = |fact: Fact| !is_expired(fact, today);
    let ghost mut read: int = 0;
    let mut i: usize = 0;
    proof {
        reveal(Seq::filter);
        assert(all.take(0) =~= seq![]);
        assert(facts.deep_view() =~= all.take(0).filter(alive) + all.skip(0));
    }
    while i < facts.len()
        invariant
            alive == (|fact: Fact| !is_expired(fact, today)),
            0 <= read <= all.len(),
            i == all.take(read).filter(alive).len(),
            facts.deep_view() == all.take(read).filter(alive) + all.skip(read),
        decreases facts.len() - i,
    {
        let ghost kept = all.take(read).filter(alive);
        assert(facts.deep_view()[i as int] == all[read]);
        assert(facts@[i as int].deep_view() == all[read]);
        proof {
            reveal(Seq::filter);
            assert(all.take(read + 1).drop_last() =~= all.take(read));
            assert(all.take(read + 1).last() == all[read]);
        }
        if fact_is_expired_on(&facts[i], today) {
            let ghost before = facts.deep_view();
            facts.remove(i);
            assert(facts.deep_view() =~= before.remove(i as int));
            assert(facts.deep_view() =~= kept + all.skip(read + 1));
        } else {
            assert(facts.deep_view() =~= kept.push(all[read]) + all.skip(read + 1));
            i = i + 1;
        }
        proof {
            read = read + 1;
        }
    }
    assert(facts.deep_view().len() == i + all.skip(read).len());
    assert(all.take(all.len() as int) =~= all);
    assert(facts.deep_view() =~= all.filter(alive));
}

/// Drops the facts that have expired by now.
pub fn prune_expired_facts(facts: &mut Vec<LlmConversationFact>)
    ensures
        exists|now: std::time::SystemTime| #[trigger]
            call_ensures(std::time::SystemTime::now, (), now) && final(facts).deep_view()
                == unexpired(old(facts).deep_view(), day_at(now)),
{
    let today = current_utc_days_since_epoch();
    prune_expired_facts_on(facts, today);
}

/// Whether a fact stands before another: the more important one does, and of two that
/// are equally important the one whose text comes first.
pub open spec fn outranks(a: Fact, b: Fact) -> bool {
    ||| a.importance.gt(b.importance)
    ||| a.importance.ties(b.importance) && text_before(a.fact, b.fact)
}

fn fact_outranks(a: &LlmConversationFact, b: &LlmConversationFact) -> (r: bool)
    ensures
        r == outranks(a.deep_view(), b.deep_view()),
{
    if a.importance.exceeds(b.importance) {
        true
    } else if b.importance.exceeds(a.importance) {
        false
    } else {
        comes_before(a.fact.as_str(), b.fact.as_str())
    }
}

/// The facts with one more among them, behind the last that it does not outrank.
pub open spec fn placed(facts: Seq<Fact>, fact: Fact) -> Seq<Fact>
    decreases facts.len(),
{
    if facts.len() > 0 && outranks(fact, facts.last()) {
        placed(facts.drop_last(), fact).push(facts.last())
    } else {
        facts.push(fact)
    }
}

/// The facts in the order of their rank; equal ones keep the order they had.
pub open spec fn ranked(facts: Seq<Fact>) -> Seq<Fact>
    decreases facts.len(),
{
    if facts.len() == 0 {
        seq![]
    } else {
        placed(ranked(facts.drop_last()), facts.last())
    }
}

/// The highest-ranked facts, as many as are kept.
pub open spec fn topmost(facts: Seq<Fact>) -> Seq<Fact> {
    if facts.len() > MAX_FACTS {
        ranked(facts).take(MAX_FACTS as int)
    } else {
        ranked(facts)
    }
}

proof fn lemma_placed_at(facts: Seq<Fact>, fact: Fact, j: int)
    requires
        0 <= j <= facts.len(),
        forall|k: int| j <= k < facts.len() ==> outranks(fact, #[trigger] facts[k]),
        j > 0 ==> !outranks(fact, facts[j - 1]),
    ensures
        placed(facts, fact) == facts.insert(j, fact),
    decreases facts.len(),
{
    if facts.len() > j {
        let shorter = facts.drop_last();
        lemma_placed_at(shorter, fact, j);
        assert(facts.insert(j, fact) =~= shorter.insert(j, fact).push(facts.last()));
    } else {
        assert(facts.insert(j, fact) =~= facts.push(fact));
    }
}

proof fn lemma_placed_len(facts: Seq<Fact>, fact: Fact)
    ensures
        placed(facts, fact).len() == facts.len() + 1,
    decreases facts.len(),
{
    if facts.len() > 0 {
        lemma_placed_len(facts.drop_last(), fact);
    }
}

proof fn lemma_ranked_len(facts: Seq<Fact>)
    ensures
        ranked(facts).len() == facts.len(),
    decreases facts.len(),
{
    if facts.len() > 0 {
        lemma_ranked_len(facts.drop_last());
        lemma_placed_len(ranked(facts.drop_last()), facts.last());
    }
}

/// Ranks the facts and keeps the highest-ranked ones.
pub fn trim_facts(facts: &mut Vec<LlmConversationFact>)
    ensures
        final(facts).deep_view() == topmost(old(facts).deep_view()),
{
    let ghost all = facts.deep_view();
    let mut i: usize = 0;
    assert(all.take(0) =~= seq![]);
    assert(facts.deep_view() =~= ranked(all.take(0)) + all.skip(0));
    while i < facts.len()
        invariant
            i <= all.len() == facts.len(),
            facts.deep_view() == ranked(all.take(i as int)) + all.skip(i as int),
        decreases all.len() - i,
    {
        let ghost front = ranked(all.take(i as int));
        let ghost whole = facts.deep_view();
        proof {
            lemma_ranked_len(all.take(i as int));
            assert(all.take(i + 1).drop_last() =~= all.take(i as int));
            assert(all.take(i + 1).last() == all[i as int]);
            assert(whole[i as int] == all[i as int]);
        }
        let fact = facts.remove(i);
        assert(facts.deep_view() =~= whole.remove(i as int));
        assert(fact.deep_view() == all[i as int]);
        assert(facts.deep_view() =~= front + all.skip(i + 1));
        let mut j: usize = i;
        while j > 0 && fact_outranks(&fact, &facts[j - 1])
            invariant
                j <= i < all.len() == facts.len() + 1,
                front.len() == i,
                fact.deep_view() == all[i as int],
                facts.deep_view() == front + all.skip(i + 1),
                forall|k: int| j <= k < i ==> outranks(all[i as int], #[trigger] front[k]),
            decreases j,
        {
            assert(facts.deep_view()[j - 1] == front[j - 1]);
            j = j - 1;
        }
        proof {
            if j > 0 {
                assert(facts.deep_view()[j - 1] == front[j - 1]);
            }
            lemma_placed_at(front, all[i as int], j as int);
        }
        let ghost rest = facts.deep_view();
        facts.insert(j, fact);
        assert(facts.deep_view() =~= rest.insert(j as int, all[i as int]));
        assert(facts.deep_view() =~= front.insert(j as int, all[i as int]) + all.skip(i + 1));
        i = i + 1;
    }
    assert(all.take(all.len() as int) =~= all);
    assert(facts.deep_view() =~= ranked(all));
    if facts.len() > MAX_FACTS {
        facts.truncate(MAX_FACTS);
        assert(facts.deep_view() =~= ranked(all).take(MAX_FACTS as int));
    }
}

/// The stored facts with one more merged in: it replaces the first stored fact with the
/// same text, case aside, if it is at least as important, and is added if there is none.
pub open spec fn merged_one(stored: Seq<Fact>, fact: Fact) -> Seq<Fact>
    decreases stored.len(),
{
    if stored.len() == 0 {
        seq![fact]
    } else if same_but_case(stored[0].fact, fact.fact) {
        if fact.importance.ge(stored[0].importance) {
            seq![fact] + stored.drop_first()
        } else {
            stored
        }
    } else {
        seq![stored[0]] + merged_one(stored.drop_first(), fact)
    }
}

/// The stored facts with all the incoming ones merged in, in order.
pub open spec fn merged_all(stored: Seq<Fact>, incoming: Seq<Fact>) -> Seq<Fact>
    decreases incoming.len(),
{
    if incoming.len() == 0 {
        stored
    } else {
        merged_one(merged_all(stored, incoming.drop_last()), incoming.last())
    }
}

/// The facts that are stored after a merge: the stored ones that have not expired, with
/// the incoming ones merged in, and of those the highest-ranked.
pub open spec fn merged(stored: Seq<Fact>, incoming: Seq<Fact>, today: Option<i64>) -> Seq<Fact> {
    topmost(merged_all(unexpired(stored, today), incoming))
}

fn merge_fact(stored: &mut Vec<LlmConversationFact>, fact: LlmConversationFact)
    ensures
        final(stored).deep_view() == merged_one(old(stored).deep_view(), fact.deep_view()),
{
    let ghost all = stored.deep_view();
    let ghost new = fact.deep_view();
    let mut i: usize = 0;
    assert(all.take(0) + merged_one(all.skip(0), new) =~= merged_one(all, new)) by {
        assert(all.skip(0) =~= all);
    }
    while i < stored.len()
        invariant
            i <= stored.len(),
            stored.deep_view() == all,
            all == old(stored).deep_view(),
            new == fact.deep_view(),
            merged_one(all, new) == all.take(i as int) + merged_one(all.skip(i as int), new),
        decreases stored.len() - i,
    {
        let ghost rest = all.skip(i as int);
        assert(rest[0] == all[i as int]);
        assert(all[i as int] == stored@[i as int].deep_view());
        if eq_ignore_ascii_case(stored[i].fact.as_str(), fact.fact.as_str()) {
            if fact.importance.at_least(stored[i].importance) {
                stored.set(i, fact);
                assert(stored.deep_view() =~= all.update(i as int, new));
                assert(stored.deep_view() =~= all.take(i as int) + (seq![new] + rest.drop_first()));
            } else {
                assert(all =~= all.take(i as int) + rest);
            }
            return;
        }
        assert(rest.drop_first() =~= all.skip(i + 1));
        assert(all.take(i as int) + (seq![rest[0]] + merged_one(all.skip(i + 1), new)) =~= all.take(
            i + 1,
        ) + merged_one(all.skip(i + 1), new));
        i = i + 1;
    }
    assert(all.skip(all.len() as int) =~= seq![]);
    stored.push(fact);
    assert(stored.deep_view() =~= all.push(new));
    assert(all.push(new) =~= all.take(all.len() as int) + seq![new]);
}

/// Merges facts into stored ones on a day.
pub fn merge_conversation_facts_on(
    stored_facts: &mut Vec<LlmConversationFact>,
    incoming_facts: Vec<LlmConversationFact>,
    today: Option<i64>,
)
    ensures
        final(stored_facts).deep_view() == merged(
            old(stored_facts).deep_view(),
            incoming_facts.deep_view(),
            today,
        ),
{
    prune_expired_facts_on(stored_facts, today);
    let ghost alive = stored_facts.deep_view();
    let ghost incoming = incoming_facts.deep_view();
    let mut i: usize = 0;
    assert(incoming.take(0) =~= seq![]);
    while i < incoming_facts.len()
        invariant
            i <= incoming_facts.len(),
            incoming == incoming_facts.deep_view(),
            stored_facts.deep_view() == merged_all(alive, incoming.take(i as int)),
        decreases incoming_facts.len() - i,
    {
        assert(incoming.take(i + 1).drop_last() =~= incoming.take(i as int));
        merge_fact(stored_facts, incoming_facts[i].clone());
        i = i + 1;
    }
    assert(incoming.take(incoming.len() as int) =~= incoming);
    trim_facts(stored_facts);
}

/// Merges facts into stored ones. The stored facts that have expired by now are dropped,
/// an incoming fact replaces a stored one with the same text, case aside, if it is at
/// least as important, and the highest-ranked facts are kept.
pub fn merge_conversation_facts(
    stored_facts: &mut Vec<LlmConversationFact>,
    incoming_facts: Vec<LlmConversationFact>,
)
    ensures
        exists|now: std::time::SystemTime| #[trigger]
            call_ensures(std::time::SystemTime::now, (), now) && final(stored_facts).deep_view()
                == merged(old(stored_facts).deep_view(), incoming_facts.deep_view(), day_at(now)),
{
    let today = current_utc_days_since_epoch();
    merge_conversation_facts_on(stored_facts, incoming_facts, today);
}

} // verus!
