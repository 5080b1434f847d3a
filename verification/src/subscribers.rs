//! The connections subscribed to an entity's or a chunk's updates. A new
//! subscriber is sent the current state once; a connection that is already
//! subscribed is not added again.

use vstd::prelude::*;

verus! {

/// Subscribes `connection`. Returns `true` when it was not subscribed yet:
/// it is then appended, and the caller sends it the current state. A
/// connection already subscribed leaves the list as it was.
pub fn subscribe(subscribers: &mut Vec<usize>, connection: usize) -> (added: bool)
    ensures
        added == !old(subscribers)@.contains(connection),
        final(subscribers)@ == (if added { old(subscribers)@.push(connection) } else { old(subscribers)@ }),
{
    let mut i: usize = 0;
    while i < subscribers.len()
        invariant
            i <= subscribers@.len(),
            forall|j: int| 0 <= j < i ==> subscribers@[j] != connection,
        decreases subscribers.len() - i,
    {
        if subscribers[i] == connection {
            return false;
        }
        i = i + 1;
    }
    subscribers.push(connection);
    true
}

/// The entity to subscribe to does not exist, or keeps no subscribers.
#[derive(Debug, Clone, Copy, PartialEq, Eq)]
pub struct NoSuchEntity;

/// Subscribes `connection` to an entity whose subscriber list is
/// `subscribers` (`None` when the entity is missing or keeps no list). A
/// missing list is `NoSuchEntity` and nothing changes; otherwise as
/// [`subscribe`]: `Ok(true)` when the connection was added and is to be sent
/// the entity's state, `Ok(false)` when it was already subscribed.
pub fn subscribe_entity(subscribers: &mut Option<Vec<usize>>, connection: usize) -> (result: Result<bool, NoSuchEntity>)
    ensures
        match *old(subscribers) {
            None => result == Err::<bool, NoSuchEntity>(NoSuchEntity) && *final(subscribers) == *old(subscribers),
            Some(list) => {
                let added = !list@.contains(connection);
                &&& result == Ok::<bool, NoSuchEntity>(added)
                &&& *final(subscribers) matches Some(updated)
                &&& updated@ == (if added { list@.push(connection) } else { list@ })
            },
        },
{
    match subscribers.take() {
        None => Err(NoSuchEntity),
        Some(mut list) => {
            let added = subscribe(&mut list, connection);
            *subscribers = Some(list);
            Ok(added)
        },
    }
}

/// Unsubscribes `connection`: every occurrence of it leaves the list, and
/// the others keep their order.
pub fn unsubscribe(subscribers: &mut Vec<usize>, connection: usize)
    ensures
        final(subscribers)@ == old(subscribers)@.filter(|other: usize| other != connection),
{
    let ghost original = subscribers@;
    let mut kept: Vec<usize> = Vec::new();
    let mut i: usize = 0;
    while i < subscribers.len()
        invariant
            subscribers@ == original,
            i <= original.len(),
            kept@ == original.take(i as int).filter(|other: usize| other != connection),
        decreases subscribers.len() - i,
    {
        proof {
            assert(original.take(i + 1).drop_last() == original.take(i as int));
            reveal(Seq::filter);
        }
        if subscribers[i] != connection {
            kept.push(subscribers[i]);
        }
        i = i + 1;
    }
    assert(original.take(original.len() as int) == original);
    *subscribers = kept;
}

/// Subscribing and then unsubscribing a connection that was not subscribed
/// gives back the list as it was.
pub proof fn lemma_subscribe_unsubscribe(subscribers: Seq<usize>, connection: usize)
    requires
        !subscribers.contains(connection),
    ensures
        subscribers.push(connection).filter(|other: usize| other != connection) == subscribers,
{
    let keep = |other: usize| other != connection;
    subscribers.lemma_filter_push(connection, keep);
    lemma_filter_keeps_all(subscribers, connection);
}

proof fn lemma_filter_keeps_all(s: Seq<usize>, connection: usize)
    requires
        !s.contains(connection),
    ensures
        s.filter(|other: usize| other != connection) == s,
    decreases s.len(),
{
    reveal(Seq::filter);
    if s.len() > 0 {
        assert(!s.drop_last().contains(connection)) by {
            if s.drop_last().contains(connection) {
                let j = choose|j: int| 0 <= j < s.drop_last().len() && s.drop_last()[j] == connection;
                assert(s[j] == connection);
            }
        }
        lemma_filter_keeps_all(s.drop_last(), connection);
        assert(s.drop_last().push(s.last()) == s);
    }
}

/// After unsubscribing, the connection is no longer subscribed, and a later
/// subscription adds it again.
pub proof fn lemma_unsubscribed_is_absent(subscribers: Seq<usize>, connection: usize)
    ensures
        !subscribers.filter(|other: usize| other != connection).contains(connection),
{
    let keep = |other: usize| other != connection;
    let kept = subscribers.filter(keep);
    if kept.contains(connection) {
        let j = choose|j: int| 0 <= j < kept.len() && kept[j] == connection;
        subscribers.lemma_filter_pred(keep, j);
    }
}

} // verus!
