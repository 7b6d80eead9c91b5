//! The open push connections of a preview server, by connection id.
use tokio::sync::mpsc::UnboundedSender;
use vstd::prelude::*;

verus! {

#[verifier::external_type_specification]
#[verifier::external_body]
#[verifier::reject_recursive_types(T)]
pub struct ExUnboundedSender<T>(UnboundedSender<T>);

/// Relies on tokio's `UnboundedSender::send`: it queues the message without
/// waiting, and fails only when the receiving side is gone, which this library
/// cannot see; so nothing is stated of the outcome.
#[verifier::external_body]
fn send_text(channel: &UnboundedSender<String>, message: String) -> bool {
    channel.send(message).is_ok()
}

/// The ids of a sequence of registry entries.
pub open spec fn entry_ids(entries: Seq<(u64, UnboundedSender<String>)>) -> Seq<u64> {
    entries.map_values(|e: (u64, UnboundedSender<String>)| e.0)
}

/// The ids of a sequence of delivery outcomes.
pub open spec fn outcome_ids(outcomes: Seq<(u64, bool)>) -> Seq<u64> {
    outcomes.map_values(|d: (u64, bool)| d.0)
}

/// Whether an entry's id is not `id`.
pub open spec fn other_than(id: u64) -> spec_fn((u64, UnboundedSender<String>)) -> bool {
    |e: (u64, UnboundedSender<String>)| e.0 != id
}

/// The registry of push connections: each has an id, given out in ascending
/// order and never reused, and the sending side of its outbound channel.
pub struct Registry {
    next_id: u64,
    entries: Vec<(u64, UnboundedSender<String>)>,
}

impl Registry {
    /// Ids ascend in the order of registration and stay below the next id.
    #[verifier::type_invariant]
    spec fn well_formed(&self) -> bool {
        &&& 1 <= self.next_id
        &&& forall|i: int, j: int|
            0 <= i < j < self.entries@.len() ==> #[trigger] self.entries@[i].0
                < #[trigger] self.entries@[j].0
        &&& forall|i: int|
            0 <= i < self.entries@.len() ==> #[trigger] self.entries@[i].0 < self.next_id
    }

    /// The registered connections, oldest first: each id with the sending
    /// side of its channel.
    pub closed spec fn entries(&self) -> Seq<(u64, UnboundedSender<String>)> {
        self.entries@
    }

    /// The ids of the registered connections, oldest first.
    pub open spec fn ids(&self) -> Seq<u64> {
        entry_ids(self.entries())
    }

    /// The id that the next registration gets.
    pub closed spec fn next_id(&self) -> u64 {
        self.next_id
    }

    /// `after` is `before` with one more connection, the channel `channel`
    /// under the id `id`; the other entries are unchanged.
    pub open spec fn registers(
        before: Registry,
        after: Registry,
        id: u64,
        channel: UnboundedSender<String>,
    ) -> bool {
        &&& id == before.next_id()
        &&& after.entries() == before.entries().push((id, channel))
        &&& after.next_id() == id + 1
    }

    /// `after` is `before` without the connection of id `id`, if it had one;
    /// the other entries are unchanged and keep their order.
    pub open spec fn unregisters(before: Registry, after: Registry, id: u64) -> bool {
        &&& after.entries() == before.entries().filter(other_than(id))
        &&& after.next_id() == before.next_id()
    }

    /// `outbox` pairs each registered id, in order, with the text `message`.
    pub open spec fn addresses(&self, message: Seq<char>, outbox: Seq<(u64, String)>) -> bool {
        &&& outbox.len() == self.ids().len()
        &&& forall|i: int|
            0 <= i < outbox.len() ==> (#[trigger] outbox[i]).0 == self.ids()[i] && outbox[i].1@
                == message
    }

    /// `outcomes` holds one entry per registered connection, in order: its id
    /// and whether the message was queued on its channel.
    pub open spec fn delivers(&self, outcomes: Seq<(u64, bool)>) -> bool {
        outcome_ids(outcomes) == self.ids()
    }

    /// An empty registry; the first id is 1.
    pub fn new() -> (r: Registry)
        ensures
            r.entries() == Seq::<(u64, UnboundedSender<String>)>::empty(),
            r.ids() == Seq::<u64>::empty(),
            r.next_id() == 1,
    {
        let r = Registry { next_id: 1, entries: Vec::new() };
        assert(r.ids() =~= Seq::<u64>::empty());
        r
    }

    /// Registers a connection's channel under the next id and returns that id;
    /// returns `None`, dropping the channel, once every id has been given out.
    pub fn register(&mut self, channel: UnboundedSender<String>) -> (r: Option<u64>)
        ensures
            r is None <==> old(self).next_id() == u64::MAX,
            match r {
                Some(id) => Registry::registers(*old(self), *final(self), id, channel),
                None => final(self).entries() == old(self).entries() && final(self).next_id()
                    == old(self).next_id(),
            },
    {
        proof {
            use_type_invariant(&*self);
        }
        if self.next_id == u64::MAX {
            return None;
        }
        let id = self.next_id;
        let ghost old_entries = self.entries@;
        let mut entries: Vec<(u64, UnboundedSender<String>)> = Vec::new();
        std::mem::swap(&mut self.entries, &mut entries);
        entries.push((id, channel));
        *self = Registry { next_id: id + 1, entries };
        assert(self.entries@ =~= old_entries.push((id, channel)));
        Some(id)
    }

    /// Removes the connection of id `id`; nothing happens when there is none.
    pub fn unregister(&mut self, id: u64)
        ensures
            Registry::unregisters(*old(self), *final(self), id),
    {
        proof {
            use_type_invariant(&*self);
        }
        let ghost entries = self.entries@;
        let ghost next = self.next_id;
        let mut rest: Vec<(u64, UnboundedSender<String>)> = Vec::new();
        std::mem::swap(&mut self.entries, &mut rest);
        let mut kept: Vec<(u64, UnboundedSender<String>)> = Vec::new();
        // where in `entries` each kept entry comes from
        let ghost mut from: Seq<int> = Seq::empty();
        for entry in it: rest.into_iter()
            invariant
                it.seq() == entries,
                kept@ == entries.take(it.index() as int).filter(other_than(id)),
                self.next_id == next,
                forall|a: int, b: int|
                    0 <= a < b < entries.len() ==> #[trigger] entries[a].0 < #[trigger] entries[b].0,
                forall|j: int| 0 <= j < entries.len() ==> #[trigger] entries[j].0 < next,
                from.len() == kept@.len(),
                forall|i: int|
                    0 <= i < kept@.len() ==> 0 <= #[trigger] from[i] < it.index() && kept@[i]
                        == entries[from[i]],
                forall|a: int, b: int|
                    0 <= a < b < kept@.len() ==> #[trigger] from[a] < #[trigger] from[b],
        {
            let ghost k = it.index() as int;
            proof {
                reveal(Seq::filter);
                assert(entries.take(k + 1).drop_last() =~= entries.take(k));
            }
            if entry.0 != id {
                kept.push(entry);
                proof {
                    from = from.push(k);
                }
            }
            assert(kept@ =~= entries.take(k + 1).filter(other_than(id)));
        }
        assert(entries.take(entries.len() as int) =~= entries);
        assert forall|a: int, b: int| 0 <= a < b < kept@.len() implies #[trigger] kept@[a].0
            < #[trigger] kept@[b].0 by {
            assert(from[a] < from[b]);
        }
        assert forall|i: int| 0 <= i < kept@.len() implies #[trigger] kept@[i].0 < next by {
            assert(kept@[i] == entries[from[i]]);
        }
        self.entries = kept;
    }

    /// The messages that a broadcast of `message` hands out: one copy for
    /// each registered id, oldest first.
    pub fn outbox(&self, message: &String) -> (r: Vec<(u64, String)>)
        ensures
            self.addresses(message@, r@),
    {
        let mut r: Vec<(u64, String)> = Vec::new();
        let mut i: usize = 0;
        while i < self.entries.len()
            invariant
                i <= self.entries@.len(),
                r@.len() == i,
                forall|j: int|
                    0 <= j < i ==> (#[trigger] r@[j]).0 == self.ids()[j] && r@[j].1@ == message@,
            decreases self.entries@.len() - i,
        {
            r.push((self.entries[i].0, message.clone()));
            i = i + 1;
        }
        r
    }

    /// Hands `message` to every registered connection, oldest first: each
    /// channel gets the copy that `outbox` pairs with its id. Reports for
    /// each id whether its channel took it; a failure is left to that
    /// connection's own disconnect to clean up.
    pub fn broadcast(&self, message: &String) -> (r: Vec<(u64, bool)>)
        ensures
            self.delivers(r@),
    {
        let outbox = self.outbox(message);
        let ghost planned = outbox@;
        let mut r: Vec<(u64, bool)> = Vec::new();
        let mut i: usize = 0;
        let len = self.entries.len();
        for item in it: outbox.into_iter()
            invariant
                it.seq() == planned,
                i == it.index(),
                i <= planned.len(),
                len == self.entries@.len(),
                self.addresses(message@, planned),
                planned.len() == self.entries@.len(),
                r@.len() == it.index(),
                forall|j: int| 0 <= j < it.index() ==> (#[trigger] r@[j]).0 == self.ids()[j],
        {
            let ghost k = it.index() as int;
            let (id, text) = item;
            assert(id == self.ids()[k]);
            let delivered = send_text(&self.entries[i].1, text);
            r.push((id, delivered));
            i = i + 1;
        }
        assert(outcome_ids(r@) =~= self.ids());
        r
    }

    /// The ids of the registered connections, oldest first.
    pub fn registered_ids(&self) -> (r: Vec<u64>)
        ensures
            r@ == self.ids(),
    {
        let mut r: Vec<u64> = Vec::new();
        let mut i: usize = 0;
        while i < self.entries.len()
            invariant
                i <= self.entries@.len(),
                r@ == self.ids().take(i as int),
            decreases self.entries@.len() - i,
        {
            r.push(self.entries[i].0);
            i = i + 1;
            assert(r@ =~= self.ids().take(i as int));
        }
        assert(self.ids().take(i as int) =~= self.ids());
        r
    }
}

/// After a connection is registered and then unregistered under the same id,
/// a broadcast reaches no channel of that id.
pub proof fn lemma_unregistered_not_reached(
    before: Registry,
    registered: Registry,
    unregistered: Registry,
    id: u64,
    channel: UnboundedSender<String>,
    outcomes: Seq<(u64, bool)>,
)
    requires
        Registry::registers(before, registered, id, channel),
        Registry::unregisters(registered, unregistered, id),
        unregistered.delivers(outcomes),
    ensures
        forall|k: int| 0 <= k < outcomes.len() ==> (#[trigger] outcomes[k]).0 != id,
{
    assert forall|k: int| 0 <= k < outcomes.len() implies (#[trigger] outcomes[k]).0 != id by {
        let kept = registered.entries().filter(other_than(id));
        assert(outcome_ids(outcomes).len() == outcomes.len());
        assert(entry_ids(kept).len() == kept.len());
        assert(outcome_ids(outcomes)[k] == outcomes[k].0);
        assert(entry_ids(kept)[k] == kept[k].0);
        registered.entries().lemma_filter_pred(other_than(id), k);
    }
}

/// Registrations, made one after another (the server serialises them), get
/// distinct, increasing ids.
pub proof fn lemma_ids_increase(
    first: Registry,
    second: Registry,
    third: Registry,
    a: u64,
    b: u64,
    channel_a: UnboundedSender<String>,
    channel_b: UnboundedSender<String>,
)
    requires
        Registry::registers(first, second, a, channel_a),
        Registry::registers(second, third, b, channel_b),
    ensures
        a < b,
{
}

} // verus!
