//! The clients that are connected, in the order in which they came.

use vstd::prelude::*;

verus! {

/// One connected client. `W` is what its messages are written to.
pub struct Client<W> {
    /// The port of the client's end of the connection.
    pub id: i32,
    /// The address of the client's end of the connection.
    pub addr: String,
    /// The way to the client.
    pub writer: W,
}

/// The connected clients. Two of them can have the same id, when they call from different hosts.
pub struct Roster<W> {
    clients: Vec<Client<W>>,
}

impl<W> View for Roster<W> {
    type V = Seq<Client<W>>;

    closed spec fn view(&self) -> Seq<Client<W>> {
        self.clients@
    }
}

/// The clients other than `id`, in order.
pub open spec fn without<W>(clients: Seq<Client<W>>, id: i32) -> Seq<Client<W>> {
    clients.filter(|c: Client<W>| c.id != id)
}

/// Whether a message reaches `client` when `untold` is left out.
pub open spec fn is_told<W>(client: Client<W>, untold: Option<i32>) -> bool {
    untold != Some(client.id)
}

/// The clients that a message reaches when `untold` is left out, in order.
pub open spec fn told<W>(clients: Seq<Client<W>>, untold: Option<i32>) -> Seq<Client<W>> {
    clients.filter(|c: Client<W>| is_told(c, untold))
}

/// The places in the roster of the clients that a message reaches, in order.
pub open spec fn told_places<W>(clients: Seq<Client<W>>, untold: Option<i32>) -> Seq<usize>
    decreases clients.len(),
{
    if clients.len() == 0 {
        Seq::empty()
    } else {
        let before = told_places(clients.drop_last(), untold);
        if is_told(clients.last(), untold) {
            before.push((clients.len() - 1) as usize)
        } else {
            before
        }
    }
}

impl<W> Roster<W> {
    /// A roster with nobody in it.
    pub fn new() -> (roster: Self)
        ensures
            roster@ == Seq::<Client<W>>::empty(),
    {
        Roster { clients: Vec::new() }
    }

    /// The number of connected clients.
    pub fn len(&self) -> (len: usize)
        ensures
            len == self@.len(),
    {
        self.clients.len()
    }

    /// The client at a place in the roster.
    pub fn client(&self, place: usize) -> (client: &Client<W>)
        requires
            place < self@.len(),
        ensures
            *client == self@[place as int],
    {
        &self.clients[place]
    }

    /// Adds a client behind the others. The result is the number of clients now.
    pub fn join(&mut self, client: Client<W>) -> (live: usize)
        ensures
            final(self)@ == old(self)@.push(client),
            live == final(self)@.len(),
    {
        self.clients.push(client);
        self.clients.len()
    }

    /// Takes every client with this id out. The result is the number of clients now.
    pub fn leave(&mut self, id: i32) -> (live: usize)
        ensures
            final(self)@ == without(old(self)@, id),
            live == final(self)@.len(),
    {
        let ghost all = self.clients@;
        let ghost stays = |c: Client<W>| c.id != id;
        let ghost mut passed: int = 0;
        let mut i: usize = 0;
        assert(all.take(0).filter(stays) == Seq::<Client<W>>::empty()) by {
            reveal(Seq::filter);
        }
        assert(all.skip(0) == all);
        while i < self.clients.len()
            invariant
                all == old(self)@,
                stays == (|c: Client<W>| c.id != id),
                i <= self.clients.len(),
                0 <= passed <= all.len(),
                self.clients@.len() - i == all.len() - passed,
                self.clients@.take(i as int) == all.take(passed).filter(stays),
                self.clients@.skip(i as int) == all.skip(passed),
            decreases self.clients.len() - i,
        {
            let ghost before = self.clients@;
            proof {
                reveal(Seq::filter);
                assert(all.take(passed + 1).drop_last() == all.take(passed));
                assert(all.take(passed + 1).last() == all[passed]);
                assert(before.skip(i as int)[0] == all.skip(passed)[0]);
                assert(before[i as int] == all[passed]);
                assert(all.skip(passed + 1) == all.skip(passed).drop_first());
                assert(before.skip(i + 1) == before.skip(i as int).drop_first());
            }
            if self.clients[i].id == id {
                self.clients.remove(i);
                assert(self.clients@.take(i as int) == before.take(i as int));
                assert(self.clients@.skip(i as int) == before.skip(i + 1));
            } else {
                assert(before.take(i + 1) == before.take(i as int).push(before[i as int]));
                i = i + 1;
            }
            proof {
                passed = passed + 1;
            }
        }
        proof {
            assert(all.take(passed) == all);
            assert(self.clients@.take(i as int) == self.clients@);
        }
        self.clients.len()
    }

    /// The places of the clients that a message reaches when `untold` is left out.
    pub fn told_places(&self, untold: Option<i32>) -> (places: Vec<usize>)
        ensures
            places@ == told_places(self@, untold),
    {
        let mut places: Vec<usize> = Vec::new();
        let mut i: usize = 0;
        while i < self.clients.len()
            invariant
                i <= self.clients.len(),
                places@ == told_places(self@.take(i as int), untold),
            decreases self.clients.len() - i,
        {
            assert(self@.take(i + 1).drop_last() == self@.take(i as int));
            let skipped: bool = match untold {
                Some(id) => self.clients[i].id == id,
                None => false,
            };
            if !skipped {
                places.push(i);
            }
            i = i + 1;
        }
        assert(self@.take(i as int) == self@);
        places
    }
}

/// The places of a message are those of exactly the clients that it reaches: each of them once,
/// in the order of the roster.
pub proof fn law_everyone_else_is_told_once<W>(clients: Seq<Client<W>>, untold: Option<i32>)
    requires
        clients.len() <= usize::MAX,
    ensures
        forall|k: int|
            0 <= k < told_places(clients, untold).len() ==> (#[trigger] told_places(
                clients,
                untold,
            )[k]) < clients.len() && is_told(clients[told_places(clients, untold)[k] as int], untold),
        forall|j: int, k: int|
            0 <= j < k < told_places(clients, untold).len() ==> (#[trigger] told_places(
                clients,
                untold,
            )[j]) < (#[trigger] told_places(clients, untold)[k]),
        forall|i: usize|
            i < clients.len() && is_told(clients[i as int], untold) ==> #[trigger] told_places(
                clients,
                untold,
            ).contains(i),
        told_places(clients, untold).map_values(|i: usize| clients[i as int]) == told(
            clients,
            untold,
        ),
    decreases clients.len(),
{
    let places = told_places(clients, untold);
    let at = |i: usize| clients[i as int];
    let reached = |c: Client<W>| is_told(c, untold);
    reveal(Seq::filter);
    if clients.len() > 0 {
        let rest = clients.drop_last();
        let before = told_places(rest, untold);
        let at_rest = |i: usize| rest[i as int];
        law_everyone_else_is_told_once(rest, untold);
        assert forall|i: usize|
            i < clients.len() && is_told(clients[i as int], untold) implies #[trigger] places.contains(
            i,
        ) by {
            if i < rest.len() {
                assert(rest[i as int] == clients[i as int]);
                assert(before.contains(i));
                let k = choose|k: int| 0 <= k < before.len() && before[k] == i;
                assert(places[k] == i);
            } else {
                assert(places.last() == i);
            }
        }
        assert(before.map_values(at) == before.map_values(at_rest));
        if is_told(clients.last(), untold) {
            assert(places.map_values(at) == before.map_values(at).push(clients.last()));
        }
        assert(rest.filter(reached) == told(rest, untold));
        assert(places.map_values(at) == told(clients, untold));
    } else {
        assert(places.map_values(at) == told(clients, untold));
    }
}

/// Nobody with the id of a leaver stays, and everybody else does.
pub proof fn law_leaver_is_gone<W>(clients: Seq<Client<W>>, id: i32)
    ensures
        forall|c: Client<W>| #[trigger]
            without(clients, id).contains(c) <==> clients.contains(c) && c.id != id,
{
    let stays = |c: Client<W>| c.id != id;
    assert forall|c: Client<W>| #[trigger] without(clients, id).contains(c) implies clients.contains(
        c,
    ) && c.id != id by {
        clients.lemma_filter_contains_rev(stays, c);
        let i = choose|i: int| 0 <= i < without(clients, id).len() && without(clients, id)[i] == c;
        clients.lemma_filter_pred(stays, i);
    }
    assert forall|c: Client<W>| clients.contains(c) && c.id != id implies #[trigger] without(
        clients,
        id,
    ).contains(c) by {
        let i = choose|i: int| 0 <= i < clients.len() && clients[i] == c;
        clients.lemma_filter_contains(stays, i);
    }
}

/// A change of the roster.
pub enum Change<W> {
    Join(Client<W>),
    Leave(i32),
}

/// The roster behind a series of changes.
pub open spec fn changed<W>(clients: Seq<Client<W>>, changes: Seq<Change<W>>) -> Seq<Client<W>>
    decreases changes.len(),
{
    if changes.len() == 0 {
        clients
    } else {
        let before = changed(clients, changes.drop_last());
        match changes.last() {
            Change::Join(client) => before.push(client),
            Change::Leave(id) => without(before, id),
        }
    }
}

/// Whether a client with this id joins.
pub open spec fn joins<W>(changes: Seq<Change<W>>, id: i32) -> bool {
    exists|i: int|
        0 <= i < changes.len() && (#[trigger] changes[i] matches Change::Join(client) && client.id
            == id)
}

/// Whether no client has this id.
pub open spec fn is_absent<W>(clients: Seq<Client<W>>, id: i32) -> bool {
    forall|i: int| 0 <= i < clients.len() ==> (#[trigger] clients[i]).id != id
}

/// Once a client has left it is told nothing more, whatever the roster goes through, until a
/// client with its id joins.
pub proof fn law_leaver_hears_nothing<W>(
    clients: Seq<Client<W>>,
    id: i32,
    changes: Seq<Change<W>>,
    untold: Option<i32>,
)
    requires
        !joins(changes, id),
    ensures
        is_absent(told(changed(without(clients, id), changes), untold), id),
{
    let now = changed(without(clients, id), changes);
    lemma_left(clients, id);
    lemma_absent_stays_absent(without(clients, id), id, changes);
    let reached = |c: Client<W>| is_told(c, untold);
    assert forall|i: int| 0 <= i < told(now, untold).len() implies (#[trigger] told(
        now,
        untold,
    )[i]).id != id by {
        now.lemma_filter_contains_rev(reached, told(now, untold)[i]);
        let k = choose|k: int| 0 <= k < now.len() && now[k] == told(now, untold)[i];
        assert(now[k].id != id);
    }
}

proof fn lemma_left<W>(clients: Seq<Client<W>>, id: i32)
    ensures
        is_absent(without(clients, id), id),
{
    law_leaver_is_gone(clients, id);
    let rest = without(clients, id);
    assert forall|i: int| 0 <= i < rest.len() implies (#[trigger] rest[i]).id != id by {
        assert(rest.contains(rest[i]));
    }
}

/// An id that is absent stays so until it joins.
pub proof fn lemma_absent_stays_absent<W>(
    clients: Seq<Client<W>>,
    id: i32,
    changes: Seq<Change<W>>,
)
    requires
        is_absent(clients, id),
        !joins(changes, id),
    ensures
        is_absent(changed(clients, changes), id),
    decreases changes.len(),
{
    if changes.len() > 0 {
        lemma_no_earlier_join(changes, id);
        lemma_absent_stays_absent(clients, id, changes.drop_last());
        let before = changed(clients, changes.drop_last());
        let now = changed(clients, changes);
        let last = changes[changes.len() - 1];
        if let Change::Leave(other) = last {
            law_leaver_is_gone(before, other);
            assert forall|i: int| 0 <= i < now.len() implies (#[trigger] now[i]).id != id by {
                assert(without(before, other).contains(now[i]));
                let k = choose|k: int| 0 <= k < before.len() && before[k] == now[i];
                assert(before[k].id != id);
            }
        }
    }
}

proof fn lemma_no_earlier_join<W>(changes: Seq<Change<W>>, id: i32)
    requires
        changes.len() > 0,
        !joins(changes, id),
    ensures
        !joins(changes.drop_last(), id),
{
    let earlier = changes.drop_last();
    if joins(earlier, id) {
        let i = choose|i: int|
            0 <= i < earlier.len() && (#[trigger] earlier[i] matches Change::Join(client)
                && client.id == id);
        assert(changes[i] == earlier[i]);
    }
}

/// An id is absent once it has left, where it does not join behind that.
pub proof fn lemma_absent_after_leave<W>(
    clients: Seq<Client<W>>,
    id: i32,
    changes: Seq<Change<W>>,
    at: int,
)
    requires
        0 <= at < changes.len(),
        changes[at] == Change::<W>::Leave(id),
        !joins(changes.skip(at + 1), id),
    ensures
        is_absent(changed(clients, changes), id),
    decreases changes.len(),
{
    let earlier = changes.drop_last();
    let before = changed(clients, earlier);
    if at == changes.len() - 1 {
        lemma_left(before, id);
    } else {
        let tail = changes.skip(at + 1);
        assert(earlier.skip(at + 1) == tail.drop_last());
        lemma_no_earlier_join(tail, id);
        lemma_absent_after_leave(clients, id, earlier, at);
        let last = seq![changes.last()];
        assert(last.drop_last() == Seq::<Change<W>>::empty());
        assert(changed(before, last.drop_last()) == before);
        assert(changed(before, last) == changed(clients, changes));
        if joins(last, id) {
            assert(tail[tail.len() - 1] == last[0]);
        }
        lemma_absent_stays_absent(before, id, last);
    }
}

/// Who is told goes by the id alone: with one id left out, the places are those of all clients
/// with another id; with nobody left out, they are all places. Each comes once, in order.
pub proof fn law_told_by_id<W>(clients: Seq<Client<W>>, left_out: i32)
    requires
        clients.len() <= usize::MAX,
    ensures
        forall|i: usize| #[trigger]
            told_places(clients, Some(left_out)).contains(i) <==> i < clients.len()
                && clients[i as int].id != left_out,
        forall|i: usize| #[trigger]
            told_places(clients, None).contains(i) <==> i < clients.len(),
        forall|j: int, k: int|
            0 <= j < k < told_places(clients, Some(left_out)).len() ==> (#[trigger] told_places(
                clients,
                Some(left_out),
            )[j]) < (#[trigger] told_places(clients, Some(left_out))[k]),
        forall|j: int, k: int|
            0 <= j < k < told_places(clients, None).len() ==> (#[trigger] told_places(
                clients,
                None,
            )[j]) < (#[trigger] told_places(clients, None)[k]),
{
    law_everyone_else_is_told_once(clients, Some(left_out));
    law_everyone_else_is_told_once(clients, None);
    let some = told_places(clients, Some(left_out));
    let all = told_places(clients, None);
    assert forall|i: usize| #[trigger] some.contains(i) <==> i < clients.len()
        && clients[i as int].id != left_out by {
        if some.contains(i) {
            let k = choose|k: int| 0 <= k < some.len() && some[k] == i;
            assert(some[k] < clients.len());
        }
    }
    assert forall|i: usize| #[trigger] all.contains(i) <==> i < clients.len() by {
        if all.contains(i) {
            let k = choose|k: int| 0 <= k < all.len() && all[k] == i;
            assert(all[k] < clients.len());
        }
        if i < clients.len() {
            assert(is_told(clients[i as int], None));
        }
    }
}

/// The clients that are told when one id is left out are those that stay when it leaves, and with
/// nobody left out all are told.
pub proof fn law_told_are_those_that_would_stay<W>(clients: Seq<Client<W>>, left_out: i32)
    ensures
        told(clients, Some(left_out)) == without(clients, left_out),
        told(clients, None) == clients,
    decreases clients.len(),
{
    reveal(Seq::filter);
    if clients.len() > 0 {
        law_told_are_those_that_would_stay(clients.drop_last(), left_out);
        assert(clients.drop_last().push(clients.last()) == clients);
    }
}

/// Leaving goes by the id alone and keeps the order: the last client stays, behind those that
/// stay before it, exactly where its id is another.
pub proof fn law_leaving_goes_by_id<W>(clients: Seq<Client<W>>, last: Client<W>, id: i32)
    ensures
        without(Seq::<Client<W>>::empty(), id) == Seq::<Client<W>>::empty(),
        last.id == id ==> without(clients.push(last), id) == without(clients, id),
        last.id != id ==> without(clients.push(last), id) == without(clients, id).push(last),
{
    reveal(Seq::filter);
    assert(clients.push(last).drop_last() == clients);
}

} // verus!
