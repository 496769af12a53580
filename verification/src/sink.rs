//! The broadcast sink: the observers of the arena and what each is sent.

use vstd::prelude::*;

verus! {

/// An observer. `sender` is its outbound channel while it has one; the
/// engine never looks inside a channel.
pub struct Client<S> {
    pub client_id: String,
    pub sender: Option<S>,
}

/// The mathematical content of a `Client`.
pub struct ClientView<S> {
    pub client_id: Seq<char>,
    pub sender: Option<S>,
}

impl<S> View for Client<S> {
    type V = ClientView<S>;

    open spec fn view(&self) -> ClientView<S> {
        ClientView { client_id: self.client_id@, sender: self.sender }
    }
}

/// No two entries have the same identity.
pub open spec fn distinct_ids<S>(entries: Seq<ClientView<S>>) -> bool {
    forall|i: int, j: int|
        0 <= i < j < entries.len() ==> (#[trigger] entries[i]).client_id != (
        #[trigger] entries[j]).client_id
}

/// Whether an observer with this identity is registered.
pub open spec fn registered<S>(entries: Seq<ClientView<S>>, client_id: Seq<char>) -> bool {
    exists|i: int| 0 <= i < entries.len() && (#[trigger] entries[i]).client_id == client_id
}

/// Whether `at` is the first place among the entries at which this
/// identity stands.
pub open spec fn is_place_of<S>(
    entries: Seq<ClientView<S>>,
    client_id: Seq<char>,
    at: int,
) -> bool {
    &&& 0 <= at < entries.len()
    &&& entries[at].client_id == client_id
    &&& forall|k: int| 0 <= k < at ==> (#[trigger] entries[k]).client_id != client_id
}

/// The first place among the entries at which this identity stands.
pub open spec fn place_of<S>(entries: Seq<ClientView<S>>, client_id: Seq<char>) -> int {
    choose|at: int| is_place_of(entries, client_id, at)
}

/// The channels of the first `upto` entries that have one, in the order of
/// the entries.
pub open spec fn open_channels<S>(entries: Seq<ClientView<S>>, upto: int) -> Seq<S>
    decreases upto,
{
    if upto <= 0 {
        Seq::empty()
    } else {
        match entries[upto - 1].sender {
            Some(channel) => open_channels(entries, upto - 1).push(channel),
            None => open_channels(entries, upto - 1),
        }
    }
}

/// What one broadcast of `payload` sends: for each channel that stands
/// among the entries, in their order, that channel and the payload.
pub open spec fn fanned_out<S>(entries: Seq<ClientView<S>>, payload: Seq<char>) -> Seq<
    (S, Seq<char>),
> {
    Seq::new(
        open_channels(entries, entries.len() as int).len(),
        |k: int| (open_channels(entries, entries.len() as int)[k], payload),
    )
}

/// The registry of observers, in the order in which they first registered.
/// No identity occurs twice in it: an empty registry has none, and
/// `register` and `unregister` keep it so.
pub struct Clients<S> {
    entries: Vec<Client<S>>,
}

impl<S> View for Clients<S> {
    type V = Seq<ClientView<S>>;

    closed spec fn view(&self) -> Seq<ClientView<S>> {
        Seq::new(self.entries@.len(), |i: int| self.entries@[i]@)
    }
}

impl<S> Clients<S> {
    /// A registry with nobody in it.
    pub fn new() -> (r: Clients<S>)
        ensures
            r@.len() == 0,
    {
        Clients { entries: Vec::new() }
    }

    /// How many observers are registered.
    pub fn len(&self) -> (r: usize)
        ensures
            r == self@.len(),
    {
        self.entries.len()
    }

    fn find(&self, client_id: &String) -> (r: Option<usize>)
        ensures
            match r {
                Some(at) => is_place_of(self@, client_id@, at as int) && place_of(self@, client_id@)
                    == at && registered(self@, client_id@),
                None => !registered(self@, client_id@),
            },
    {
        let mut at: usize = 0;
        while at < self.entries.len()
            invariant
                at <= self.entries@.len(),
                forall|i: int| 0 <= i < at ==> (#[trigger] self@[i]).client_id != client_id@,
            decreases self.entries@.len() - at,
        {
            if self.entries[at].client_id == *client_id {
                assert(is_place_of(self@, client_id@, at as int));
                return Some(at);
            }
            at += 1;
        }
        None
    }

    /// Registers an observer. One that is registered already keeps its
    /// place and gets the new channel; a new one goes to the end.
    pub fn register(&mut self, client: Client<S>)
        ensures
            distinct_ids(old(self)@) ==> distinct_ids(final(self)@),
            registered(old(self)@, client@.client_id) ==> final(self)@ == old(self)@.update(
                place_of(old(self)@, client@.client_id),
                client@,
            ),
            !registered(old(self)@, client@.client_id) ==> final(self)@ == old(self)@.push(client@),
    {
        match self.find(&client.client_id) {
            Some(at) => {
                let ghost place = place_of(self@, client@.client_id);
                self.entries[at] = client;
                assert(self@ =~= old(self)@.update(place, client@));
            },
            None => {
                self.entries.push(client);
                assert(self@ =~= old(self)@.push(client@));
            },
        }
    }

    /// Takes an observer out of the registry and returns it, or `None`
    /// where nobody has this identity. The others keep their order.
    pub fn unregister(&mut self, client_id: &String) -> (gone: Option<Client<S>>)
        ensures
            distinct_ids(old(self)@) ==> distinct_ids(final(self)@),
            match gone {
                Some(client) => {
                    let place = place_of(old(self)@, client_id@);
                    &&& registered(old(self)@, client_id@)
                    &&& client@ == old(self)@[place]
                    &&& final(self)@ == old(self)@.remove(place)
                },
                None => !registered(old(self)@, client_id@) && final(self)@ == old(self)@,
            },
    {
        match self.find(client_id) {
            Some(at) => {
                let ghost place = place_of(self@, client_id@);
                let client = self.entries.remove(at);
                assert(self@ =~= old(self)@.remove(place));
                Some(client)
            },
            None => None,
        }
    }

    /// What one broadcast sends: the payload, once for every observer
    /// that has a channel, in the order of the registry. Observers
    /// without a channel are passed over. Every copy is the payload,
    /// character for character. The registry is not changed.
    pub fn fan_out<'a>(&'a self, payload: &str) -> (deliveries: Vec<(&'a S, String)>)
        ensures
            deliveries@.len() == fanned_out(self@, payload@).len(),
            forall|k: int|
                0 <= k < deliveries@.len() ==> (*(#[trigger] deliveries@[k]).0, deliveries@[k].1@)
                    == fanned_out(self@, payload@)[k],
    {
        let mut deliveries: Vec<(&'a S, String)> = Vec::new();
        let mut at: usize = 0;
        while at < self.entries.len()
            invariant
                at <= self.entries@.len(),
                deliveries@.len() == open_channels(self@, at as int).len(),
                forall|k: int|
                    0 <= k < deliveries@.len() ==> *(#[trigger] deliveries@[k]).0 == open_channels(
                        self@,
                        at as int,
                    )[k] && deliveries@[k].1@ == payload@,
            decreases self.entries@.len() - at,
        {
            if let Some(channel) = &self.entries[at].sender {
                deliveries.push((channel, payload.to_string()));
            }
            at += 1;
        }
        deliveries
    }
}

/// The channels that stand among the first `upto` entries are exactly the
/// channels that `open_channels` gives, and there is at most one for each
/// entry.
pub proof fn lemma_open_channels<S>(entries: Seq<ClientView<S>>, upto: int)
    requires
        0 <= upto <= entries.len(),
    ensures
        open_channels(entries, upto).len() <= upto,
        forall|i: int|
            0 <= i < upto && (#[trigger] entries[i]).sender is Some ==> open_channels(
                entries,
                upto,
            ).contains(entries[i].sender->0),
        forall|k: int|
            0 <= k < open_channels(entries, upto).len() ==> exists|i: int|
                0 <= i < upto && (#[trigger] entries[i]).sender == Some(
                    #[trigger] open_channels(entries, upto)[k],
                ),
    decreases upto,
{
    if upto > 0 {
        lemma_open_channels(entries, upto - 1);
        let before = open_channels(entries, upto - 1);
        let now = open_channels(entries, upto);
        assert forall|i: int|
            0 <= i < upto && (#[trigger] entries[i]).sender is Some implies now.contains(
            entries[i].sender->0,
        ) by {
            if i < upto - 1 {
                let k = choose|k: int| 0 <= k < before.len() && before[k] == entries[i].sender->0;
                assert(now[k] == entries[i].sender->0);
            } else {
                assert(now[now.len() - 1] == entries[i].sender->0);
            }
        }
        assert forall|k: int| 0 <= k < now.len() implies exists|i: int|
            0 <= i < upto && (#[trigger] entries[i]).sender == Some(#[trigger] now[k]) by {
            if k < before.len() {
                let i = choose|i: int|
                    0 <= i < upto - 1 && (#[trigger] entries[i]).sender == Some(before[k]);
                assert(entries[i].sender == Some(now[k]));
            } else {
                assert(entries[upto - 1].sender == Some(now[k]));
            }
        }
    }
}

/// One broadcast reaches every observer that has a channel and nobody
/// else, and every copy it sends is the payload: any two observers are
/// sent the same text, character for character.
pub proof fn lemma_fan_out_is_uniform<S>(entries: Seq<ClientView<S>>, payload: Seq<char>)
    ensures
        fanned_out(entries, payload).len() <= entries.len(),
        forall|a: int, b: int|
            0 <= a < fanned_out(entries, payload).len() && 0 <= b < fanned_out(
                entries,
                payload,
            ).len() ==> (#[trigger] fanned_out(entries, payload)[a]).1 == payload
                && fanned_out(entries, payload)[a].1 == (#[trigger] fanned_out(
                entries,
                payload,
            )[b]).1,
        forall|i: int|
            0 <= i < entries.len() && (#[trigger] entries[i]).sender is Some ==> fanned_out(
                entries,
                payload,
            ).contains((entries[i].sender->0, payload)),
        forall|k: int|
            0 <= k < fanned_out(entries, payload).len() ==> exists|i: int|
                0 <= i < entries.len() && (#[trigger] entries[i]).sender == Some(
                    (#[trigger] fanned_out(entries, payload)[k]).0,
                ),
{
    let count = entries.len() as int;
    let sent = fanned_out(entries, payload);
    lemma_open_channels(entries, count);
    assert forall|i: int|
        0 <= i < entries.len() && (#[trigger] entries[i]).sender is Some implies sent.contains(
        (entries[i].sender->0, payload),
    ) by {
        let channels = open_channels(entries, count);
        let k = choose|k: int| 0 <= k < channels.len() && channels[k] == entries[i].sender->0;
        assert(sent[k] == (entries[i].sender->0, payload));
    }
    assert forall|k: int| 0 <= k < sent.len() implies exists|i: int|
        0 <= i < entries.len() && (#[trigger] entries[i]).sender == Some(
            (#[trigger] sent[k]).0,
        ) by {
        let channels = open_channels(entries, count);
        let i = choose|i: int|
            0 <= i < count && (#[trigger] entries[i]).sender == Some(channels[k]);
        assert(entries[i].sender == Some(sent[k].0));
    }
}

} // verus!
