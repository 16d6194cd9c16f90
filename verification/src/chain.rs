//! Chain synchronisation: which entries lie between the head a client
//! already knows and the head the server reports, oldest first.
//!
//! The conversation is a parent-linked chain of entries. A walk starts at the
//! server's head and follows parent links until it meets the client's head,
//! the chain's origin, or an entry that cannot be found. [`ChainWalk`] holds
//! the walk between two fetches, so that whoever owns the connection can
//! perform each fetch; [`reconcile`] runs a whole walk over entries already
//! in memory.

use vstd::prelude::*;
use crate::chat::{ChatError, ChatMessage, ChatMessageView};
use crate::text::clone_opt_string;

verus! {

/// `i` is the position of the first entry of `store` whose id is `id`.
pub open spec fn is_first_match(store: Seq<ChatMessageView>, id: Seq<char>, i: int) -> bool {
    &&& 0 <= i < store.len()
    &&& store[i].id == Some(id)
    &&& forall|j: int| 0 <= j < i ==> store[j].id != Some(id)
}

/// Some entry of `store` has the id `id`.
pub open spec fn has_entry(store: Seq<ChatMessageView>, id: Seq<char>) -> bool {
    exists|i: int| 0 <= i < store.len() && (#[trigger] store[i]).id == Some(id)
}

/// What fetching `id` from `store` yields: the first entry with that id.
pub open spec fn lookup(store: Seq<ChatMessageView>, id: Seq<char>) -> Option<ChatMessageView> {
    if has_entry(store, id) {
        Some(store[choose|i: int| is_first_match(store, id, i)])
    } else {
        None
    }
}

/// The entries a walk collects, newest first, when it stands at `cursor`,
/// stops at `client_head`, and may still fetch `fuel` times.
pub open spec fn walk(
    store: Seq<ChatMessageView>,
    cursor: Option<Seq<char>>,
    client_head: Option<Seq<char>>,
    fuel: nat,
) -> Seq<ChatMessageView>
    decreases fuel,
{
    match cursor {
        None => Seq::empty(),
        Some(id) => if client_head == Some(id) || fuel == 0 {
            Seq::empty()
        } else {
            match lookup(store, id) {
                None => Seq::empty(),
                Some(entry) => seq![entry] + walk(
                    store,
                    entry.parent_id,
                    client_head,
                    (fuel - 1) as nat,
                ),
            }
        },
    }
}

/// The new entries between `client_head` (exclusive) and `server_head`
/// (inclusive), oldest first. A walk fetches at most once per stored entry,
/// which is enough for every chain without a cycle.
pub open spec fn reconcile_spec(
    store: Seq<ChatMessageView>,
    server_head: Option<Seq<char>>,
    client_head: Option<Seq<char>>,
) -> Seq<ChatMessageView> {
    walk(store, server_head, client_head, store.len()).reverse()
}

/// Any two first matches are the same position.
pub proof fn lemma_first_match_unique(store: Seq<ChatMessageView>, id: Seq<char>, i: int, k: int)
    requires
        is_first_match(store, id, i),
        is_first_match(store, id, k),
    ensures
        i == k,
{
    if i < k {
        assert(store[i].id != Some(id));
    } else if k < i {
        assert(store[k].id != Some(id));
    }
}

/// A first match is what a lookup yields.
pub proof fn lemma_lookup_first_match(store: Seq<ChatMessageView>, id: Seq<char>, i: int)
    requires
        is_first_match(store, id, i),
    ensures
        lookup(store, id) == Some(store[i]),
{
    assert(has_entry(store, id));
    let k = choose|k: int| is_first_match(store, id, k);
    lemma_first_match_unique(store, id, i, k);
}

/// An entry that a lookup yields carries the id it was asked for.
pub proof fn lemma_lookup_id(store: Seq<ChatMessageView>, id: Seq<char>)
    requires
        lookup(store, id) is Some,
    ensures
        lookup(store, id).unwrap().id == Some(id),
{
    lemma_has_entry_first_match(store, id);
}

/// Where some entry has the id, there is a first one.
pub proof fn lemma_has_entry_first_match(store: Seq<ChatMessageView>, id: Seq<char>)
    requires
        has_entry(store, id),
    ensures
        exists|i: int| is_first_match(store, id, i),
{
    let w = choose|i: int| 0 <= i < store.len() && (#[trigger] store[i]).id == Some(id);
    lemma_first_match_below(store, id, w);
}

proof fn lemma_first_match_below(store: Seq<ChatMessageView>, id: Seq<char>, w: int)
    requires
        0 <= w < store.len(),
        store[w].id == Some(id),
    ensures
        exists|i: int| is_first_match(store, id, i),
    decreases w,
{
    if exists|j: int| 0 <= j < w && (#[trigger] store[j]).id == Some(id) {
        let j = choose|j: int| 0 <= j < w && (#[trigger] store[j]).id == Some(id);
        lemma_first_match_below(store, id, j);
    } else {
        assert(is_first_match(store, id, w));
    }
}

/// A walk's entries are linked: the first is the entry at the cursor, each
/// one's parent is the entry that follows, and none is the client's head.
pub proof fn lemma_walk_linked(
    store: Seq<ChatMessageView>,
    cursor: Option<Seq<char>>,
    client_head: Option<Seq<char>>,
    fuel: nat,
)
    ensures
        ({
            let w = walk(store, cursor, client_head, fuel);
            &&& w.len() <= fuel
            &&& w.len() > 0 ==> w[0].id == cursor
            &&& forall|i: int| 0 <= i < w.len() ==> (#[trigger] w[i]).id is Some && w[i].id != client_head
            &&& forall|i: int| 0 <= i < w.len() - 1 ==> (#[trigger] w[i]).parent_id == w[i + 1].id
        }),
    decreases fuel,
{
    let w = walk(store, cursor, client_head, fuel);
    if cursor is Some && client_head != cursor && fuel > 0 && lookup(store, cursor.unwrap()) is Some {
        let id = cursor.unwrap();
        let entry = lookup(store, id).unwrap();
        let rest = walk(store, entry.parent_id, client_head, (fuel - 1) as nat);
        lemma_lookup_id(store, id);
        lemma_walk_linked(store, entry.parent_id, client_head, (fuel - 1) as nat);
        assert(w =~= seq![entry] + rest);
        assert forall|i: int| 0 <= i < w.len() implies (#[trigger] w[i]).id is Some && w[i].id
            != client_head by {
            if i > 0 {
                assert(w[i] == rest[i - 1]);
            }
        }
        assert forall|i: int| 0 <= i < w.len() - 1 implies (#[trigger] w[i]).parent_id == w[i
            + 1].id by {
            assert(w[i + 1] == rest[i]);
            if i > 0 {
                assert(w[i] == rest[i - 1]);
            }
        }
    }
}

/// What a reconciliation yields is a linked run of the chain that ends at
/// the server's head: each entry is the parent of the next, the last one
/// carries the server head's id, and the client's head is not among them.
pub proof fn lemma_reconcile_linked(
    store: Seq<ChatMessageView>,
    server_head: Option<Seq<char>>,
    client_head: Option<Seq<char>>,
)
    ensures
        ({
            let r = reconcile_spec(store, server_head, client_head);
            &&& r.len() > 0 ==> r.last().id == server_head
            &&& forall|i: int| 0 <= i < r.len() ==> (#[trigger] r[i]).id is Some && r[i].id != client_head
            &&& forall|i: int| 0 < i < r.len() ==> (#[trigger] r[i]).parent_id == r[i - 1].id
        }),
{
    let w = walk(store, server_head, client_head, store.len());
    let r = reconcile_spec(store, server_head, client_head);
    lemma_walk_linked(store, server_head, client_head, store.len());
    assert forall|i: int| 0 <= i < r.len() implies (#[trigger] r[i]).id is Some && r[i].id
        != client_head by {
        assert(r[i] == w[w.len() - 1 - i]);
    }
    assert forall|i: int| 0 < i < r.len() implies (#[trigger] r[i]).parent_id == r[i - 1].id by {
        assert(r[i] == w[w.len() - 1 - i]);
        assert(r[i - 1] == w[w.len() - 1 - i + 1]);
    }
    if r.len() > 0 {
        assert(r.last() == w[0]);
    }
}

/// Reconciling is idempotent: once the client's head has been advanced to
/// the last entry that a reconciliation returned (or left where it was, when
/// nothing was returned), reconciling again against the same store and the
/// same server head returns nothing.
pub proof fn lemma_reconcile_idempotent(
    store: Seq<ChatMessageView>,
    server_head: Option<Seq<char>>,
    client_head: Option<Seq<char>>,
)
    ensures
        ({
            let first = reconcile_spec(store, server_head, client_head);
            let advanced = if first.len() > 0 {
                first.last().id
            } else {
                client_head
            };
            reconcile_spec(store, server_head, advanced) =~= Seq::empty()
        }),
{
    let first = reconcile_spec(store, server_head, client_head);
    lemma_reconcile_linked(store, server_head, client_head);
    if first.len() > 0 {
        assert(first.last().id == server_head);
        assert(walk(store, server_head, server_head, store.len()) =~= Seq::empty());
    } else {
        assert(walk(store, server_head, client_head, store.len()).len() == 0);
    }
}

/// The bound on fetches matters only where it is reached: a walk that
/// collects fewer entries than it may fetch collects the same entries
/// under any larger bound.
pub proof fn lemma_walk_bound(
    store: Seq<ChatMessageView>,
    cursor: Option<Seq<char>>,
    client_head: Option<Seq<char>>,
    fuel: nat,
    more: nat,
)
    requires
        walk(store, cursor, client_head, fuel).len() < fuel,
        more >= fuel,
    ensures
        walk(store, cursor, client_head, more) == walk(store, cursor, client_head, fuel),
    decreases fuel,
{
    if cursor is Some && client_head != cursor && fuel > 0 && lookup(store, cursor.unwrap()) is Some {
        let entry = lookup(store, cursor.unwrap()).unwrap();
        let rest = walk(store, entry.parent_id, client_head, (fuel - 1) as nat);
        assert(walk(store, cursor, client_head, fuel) == seq![entry] + rest);
        lemma_walk_bound(
            store,
            entry.parent_id,
            client_head,
            (fuel - 1) as nat,
            (more - 1) as nat,
        );
    }
}

/// A missing entry truncates the walk and is no error: where the entry at
/// the cursor is found but its predecessor is not, the walk yields that
/// entry and nothing older; and where the entry at the cursor itself is not
/// found, the walk yields nothing.
pub proof fn lemma_walk_truncates(
    store: Seq<ChatMessageView>,
    id: Seq<char>,
    client_head: Option<Seq<char>>,
    fuel: nat,
)
    requires
        client_head != Some(id),
        fuel >= 2,
    ensures
        lookup(store, id) is None ==> walk(store, Some(id), client_head, fuel) =~= Seq::empty(),
        lookup(store, id) is Some && lookup(store, id).unwrap().parent_id is Some
            && lookup(store, id).unwrap().parent_id != client_head && lookup(
            store,
            lookup(store, id).unwrap().parent_id.unwrap(),
        ) is None ==> walk(store, Some(id), client_head, fuel) =~= seq![
            lookup(store, id).unwrap(),
        ],
{
    if lookup(store, id) is Some {
        let entry = lookup(store, id).unwrap();
        assert(walk(store, Some(id), client_head, fuel) == seq![entry] + walk(
            store,
            entry.parent_id,
            client_head,
            (fuel - 1) as nat,
        ));
    }
}

/// Where the server has no head there is no conversation, and nothing to
/// reconcile, whatever the store and the client's head are.
pub proof fn lemma_reconcile_without_conversation(
    store: Seq<ChatMessageView>,
    client_head: Option<Seq<char>>,
)
    ensures
        reconcile_spec(store, None, client_head) =~= Seq::empty(),
{
}

/// A client that already stands at the server's head lacks nothing.
pub proof fn lemma_reconcile_in_sync(store: Seq<ChatMessageView>, head: Option<Seq<char>>)
    ensures
        reconcile_spec(store, head, head) =~= Seq::empty(),
{
}

/// Fetches `id` from entries held in memory: the position of the first entry
/// with that id, or `None` when there is none.
pub fn find_entry(store: &Vec<ChatMessage>, id: &String) -> (r: Option<usize>)
    ensures
        match r {
            Some(i) => is_first_match(store.deep_view(), id@, i as int),
            None => !has_entry(store.deep_view(), id@),
        },
{
    let mut i: usize = 0;
    while i < store.len()
        invariant
            i <= store.len(),
            forall|j: int| 0 <= j < i ==> store.deep_view()[j].id != Some(id@),
        decreases store.len() - i,
    {
        let hit = match &store[i].id {
            Some(entry_id) => *entry_id == *id,
            None => false,
        };
        if hit {
            assert(store.deep_view()[i as int].id == Some(id@));
            return Some(i);
        }
        i += 1;
    }
    None
}

/// A walk in progress: where it stands, where it stops, and what it has
/// collected so far, newest first.
#[derive(Debug)]
pub struct ChainWalk {
    pub client_head: Option<String>,
    pub cursor: Option<String>,
    pub collected: Vec<ChatMessage>,
}

impl ChainWalk {
    /// The id the walk needs fetched next; `None` once the walk is over.
    /// The walk is over when it has no cursor left or stands on the client's
    /// head, which is known already and not fetched again.
    pub open spec fn pending_spec(self) -> Option<Seq<char>> {
        match self.cursor.deep_view() {
            None => None,
            Some(id) => if self.client_head.deep_view() == Some(id) {
                None
            } else {
                Some(id)
            },
        }
    }

    /// What the walk will have collected, newest first, once it has run to
    /// its end against `store` with at most `fuel` further fetches.
    pub open spec fn outcome(self, store: Seq<ChatMessageView>, fuel: nat) -> Seq<ChatMessageView> {
        self.collected.deep_view() + walk(
            store,
            self.cursor.deep_view(),
            self.client_head.deep_view(),
            fuel,
        )
    }

    /// Begins a walk at the server's head. With no server head there is no
    /// conversation yet, and nothing is pending; with equal heads the client
    /// is in sync, and nothing is pending either.
    pub fn start(server_head: Option<String>, client_head: Option<String>) -> (r: ChainWalk)
        ensures
            r.cursor.deep_view() == server_head.deep_view(),
            r.client_head.deep_view() == client_head.deep_view(),
            r.collected@.len() == 0,
            server_head is None ==> r.pending_spec() is None,
            server_head.deep_view() == client_head.deep_view() ==> r.pending_spec() is None,
    {
        ChainWalk { client_head, cursor: server_head, collected: Vec::new() }
    }

    /// The id to fetch next, or `None` when the walk is over.
    pub fn pending(&self) -> (r: Option<String>)
        ensures
            r.deep_view() == self.pending_spec(),
    {
        match &self.cursor {
            None => None,
            Some(id) => {
                let known = match &self.client_head {
                    Some(head) => *head == *id,
                    None => false,
                };
                if known {
                    None
                } else {
                    Some(id.clone())
                }
            },
        }
    }

    /// Hands the walk the answer to its pending fetch. A found entry is
    /// collected and the walk moves to its parent; a missing entry ends the
    /// walk with what it has. A walk that is over ignores the answer.
    pub fn supply(&mut self, fetched: Option<ChatMessage>)
        ensures
            final(self).client_head == old(self).client_head,
            old(self).pending_spec() is None ==> *final(self) == *old(self),
            old(self).pending_spec() is Some ==> match fetched {
                None => {
                    &&& final(self).cursor is None
                    &&& final(self).collected == old(self).collected
                },
                Some(entry) => {
                    &&& final(self).cursor.deep_view() == entry.deep_view().parent_id
                    &&& final(self).collected.deep_view() == old(self).collected.deep_view().push(
                        entry.deep_view(),
                    )
                },
            },
    {
        if self.pending().is_none() {
            return ;
        }
        match fetched {
            None => {
                self.cursor = None;
            },
            Some(entry) => {
                self.cursor = clone_opt_string(&entry.parent_id);
                let ghost before = self.collected.deep_view();
                self.collected.push(entry);
                assert(self.collected.deep_view() =~= before.push(entry.deep_view()));
            },
        }
    }

    /// Gives the walk up because a fetch has failed. A failed fetch is not a
    /// missing entry: the connection is in an unknown state, so the walk
    /// ends with the error, and what it had collected is not handed out as
    /// if it were the whole of what is new.
    pub fn abandon(self, error: ChatError) -> (r: Result<Vec<ChatMessage>, ChatError>)
        ensures
            r == Err::<Vec<ChatMessage>, ChatError>(error),
    {
        Err(error)
    }

    /// Ends the walk and yields what it collected, oldest first.
    pub fn finish(self) -> (r: Vec<ChatMessage>)
        ensures
            r.deep_view() == self.collected.deep_view().reverse(),
    {
        let mut collected = self.collected;
        let ghost newest_first = collected.deep_view();
        let mut out: Vec<ChatMessage> = Vec::new();
        while collected.len() > 0
            invariant
                collected.len() + out.len() == newest_first.len(),
                forall|j: int|
                    0 <= j < collected.len() ==> collected.deep_view()[j] == newest_first[j],
                forall|j: int|
                    0 <= j < out.len() ==> out.deep_view()[j] == newest_first[newest_first.len()
                        - 1 - j],
            decreases collected.len(),
        {
            let ghost before = collected.deep_view();
            let ghost done = out.deep_view();
            let entry = collected.pop().unwrap();
            assert(entry.deep_view() == before[before.len() - 1]);
            assert(forall|j: int|
                0 <= j < collected.len() ==> collected.deep_view()[j] == before[j]);
            out.push(entry);
            assert(out.deep_view() =~= done.push(entry.deep_view()));
            assert(before[before.len() - 1] == newest_first[before.len() - 1]);
        }
        assert(out.deep_view() =~= newest_first.reverse());
        out
    }
}

/// Computes the entries that a client at `client_head` lacks when the server
/// stands at `server_head`, oldest first, fetching from `store`.
pub fn reconcile(
    server_head: &Option<String>,
    client_head: &Option<String>,
    store: &Vec<ChatMessage>,
) -> (r: Vec<ChatMessage>)
    ensures
        r.deep_view() == reconcile_spec(
            store.deep_view(),
            server_head.deep_view(),
            client_head.deep_view(),
        ),
{
    let mut state = ChainWalk::start(clone_opt_string(server_head), clone_opt_string(client_head));
    let ghost spec_store = store.deep_view();
    let ghost total = walk(
        spec_store,
        server_head.deep_view(),
        client_head.deep_view(),
        store.len() as nat,
    );
    assert(state.collected.deep_view() =~= Seq::empty());
    assert(state.outcome(spec_store, store.len() as nat) =~= total);
    let mut fuel: usize = store.len();
    loop
        invariant
            spec_store == store.deep_view(),
            fuel <= store.len(),
            state.outcome(spec_store, fuel as nat) == total,
        ensures
            state.collected.deep_view() == total,
        decreases fuel,
    {
        let next = state.pending();
        match next {
            None => {
                assert(state.outcome(spec_store, fuel as nat) =~= state.collected.deep_view());
                break ;
            },
            Some(id) => {
                if fuel == 0 {
                    assert(state.outcome(spec_store, fuel as nat) =~= state.collected.deep_view());
                    break ;
                }
                let ghost before = state;
                let found = find_entry(store, &id);
                match found {
                    None => {
                        assert(lookup(spec_store, id@) is None);
                        assert(state.outcome(spec_store, fuel as nat)
                            =~= state.collected.deep_view());
                        state.supply(None);
                        break ;
                    },
                    Some(i) => {
                        proof {
                            lemma_lookup_first_match(spec_store, id@, i as int);
                        }
                        let entry = store[i].clone();
                        state.supply(Some(entry));
                        fuel = fuel - 1;
                        assert(state.outcome(spec_store, fuel as nat) =~= before.outcome(
                            spec_store,
                            (fuel + 1) as nat,
                        ));
                    },
                }
            },
        }
    }
    state.finish()
}

} // verus!
