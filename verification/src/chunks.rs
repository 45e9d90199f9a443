//! Reassembly of requests that the extension sends in pieces.
//!
//! Each piece names the message it belongs to and its position. Pieces are
//! kept per message until the message's final request arrives; that
//! request takes the message's pieces out of the store and joins them.

use vstd::prelude::*;
use vstd::string::*;
use std::collections::HashMap;
use crate::assoc::{
    assoc_map, has_key, keys_distinct, lemma_assoc_map, lemma_assoc_push, lemma_assoc_push_distinct,
    lemma_assoc_remove, lemma_assoc_replace,
};

verus! {

broadcast use vstd::std_specs::hash::group_hash_axioms;

/// The pieces received so far for one message, by position.
pub struct PendingMessage {
    pub msg_id: String,
    pub chunks: HashMap<usize, String>,
}

/// The pieces of all messages that are not yet complete.
pub struct ChunkStore {
    pending: Vec<PendingMessage>,
}

/// A message's pieces as a map from position to text.
pub open spec fn chunk_map(chunks: HashMap<usize, String>) -> Map<usize, Seq<char>> {
    chunks@.map_values(|s: String| s@)
}

/// The store as pairs of message id and pieces.
pub open spec fn pending_pairs(p: Seq<PendingMessage>) -> Seq<(Seq<char>, Map<usize, Seq<char>>)> {
    p.map_values(|m: PendingMessage| (m.msg_id@, chunk_map(m.chunks)))
}

/// What a message's text is made of when its final request arrives: with
/// `n` pieces stored, the texts at positions `0 .. n - 1`, in order; a
/// position that was never sent contributes nothing.
pub open spec fn assembled_upto(m: Map<usize, Seq<char>>, n: nat) -> Seq<char>
    decreases n,
{
    if n == 0 {
        Seq::empty()
    } else {
        let i = (n - 1) as usize;
        assembled_upto(m, (n - 1) as nat) + if m.contains_key(i) {
            m[i]
        } else {
            Seq::empty()
        }
    }
}

/// The text made of a message's pieces.
pub open spec fn assembled(m: Map<usize, Seq<char>>) -> Seq<char> {
    assembled_upto(m, m.dom().len())
}

/// The pieces of message `id` after a piece `data` at `index` arrives: the
/// piece is added, replacing an earlier piece at the same position.
pub open spec fn with_chunk(
    store: Map<Seq<char>, Map<usize, Seq<char>>>,
    id: Seq<char>,
    index: usize,
    data: Seq<char>,
) -> Map<Seq<char>, Map<usize, Seq<char>>> {
    let old_pieces = if store.contains_key(id) {
        store[id]
    } else {
        Map::empty()
    };
    store.insert(id, old_pieces.insert(index, data))
}

/// The text that the final request of message `id` receives.
pub open spec fn taken_text(store: Map<Seq<char>, Map<usize, Seq<char>>>, id: Seq<char>) -> Seq<
    char,
> {
    if store.contains_key(id) {
        assembled(store[id])
    } else {
        Seq::empty()
    }
}

/// Texts joined in order.
pub open spec fn concat_all(parts: Seq<Seq<char>>) -> Seq<char>
    decreases parts.len(),
{
    if parts.len() == 0 {
        Seq::empty()
    } else {
        concat_all(parts.drop_last()) + parts.last()
    }
}

/// The store after the pieces `parts` of message `id` arrive one after
/// another, piece `i` at position `i`.
pub open spec fn with_pieces(
    store: Map<Seq<char>, Map<usize, Seq<char>>>,
    id: Seq<char>,
    parts: Seq<Seq<char>>,
) -> Map<Seq<char>, Map<usize, Seq<char>>>
    decreases parts.len(),
{
    if parts.len() == 0 {
        store
    } else {
        with_chunk(
            with_pieces(store, id, parts.drop_last()),
            id,
            (parts.len() - 1) as usize,
            parts.last(),
        )
    }
}

/// Pieces at positions `0 .. parts.len() - 1`.
pub open spec fn numbered(parts: Seq<Seq<char>>) -> Map<usize, Seq<char>> {
    Map::new(|i: usize| (i as int) < parts.len(), |i: usize| parts[i as int])
}

impl View for ChunkStore {
    type V = Map<Seq<char>, Map<usize, Seq<char>>>;

    closed spec fn view(&self) -> Map<Seq<char>, Map<usize, Seq<char>>> {
        assoc_map(pending_pairs(self.pending@))
    }
}

impl ChunkStore {
    /// Message ids are distinct.
    #[verifier::type_invariant]
    spec fn wf(&self) -> bool {
        keys_distinct(pending_pairs(self.pending@))
    }

    /// An empty store.
    pub fn new() -> (s: ChunkStore)
        ensures
            s@ == Map::<Seq<char>, Map<usize, Seq<char>>>::empty(),
    {
        let s = ChunkStore { pending: Vec::new() };
        assert(s@ =~= Map::<Seq<char>, Map<usize, Seq<char>>>::empty());
        s
    }

    /// Stores piece `data` at position `index` of message `msg_id`,
    /// replacing an earlier piece at that position.
    pub fn insert_chunk(&mut self, msg_id: String, index: usize, data: String)
        ensures
            final(self)@ == with_chunk(old(self)@, msg_id@, index, data@),
    {
        proof {
            use_type_invariant(&*self);
        }
        let mut pending: Vec<PendingMessage> = Vec::new();
        std::mem::swap(&mut pending, &mut self.pending);
        insert_into(&mut pending, msg_id, index, data);
        self.pending = pending;
    }

    /// Takes the pieces of message `msg_id` out of the store and joins them;
    /// a message with no stored pieces gives the empty text.
    pub fn take_text(&mut self, msg_id: &String) -> (text: String)
        ensures
            final(self)@ == old(self)@.remove(msg_id@),
            text@ == taken_text(old(self)@, msg_id@),
    {
        proof {
            use_type_invariant(&*self);
        }
        let mut pending: Vec<PendingMessage> = Vec::new();
        std::mem::swap(&mut pending, &mut self.pending);
        let text = take_from(&mut pending, msg_id);
        self.pending = pending;
        text
    }
}

/// The position in `pending` of message `id`, if it has pieces stored.
fn find_message(pending: &Vec<PendingMessage>, id: &String) -> (pos: Option<usize>)
    ensures
        match pos {
            Some(p) => p < pending@.len() && pending@[p as int].msg_id@ == id@,
            None => !has_key(pending_pairs(pending@), id@),
        },
{
    let mut i: usize = 0;
    while i < pending.len()
        invariant
            0 <= i <= pending@.len(),
            forall|j: int| 0 <= j < i ==> pending@[j].msg_id@ != id@,
        decreases pending@.len() - i,
    {
        if pending[i].msg_id == *id {
            return Some(i);
        }
        i = i + 1;
    }
    assert(!has_key(pending_pairs(pending@), id@)) by {
        if has_key(pending_pairs(pending@), id@) {
            let j = choose|j: int|
                0 <= j < pending_pairs(pending@).len() && pending_pairs(
                    pending@,
                )[j].0 == id@;
            assert(pending@[j].msg_id@ == id@);
        }
    }
    None
}

/// Stores piece `data` at position `index` of message `msg_id`.
fn insert_into(pending: &mut Vec<PendingMessage>, msg_id: String, index: usize, data: String)
    requires
        keys_distinct(pending_pairs(old(pending)@)),
    ensures
        keys_distinct(pending_pairs(final(pending)@)),
        assoc_map(pending_pairs(final(pending)@)) == with_chunk(
            assoc_map(pending_pairs(old(pending)@)),
            msg_id@,
            index,
            data@,
        ),
{
    let ghost old_pairs = pending_pairs(pending@);
    match find_message(pending, &msg_id) {
        Some(p) => {
            let mut entry = pending.remove(p);
            let ghost rest = pending@;
            assert(entry == old(pending)@[p as int]);
            let ghost old_pieces = chunk_map(entry.chunks);
            entry.chunks.insert(index, data);
            assert(chunk_map(entry.chunks) =~= old_pieces.insert(index, data@));
            assert(pending_pairs(rest) =~= old_pairs.remove(p as int));
            proof {
                lemma_assoc_map(old_pairs);
                assert(old_pairs[p as int].1 == old_pieces);
                lemma_assoc_replace(old_pairs, p as int, chunk_map(entry.chunks));
            }
            pending.push(entry);
            assert(pending_pairs(pending@) =~= old_pairs.remove(p as int).push(
                (msg_id@, chunk_map(entry.chunks)),
            ));
            proof {
                assert(assoc_map(pending_pairs(old(pending)@)).contains_key(msg_id@));
                assert(assoc_map(pending_pairs(old(pending)@))[msg_id@] == old_pieces);
            }
        },
        None => {
            let mut chunks: HashMap<usize, String> = HashMap::new();
            chunks.insert(index, data);
            let ghost new_pieces = chunk_map(chunks);
            let m = PendingMessage { msg_id, chunks };
            pending.push(m);
            proof {
                assert(pending_pairs(pending@) =~= old_pairs.push((m.msg_id@, new_pieces)));
                lemma_assoc_push(old_pairs, (m.msg_id@, new_pieces));
                lemma_assoc_push_distinct(old_pairs, (m.msg_id@, new_pieces));
                lemma_assoc_map(old_pairs);
                assert(!assoc_map(pending_pairs(old(pending)@)).contains_key(m.msg_id@));
                assert(new_pieces =~= Map::<usize, Seq<char>>::empty().insert(index, data@));
            }
        },
    }
}

/// Takes the pieces of message `msg_id` out and joins them.
fn take_from(pending: &mut Vec<PendingMessage>, msg_id: &String) -> (text: String)
    requires
        keys_distinct(pending_pairs(old(pending)@)),
    ensures
        keys_distinct(pending_pairs(final(pending)@)),
        assoc_map(pending_pairs(final(pending)@)) == assoc_map(pending_pairs(old(pending)@)).remove(
            msg_id@,
        ),
        text@ == taken_text(assoc_map(pending_pairs(old(pending)@)), msg_id@),
{
    let ghost old_pairs = pending_pairs(pending@);
    proof {
        lemma_assoc_map(old_pairs);
    }
    match find_message(pending, msg_id) {
        None => {
            assert(assoc_map(pending_pairs(old(pending)@)).remove(msg_id@) =~= assoc_map(pending_pairs(old(pending)@)));
            String::new()
        },
        Some(p) => {
            let entry = pending.remove(p);
            proof {
                lemma_assoc_remove(old_pairs, p as int);
                assert(pending_pairs(pending@) =~= old_pairs.remove(p as int));
                assert(entry == old(pending)@[p as int]);
                assert(assoc_map(pending_pairs(old(pending)@))[msg_id@] == chunk_map(entry.chunks));
            }
            join_pieces(&entry.chunks)
        },
    }
}

proof fn lemma_with_pieces(
    store: Map<Seq<char>, Map<usize, Seq<char>>>,
    id: Seq<char>,
    parts: Seq<Seq<char>>,
)
    requires
        !store.contains_key(id),
        parts.len() <= usize::MAX + 1,
    ensures
        with_pieces(store, id, parts).remove(id) == store,
        parts.len() > 0 ==> with_pieces(store, id, parts).contains_key(id) && with_pieces(
            store,
            id,
            parts,
        )[id] == numbered(parts),
        parts.len() == 0 ==> !with_pieces(store, id, parts).contains_key(id),
        numbered(parts).dom().finite(),
        numbered(parts).dom().len() == parts.len(),
    decreases parts.len(),
{
    if parts.len() == 0 {
        assert(numbered(parts).dom() =~= Set::<usize>::empty());
        assert(store.remove(id) =~= store);
    } else {
        let init = parts.drop_last();
        lemma_with_pieces(store, id, init);
        let k = (parts.len() - 1) as usize;
        assert(numbered(parts) =~= numbered(init).insert(k, parts.last()));
        assert(!numbered(init).contains_key(k));
        assert(numbered(parts).dom() =~= numbered(init).dom().insert(k));
        if init.len() == 0 {
            assert(numbered(init) =~= Map::<usize, Seq<char>>::empty());
        }
        assert(with_pieces(store, id, parts).remove(id) =~= store);
    }
}

proof fn lemma_assembled_numbered(parts: Seq<Seq<char>>, j: nat)
    requires
        j <= parts.len(),
        parts.len() <= usize::MAX + 1,
    ensures
        assembled_upto(numbered(parts), j) == concat_all(parts.take(j as int)),
    decreases j,
{
    if j > 0 {
        lemma_assembled_numbered(parts, (j - 1) as nat);
        assert(parts.take(j as int).drop_last() =~= parts.take(j - 1));
        assert(numbered(parts).contains_key((j - 1) as usize));
    } else {
        assert(parts.take(0) =~= Seq::<Seq<char>>::empty());
    }
}

/// Reassembly: when the pieces of a message that had none stored arrive at
/// positions `0, 1, ..., n - 1`, the final request receives the pieces'
/// texts joined in order, and the message leaves no trace in the store.
/// The pieces of other messages are untouched throughout.
pub proof fn law_reassembly(
    store: Map<Seq<char>, Map<usize, Seq<char>>>,
    id: Seq<char>,
    parts: Seq<Seq<char>>,
)
    requires
        !store.contains_key(id),
        parts.len() <= usize::MAX + 1,
    ensures
        taken_text(with_pieces(store, id, parts), id) == concat_all(parts),
        with_pieces(store, id, parts).remove(id) == store,
{
    lemma_with_pieces(store, id, parts);
    if parts.len() > 0 {
        lemma_assembled_numbered(parts, parts.len());
        assert(parts.take(parts.len() as int) =~= parts);
    }
}

/// Pieces may arrive in any order: two pieces at different places (another
/// message, or another position) give the same store either way round.
pub proof fn law_piece_order_irrelevant(
    store: Map<Seq<char>, Map<usize, Seq<char>>>,
    id1: Seq<char>,
    i1: usize,
    d1: Seq<char>,
    id2: Seq<char>,
    i2: usize,
    d2: Seq<char>,
)
    requires
        id1 != id2 || i1 != i2,
    ensures
        with_chunk(with_chunk(store, id1, i1, d1), id2, i2, d2) == with_chunk(
            with_chunk(store, id2, i2, d2),
            id1,
            i1,
            d1,
        ),
{
    let a = with_chunk(with_chunk(store, id1, i1, d1), id2, i2, d2);
    let b = with_chunk(with_chunk(store, id2, i2, d2), id1, i1, d1);
    if id1 == id2 {
        assert(a[id1] =~= b[id1]);
    }
    assert(a =~= b);
}

/// A piece sent again at the same position replaces the earlier one.
pub proof fn law_piece_resent_replaces(
    store: Map<Seq<char>, Map<usize, Seq<char>>>,
    id: Seq<char>,
    i: usize,
    d1: Seq<char>,
    d2: Seq<char>,
)
    ensures
        with_chunk(with_chunk(store, id, i, d1), id, i, d2) == with_chunk(store, id, i, d2),
{
    let a = with_chunk(with_chunk(store, id, i, d1), id, i, d2);
    let b = with_chunk(store, id, i, d2);
    assert(a[id] =~= b[id]);
    assert(a =~= b);
}

/// The text of a message's pieces, joined by position.
fn join_pieces(chunks: &HashMap<usize, String>) -> (text: String)
    ensures
        text@ == assembled(chunk_map(*chunks)),
{
    let ghost m = chunk_map(*chunks);
    let n = chunks.len();
    assert(m.dom() =~= chunks@.dom());
    let mut text = String::new();
    for i in 0..n
        invariant
            n == m.dom().len(),
            m == chunk_map(*chunks),
            text@ == assembled_upto(m, i as nat),
    {
        match chunks.get(&i) {
            Some(d) => {
                assert(m.contains_key(i) && m[i] == d@);
                text.append(d.as_str());
            },
            None => {
                assert(!m.contains_key(i));
            },
        }
        assert(text@ =~= assembled_upto(m, (i + 1) as nat));
    }
    text
}

} // verus!
