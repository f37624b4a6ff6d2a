use vstd::prelude::*;

verus! {

/// The configuration singleton: written once at initialization, read-only
/// thereafter.
#[derive(Clone, Debug, PartialEq)]
pub struct Config {
    /// Administrative identity. Recorded, and barred from being a stream
    /// recipient; no operation is gated on it beyond that.
    pub owner: String,
    /// Address of the single token contract whose deposit notifications the
    /// engine accepts and to which it directs payouts.
    pub cw20_addr: String,
}

/// One linear-vesting payment commitment. Identity fields are immutable
/// after creation; only `claimed_amount` changes, during withdrawals.
#[derive(Clone, Debug, PartialEq)]
pub struct Stream {
    /// Address that funded the stream.
    pub owner: String,
    /// Address entitled to withdraw.
    pub recipient: String,
    /// Total deposited quantity, in the smallest token unit.
    pub amount: u128,
    /// Remainder of `amount` by the duration, paid only at or after maturity.
    pub last_amount: u128,
    /// Cumulative quantity already paid out.
    pub claimed_amount: u128,
    /// Unix-second timestamp at which vesting begins.
    pub start_time: u64,
    /// Unix-second timestamp at which vesting completes.
    pub end_time: u64,
    /// Quantity unlocked per elapsed second during the linear phase.
    pub rate_per_second: u128,
}

/// One participant-index entry: every stream id in which `addr` takes part,
/// in order of creation.
#[derive(Clone, Debug, PartialEq)]
pub struct UserStreams {
    pub addr: String,
    pub ids: Vec<u64>,
}

/// The whole persisted state: the configuration singleton, the id counter,
/// the stream table and the participant index. Stream ids are dense from 1,
/// so the stream with id `i` sits at position `i - 1` of `streams`.
#[derive(Clone, Debug, PartialEq)]
pub struct State {
    pub config: Config,
    pub stream_seq: u64,
    pub streams: Vec<Stream>,
    pub users_streams: Vec<UserStreams>,
}

/// Seconds between a stream's start and end.
pub open spec fn duration_of(s: Stream) -> int {
    s.end_time - s.start_time
}

/// What creation establishes of every stream and no later operation
/// touches: the window is non-empty and the deposit decomposes exactly into
/// the linear part and the remainder, with no rounding loss.
pub open spec fn stream_invariant(s: Stream) -> bool {
    &&& s.start_time < s.end_time
    &&& s.rate_per_second * duration_of(s) + s.last_amount == s.amount
    &&& s.last_amount < duration_of(s)
}

/// The ids recorded in the participant index for `addr`: the list of the
/// first entry whose address matches, or the empty list when none does.
pub open spec fn ids_of(entries: Seq<UserStreams>, addr: Seq<char>) -> Seq<u64>
    decreases entries.len(),
{
    if entries.len() == 0 {
        Seq::empty()
    } else if entries[0].addr@ == addr {
        entries[0].ids@
    } else {
        ids_of(entries.subrange(1, entries.len() as int), addr)
    }
}

/// No address owns two index entries.
pub open spec fn index_keys_unique(entries: Seq<UserStreams>) -> bool {
    forall|i: int, j: int|
        0 <= i < j < entries.len() ==> (#[trigger] entries[i]).addr@ != (#[trigger] entries[j]).addr@
}

/// One index list is well-formed against the id counter: every recorded
/// id was actually issued (it lies in `1..=seq`), and the list is strictly
/// increasing, since ids are only ever appended as the counter grows.
pub open spec fn ids_list_wf(ids: Seq<u64>, seq: u64) -> bool {
    &&& (forall|k: int| 0 <= k < ids.len() ==> 1 <= #[trigger] ids[k] <= seq)
    &&& (forall|k: int, l: int| 0 <= k < l < ids.len() ==> #[trigger] ids[k] < #[trigger] ids[l])
}

/// Every list in the participant index is well-formed against the id
/// counter.
pub open spec fn index_wf(entries: Seq<UserStreams>, seq: u64) -> bool {
    forall|i: int| 0 <= i < entries.len() ==> ids_list_wf((#[trigger] entries[i]).ids@, seq)
}

/// Well-formedness of the whole state: the counter equals the number of
/// stored streams (ids are dense from 1), every stored stream satisfies
/// its own invariant, and the participant index has one entry per address,
/// each recording only issued ids, in strictly increasing order.
pub open spec fn state_invariant(st: State) -> bool {
    &&& st.stream_seq == st.streams@.len()
    &&& forall|i: int| 0 <= i < st.streams@.len() ==> stream_invariant(#[trigger] st.streams@[i])
    &&& index_keys_unique(st.users_streams@)
    &&& index_wf(st.users_streams@, st.stream_seq)
}

proof fn lemma_ids_of_first_match(entries: Seq<UserStreams>, addr: Seq<char>, i: int)
    requires
        0 <= i < entries.len(),
        entries[i].addr@ == addr,
        forall|k: int| 0 <= k < i ==> (#[trigger] entries[k]).addr@ != addr,
    ensures
        ids_of(entries, addr) == entries[i].ids@,
    decreases i,
{
    if i > 0 {
        let tail = entries.subrange(1, entries.len() as int);
        lemma_ids_of_first_match(tail, addr, i - 1);
    }
}

proof fn lemma_ids_of_no_match(entries: Seq<UserStreams>, addr: Seq<char>)
    requires
        forall|k: int| 0 <= k < entries.len() ==> (#[trigger] entries[k]).addr@ != addr,
    ensures
        ids_of(entries, addr) == Seq::<u64>::empty(),
    decreases entries.len(),
{
    if entries.len() > 0 {
        let tail = entries.subrange(1, entries.len() as int);
        lemma_ids_of_no_match(tail, addr);
    }
}

proof fn lemma_ids_of_update_other(entries: Seq<UserStreams>, i: int, e: UserStreams, addr: Seq<char>)
    requires
        0 <= i < entries.len(),
        e.addr@ == entries[i].addr@,
        addr != e.addr@,
    ensures
        ids_of(entries.update(i, e), addr) == ids_of(entries, addr),
    decreases entries.len(),
{
    let updated = entries.update(i, e);
    if i == 0 {
        assert(updated.subrange(1, updated.len() as int)
            =~= entries.subrange(1, entries.len() as int));
    } else {
        if entries[0].addr@ != addr {
            assert(updated.subrange(1, updated.len() as int)
                =~= entries.subrange(1, entries.len() as int).update(i - 1, e));
            lemma_ids_of_update_other(entries.subrange(1, entries.len() as int), i - 1, e, addr);
        }
    }
}

proof fn lemma_ids_of_push_other(entries: Seq<UserStreams>, e: UserStreams, addr: Seq<char>)
    requires
        addr != e.addr@,
    ensures
        ids_of(entries.push(e), addr) == ids_of(entries, addr),
    decreases entries.len(),
{
    let pushed = entries.push(e);
    if entries.len() == 0 {
        assert(pushed[0] == e);
        lemma_ids_of_no_match(pushed, addr);
    } else {
        assert(pushed[0] == entries[0]);
        if entries[0].addr@ != addr {
            assert(pushed.subrange(1, pushed.len() as int)
                =~= entries.subrange(1, entries.len() as int).push(e));
            lemma_ids_of_push_other(entries.subrange(1, entries.len() as int), e, addr);
        }
    }
}

proof fn lemma_ids_list_wf_weaken(ids: Seq<u64>, seq1: u64, seq2: u64)
    requires
        ids_list_wf(ids, seq1),
        seq1 <= seq2,
    ensures
        ids_list_wf(ids, seq2),
{
    assert forall|k: int| 0 <= k < ids.len() implies 1 <= #[trigger] ids[k] <= seq2 by {
        assert(1 <= ids[k] <= seq1);
    }
}

proof fn lemma_ids_of_bounded(entries: Seq<UserStreams>, addr: Seq<char>, seq: u64)
    requires
        index_wf(entries, seq),
    ensures
        forall|k: int|
            0 <= k < ids_of(entries, addr).len() ==> #[trigger] ids_of(entries, addr)[k] <= seq,
    decreases entries.len(),
{
    if entries.len() > 0 {
        if entries[0].addr@ == addr {
            assert(ids_list_wf(entries[0].ids@, seq));
            assert forall|k: int|
                0 <= k < ids_of(entries, addr).len() implies #[trigger] ids_of(entries, addr)[k]
                <= seq by {
                assert(1 <= entries[0].ids@[k] <= seq);
            }
        } else {
            let tail = entries.subrange(1, entries.len() as int);
            assert forall|i: int|
                0 <= i < tail.len() implies ids_list_wf((#[trigger] tail[i]).ids@, seq) by {
                assert(tail[i] == entries[i + 1]);
                assert(ids_list_wf(entries[i + 1].ids@, seq));
            }
            lemma_ids_of_bounded(tail, addr, seq);
            assert forall|k: int|
                0 <= k < ids_of(entries, addr).len() implies #[trigger] ids_of(entries, addr)[k]
                <= seq by {
                assert(ids_of(entries, addr) == ids_of(tail, addr));
                assert(ids_of(tail, addr)[k] <= seq);
            }
        }
    }
}

/// Position of the index entry for `addr`, if one exists.
fn find_entry(entries: &Vec<UserStreams>, addr: &String) -> (r: Option<usize>)
    ensures
        match r {
            Some(i) => i < entries@.len() && entries@[i as int].addr@ == addr@
                && forall|k: int| 0 <= k < i ==> (#[trigger] entries@[k]).addr@ != addr@,
            None => forall|k: int| 0 <= k < entries@.len() ==> (#[trigger] entries@[k]).addr@ != addr@,
        },
{
    let n: usize = entries.len();
    let mut i: usize = 0;
    while i < n
        invariant
            n == entries@.len(),
            i <= n,
            forall|k: int| 0 <= k < i ==> (#[trigger] entries@[k]).addr@ != addr@,
        decreases n - i,
    {
        if entries[i].addr == *addr {
            return Some(i);
        }
        i = i + 1;
    }
    None
}

/// The recorded stream ids for `addr`, as a fresh list; empty when the
/// index has no entry for the address.
pub fn lookup_ids(entries: &Vec<UserStreams>, addr: &String) -> (r: Vec<u64>)
    ensures
        r@ == ids_of(entries@, addr@),
{
    match find_entry(entries, addr) {
        Some(i) => {
            proof {
                lemma_ids_of_first_match(entries@, addr@, i as int);
            }
            let source = &entries[i].ids;
            let n: usize = source.len();
            let mut ids: Vec<u64> = Vec::new();
            let mut k: usize = 0;
            while k < n
                invariant
                    n == source@.len(),
                    k <= n,
                    ids@ == source@.subrange(0, k as int),
                decreases n - k,
            {
                ids.push(source[k]);
                k = k + 1;
                proof {
                    assert(ids@ =~= source@.subrange(0, k as int));
                }
            }
            proof {
                assert(ids@ =~= source@);
            }
            ids
        },
        None => {
            proof {
                lemma_ids_of_no_match(entries@, addr@);
            }
            Vec::new()
        },
    }
}

/// Records that `addr` participates in the stream with id `id`: the id is
/// appended to the address's entry, which is created first if absent. The
/// id must be newer than everything the index records for `addr`, so each
/// list stays strictly increasing.
fn append_stream_id(entries: &mut Vec<UserStreams>, addr: &String, id: u64)
    requires
        index_keys_unique(old(entries)@),
        1 <= id,
        index_wf(old(entries)@, id),
        forall|k: int|
            0 <= k < ids_of(old(entries)@, addr@).len() ==> #[trigger] ids_of(
                old(entries)@,
                addr@,
            )[k] < id,
    ensures
        index_keys_unique(final(entries)@),
        index_wf(final(entries)@, id),
        ids_of(final(entries)@, addr@) == ids_of(old(entries)@, addr@).push(id),
        forall|q: Seq<char>| q != addr@ ==>
            #[trigger] ids_of(final(entries)@, q) == ids_of(old(entries)@, q),
{
    let ghost pre = entries@;
    match find_entry(entries, addr) {
        Some(i) => {
            entries[i].ids.push(id);
            proof {
                let ghost post = entries@;
                assert(post =~= pre.update(i as int, post[i as int]));
                lemma_ids_of_first_match(pre, addr@, i as int);
                lemma_ids_of_first_match(post, addr@, i as int);
                assert forall|q: Seq<char>| q != addr@ implies
                    #[trigger] ids_of(post, q) == ids_of(pre, q) by {
                    lemma_ids_of_update_other(pre, i as int, post[i as int], q);
                }
                assert forall|j: int|
                    0 <= j < post.len() implies ids_list_wf((#[trigger] post[j]).ids@, id) by {
                    assert(ids_list_wf(pre[j].ids@, id));
                    if j == i as int {
                        let grown = post[j].ids@;
                        assert(grown == pre[j].ids@.push(id));
                        assert forall|k: int| 0 <= k < grown.len() implies 1 <= #[trigger] grown[k]
                            <= id by {
                            if k < pre[j].ids@.len() {
                                assert(grown[k] == pre[j].ids@[k]);
                            } else {
                                assert(grown[k] == id);
                            }
                        }
                        assert forall|k: int, l: int|
                            0 <= k < l < grown.len() implies #[trigger] grown[k]
                            < #[trigger] grown[l] by {
                            if l < pre[j].ids@.len() {
                                assert(grown[k] == pre[j].ids@[k]);
                                assert(grown[l] == pre[j].ids@[l]);
                            } else {
                                assert(grown[l] == id);
                                assert(grown[k] == pre[j].ids@[k]);
                                assert(ids_of(pre, addr@)[k] < id);
                            }
                        }
                    } else {
                        assert(post[j] == pre[j]);
                    }
                }
            }
        },
        None => {
            let mut ids: Vec<u64> = Vec::new();
            ids.push(id);
            let entry = UserStreams { addr: addr.clone(), ids };
            entries.push(entry);
            proof {
                let ghost post = entries@;
                lemma_ids_of_no_match(pre, addr@);
                lemma_ids_of_first_match(post, addr@, pre.len() as int);
                assert(ids_of(post, addr@) =~= ids_of(pre, addr@).push(id));
                assert forall|q: Seq<char>| q != addr@ implies
                    #[trigger] ids_of(post, q) == ids_of(pre, q) by {
                    lemma_ids_of_push_other(pre, post[pre.len() as int], q);
                }
                assert forall|j: int|
                    0 <= j < post.len() implies ids_list_wf((#[trigger] post[j]).ids@, id) by {
                    if j < pre.len() {
                        assert(post[j] == pre[j]);
                        assert(ids_list_wf(pre[j].ids@, id));
                    } else {
                        assert(post[j].ids@.len() == 1);
                        assert(post[j].ids@[0] == id);
                    }
                }
            }
        },
    }
}

/// Assigns the next id from the monotonic counter, records the id under
/// the stream's owner and recipient — two distinct addresses — in the
/// participant index, and stores the stream. Returns the assigned id.
pub fn save_stream(state: &mut State, stream: Stream) -> (id: u64)
    requires
        state_invariant(*old(state)),
        stream_invariant(stream),
        stream.owner@ != stream.recipient@,
        old(state).stream_seq < u64::MAX,
    ensures
        state_invariant(*final(state)),
        id == old(state).stream_seq + 1,
        final(state).stream_seq == id,
        final(state).config == old(state).config,
        final(state).streams@ == old(state).streams@.push(stream),
        ids_of(final(state).users_streams@, stream.owner@) == ids_of(
            old(state).users_streams@,
            stream.owner@,
        ).push(id),
        ids_of(final(state).users_streams@, stream.recipient@) == ids_of(
            old(state).users_streams@,
            stream.recipient@,
        ).push(id),
        forall|q: Seq<char>| q != stream.owner@ && q != stream.recipient@ ==>
            #[trigger] ids_of(final(state).users_streams@, q)
                == ids_of(old(state).users_streams@, q),
{
    let id: u64 = state.stream_seq + 1;
    proof {
        assert forall|i: int|
            0 <= i < state.users_streams@.len() implies ids_list_wf(
            (#[trigger] state.users_streams@[i]).ids@,
            id,
        ) by {
            lemma_ids_list_wf_weaken(state.users_streams@[i].ids@, state.stream_seq, id);
        }
        lemma_ids_of_bounded(state.users_streams@, stream.owner@, state.stream_seq);
        lemma_ids_of_bounded(state.users_streams@, stream.recipient@, state.stream_seq);
    }
    append_stream_id(&mut state.users_streams, &stream.owner, id);
    append_stream_id(&mut state.users_streams, &stream.recipient, id);
    state.stream_seq = id;
    state.streams.push(stream);
    id
}

} // verus!
