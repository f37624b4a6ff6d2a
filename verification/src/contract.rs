use vstd::arithmetic::div_mod::{
    lemma_div_multiples_vanish, lemma_fundamental_div_mod, lemma_mod_division_less_than_divisor,
};
use vstd::arithmetic::mul::{
    lemma_mul_inequality, lemma_mul_is_commutative, lemma_mul_is_distributive_sub_other_way,
};
use vstd::prelude::*;

use crate::error::ContractError;
use crate::msg::{
    ConfigResponse, ExecuteMsg, ExecuteResponse, FundingNotification, IdsResponse, InstantiateMsg,
    QueryAnswer, QueryMsg, ReceiveMsg, StreamResponse,
};
use crate::state::{
    duration_of, ids_of, lookup_ids, save_stream, state_invariant, stream_invariant, Config, State,
    Stream,
};

verus! {

/// The remainder bonus that a withdrawal at `now` releases: the whole
/// remainder once the stream has matured, nothing before.
pub open spec fn bonus_at(s: Stream, now: u64) -> int {
    if now >= s.end_time {
        s.last_amount as int
    } else {
        0
    }
}

/// Seconds of vesting elapsed by `now`: the schedule stops accruing at
/// maturity, so elapsed time is capped at the stream's end.
pub open spec fn vested_seconds(s: Stream, now: u64) -> int {
    if now >= s.end_time {
        s.end_time - s.start_time
    } else {
        now - s.start_time
    }
}

/// Total quantity the linear schedule has unlocked by `now`, recomputed
/// from absolute elapsed time rather than accrued incrementally. Under the
/// stream invariant this never exceeds the deposit.
pub open spec fn unlocked_at(s: Stream, now: u64) -> int {
    vested_seconds(s, now) * s.rate_per_second
}

/// What a withdrawal at `now` pays: everything unlocked so far, plus the
/// matured remainder, minus what was already claimed. At or after maturity
/// this is exactly the unclaimed rest of the deposit.
pub open spec fn due_at(s: Stream, now: u64) -> int {
    unlocked_at(s, now) - s.claimed_amount + bonus_at(s, now)
}

/// Whether the settlement at `now` can be computed without leaving the
/// unsigned domain: the claim so far must not exceed what the schedule has
/// unlocked. When it does, the request aborts with
/// `ContractError::Arithmetic` rather than pay a wrong amount.
pub open spec fn withdraw_fits(s: Stream, now: u64) -> bool {
    s.claimed_amount <= unlocked_at(s, now)
}

/// The exact outcome of a withdrawal from stream `s` by `caller` at `now`,
/// with the checks in the order the engine makes them.
pub open spec fn withdraw_outcome(s: Stream, caller: Seq<char>, now: u64) -> Result<
    u128,
    ContractError,
> {
    if s.recipient@ != caller {
        Err(ContractError::NotStreamRecipient)
    } else if s.claimed_amount >= s.amount {
        Err(ContractError::StreamFullyClaimed)
    } else if s.start_time >= now {
        Err(ContractError::StreamNotStarted)
    } else if !withdraw_fits(s, now) {
        Err(ContractError::Arithmetic)
    } else {
        Ok(due_at(s, now) as u128)
    }
}

/// The accounting engine. Decides whether `caller` may withdraw from the
/// stream at `now`, and if so pays the delta unlocked since the last claim:
/// nothing before the stream starts, the linear schedule while it runs,
/// and at or after maturity the whole remaining balance, remainder
/// included. On success the paid amount is added to the stream's claimed
/// bookkeeping, which never exceeds the deposit; on any error the stream
/// is untouched.
pub fn withdraw_from_stream(stream: &mut Stream, caller: &String, now: u64) -> (r: Result<
    u128,
    ContractError,
>)
    requires
        stream_invariant(*old(stream)),
    ensures
        r == withdraw_outcome(*old(stream), caller@, now),
        r is Err ==> *final(stream) == *old(stream),
        r matches Ok(paid) ==> *final(stream) == (Stream {
            claimed_amount: (old(stream).claimed_amount + paid) as u128,
            ..*old(stream)
        }),
        r is Ok ==> *final(stream) == settled(*old(stream), now),
        r is Ok ==> final(stream).claimed_amount <= final(stream).amount,
        r is Ok && now >= old(stream).end_time
            ==> final(stream).claimed_amount == final(stream).amount,
{
    if !(stream.recipient == *caller) {
        return Err(ContractError::NotStreamRecipient);
    }
    if stream.claimed_amount >= stream.amount {
        return Err(ContractError::StreamFullyClaimed);
    }
    if stream.start_time >= now {
        return Err(ContractError::StreamNotStarted);
    }
    let mut bonus: u128 = 0;
    let vesting_end: u64 = if now >= stream.end_time {
        bonus = stream.last_amount;
        stream.end_time
    } else {
        now
    };
    let elapsed: u64 = vesting_end - stream.start_time;
    proof {
        lemma_mul_inequality(elapsed as int, duration_of(*stream), stream.rate_per_second as int);
        lemma_mul_is_commutative(duration_of(*stream), stream.rate_per_second as int);
    }
    let unlocked: u128 = (elapsed as u128) * stream.rate_per_second;
    let beyond_claim: u128 = match unlocked.checked_sub(stream.claimed_amount) {
        Some(v) => v,
        None => {
            return Err(ContractError::Arithmetic);
        },
    };
    let due: u128 = beyond_claim + bonus;
    let new_claimed: u128 = stream.claimed_amount + due;
    stream.claimed_amount = new_claimed;
    Ok(due)
}

/// Effective start of a stream requested at `now`: a requested start of
/// zero means "start at creation time".
pub open spec fn effective_start(start_time: u64, now: u64) -> u64 {
    if start_time == 0 {
        now
    } else {
        start_time
    }
}

/// The exact outcome of a creation request, with the checks in the order
/// the registry makes them: the recipient must be a canonical address and
/// must differ from both the funding owner and the configured
/// administrative owner. `validated_owner` and `validated_recipient` are
/// the canonical forms the host's address validator returned for the two
/// parties.
pub open spec fn create_outcome(
    st: State,
    now: u64,
    owner: Seq<char>,
    validated_owner: Seq<char>,
    recipient: Seq<char>,
    validated_recipient: Seq<char>,
    amount: u128,
    start_time: u64,
    end_time: u64,
) -> Result<u64, ContractError> {
    let eff = effective_start(start_time, now);
    if validated_owner != owner {
        Err(ContractError::InvalidOwner)
    } else if validated_recipient != recipient {
        Err(ContractError::InvalidRecipient)
    } else if recipient == owner {
        Err(ContractError::InvalidRecipient)
    } else if st.config.owner@ == recipient {
        Err(ContractError::InvalidRecipient)
    } else if eff > end_time || eff < now {
        Err(ContractError::InvalidStartTime)
    } else if amount < end_time - eff {
        Err(ContractError::InvalidDuration)
    } else if end_time == eff {
        Err(ContractError::Arithmetic)
    } else {
        Ok((st.stream_seq + 1) as u64)
    }
}

/// The stream a successful creation request stores: the deposit splits into
/// a linear part, paid at `rate_per_second`, and the division remainder
/// `last_amount`, held back until maturity.
pub open spec fn created_stream(
    owner: String,
    recipient: String,
    amount: u128,
    start_time: u64,
    end_time: u64,
) -> Stream {
    let duration = end_time - start_time;
    Stream {
        owner,
        recipient,
        amount,
        last_amount: (amount as int % duration) as u128,
        claimed_amount: 0u128,
        start_time,
        end_time,
        rate_per_second: ((amount as int - amount as int % duration) / duration) as u128,
    }
}

/// The deposit decomposes exactly into the linear part and the remainder:
/// for every amount and positive duration, deriving the rate by first
/// removing the remainder and then dividing loses nothing, so
/// `rate * duration + last == amount`.
pub proof fn lemma_rate_exact(amount: int, duration: int)
    requires
        0 <= amount,
        0 < duration,
    ensures
        0 <= amount % duration < duration,
        amount % duration <= amount,
        (amount - amount % duration) / duration == amount / duration,
        ((amount - amount % duration) / duration) * duration + amount % duration == amount,
{
    lemma_mod_division_less_than_divisor(amount, duration);
    lemma_fundamental_div_mod(amount, duration);
    lemma_div_multiples_vanish(amount / duration, duration);
    lemma_mul_is_commutative(duration, amount / duration);
}

/// How a successful creation request changes the state: the counter
/// advances by one, the new stream is stored under the new id, and the id
/// is recorded in the participant index under both parties, which are
/// distinct addresses. Nothing else changes.
pub open spec fn create_transition(
    pre: State,
    post: State,
    id: u64,
    validated_owner: String,
    validated_recipient: String,
    amount: u128,
    eff: u64,
    end_time: u64,
) -> bool {
    let stream = created_stream(validated_owner, validated_recipient, amount, eff, end_time);
    &&& id == pre.stream_seq + 1
    &&& post.stream_seq == id
    &&& post.config == pre.config
    &&& post.streams@ == pre.streams@.push(stream)
    &&& stream_invariant(stream)
    &&& validated_owner@ != validated_recipient@
    &&& ids_of(post.users_streams@, validated_owner@) == ids_of(
        pre.users_streams@,
        validated_owner@,
    ).push(id)
    &&& ids_of(post.users_streams@, validated_recipient@) == ids_of(
        pre.users_streams@,
        validated_recipient@,
    ).push(id)
    &&& (forall|q: Seq<char>|
        q != validated_owner@ && q != validated_recipient@ ==> #[trigger] ids_of(
            post.users_streams@,
            q,
        ) == ids_of(pre.users_streams@, q))
}

/// Validates the parties and the window, derives the linear rate, and
/// persists a new stream under the next id. The recipient must differ
/// from the funding owner and from the configured administrative owner.
/// `validated_owner` and `validated_recipient` are the canonical forms
/// the host's address validator returned for `owner` and `recipient`. On
/// any error the state is untouched.
pub fn try_create_stream(
    state: &mut State,
    now: u64,
    owner: String,
    validated_owner: String,
    recipient: String,
    validated_recipient: String,
    amount: u128,
    start_time: u64,
    end_time: u64,
) -> (r: Result<u64, ContractError>)
    requires
        state_invariant(*old(state)),
        old(state).stream_seq < u64::MAX,
    ensures
        r == create_outcome(
            *old(state),
            now,
            owner@,
            validated_owner@,
            recipient@,
            validated_recipient@,
            amount,
            start_time,
            end_time,
        ),
        r is Err ==> *final(state) == *old(state),
        r matches Ok(id) ==> create_transition(
            *old(state),
            *final(state),
            id,
            validated_owner,
            validated_recipient,
            amount,
            effective_start(start_time, now),
            end_time,
        ),
        state_invariant(*final(state)),
{
    if !(validated_owner == owner) {
        return Err(ContractError::InvalidOwner);
    }
    if !(validated_recipient == recipient) {
        return Err(ContractError::InvalidRecipient);
    }
    if recipient == owner {
        return Err(ContractError::InvalidRecipient);
    }
    if state.config.owner == recipient {
        return Err(ContractError::InvalidRecipient);
    }
    let start_time_real: u64 = if start_time == 0 {
        now
    } else {
        start_time
    };
    if start_time_real > end_time {
        return Err(ContractError::InvalidStartTime);
    }
    if start_time_real < now {
        return Err(ContractError::InvalidStartTime);
    }
    let duration: u64 = end_time - start_time_real;
    if amount < duration as u128 {
        return Err(ContractError::InvalidDuration);
    }
    if duration == 0 {
        return Err(ContractError::Arithmetic);
    }
    let d128: u128 = duration as u128;
    proof {
        lemma_rate_exact(amount as int, d128 as int);
    }
    let last_amount: u128 = amount % d128;
    let real_amount: u128 = amount - last_amount;
    let rate_per_second: u128 = real_amount / d128;
    let stream = Stream {
        owner: validated_owner,
        recipient: validated_recipient,
        amount,
        last_amount,
        claimed_amount: 0,
        start_time: start_time_real,
        end_time,
        rate_per_second,
    };
    let id: u64 = save_stream(state, stream);
    Ok(id)
}

/// How a withdrawal request relates the state before it, the state after
/// it and the answer: an unknown id is `NotFound`, the accounting engine's
/// verdict on the loaded stream decides everything else, and only that
/// one stream's claimed bookkeeping ever changes.
pub open spec fn withdraw_transition(
    pre: State,
    post: State,
    now: u64,
    sender: Seq<char>,
    id: u64,
    r: Result<ExecuteResponse, ContractError>,
) -> bool {
    &&& ((id == 0 || id > pre.streams@.len()) ==> r == Err::<ExecuteResponse, ContractError>(
        ContractError::NotFound,
    ) && post == pre)
    &&& ((1 <= id <= pre.streams@.len()) ==> ({
        let s = pre.streams@[id - 1];
        &&& (withdraw_outcome(s, sender, now) matches Err(e) ==> r == Err::<
            ExecuteResponse,
            ContractError,
        >(e) && post.streams@ == pre.streams@)
        &&& (withdraw_outcome(s, sender, now) matches Ok(paid) ==> {
            &&& r matches Ok(resp) && resp matches ExecuteResponse::Withdrawn {
                stream_id,
                amount,
                recipient,
            } && stream_id == id && amount == paid && recipient@ == s.recipient@
            &&& post.streams@ == pre.streams@.update(
                id - 1,
                (Stream { claimed_amount: (s.claimed_amount + paid) as u128, ..s }),
            )
        })
        &&& post.config == pre.config
        &&& post.stream_seq == pre.stream_seq
        &&& post.users_streams@ == pre.users_streams@
    }))
}

/// Loads the stream under `id`, settles a withdrawal by `sender` at `now`
/// through the accounting engine, stores the updated stream, and answers
/// with the transfer instruction for the paid amount. Everything else in
/// the state is untouched; on any error nothing at all changes.
pub fn try_withdraw(state: &mut State, now: u64, sender: String, id: u64) -> (r: Result<
    ExecuteResponse,
    ContractError,
>)
    requires
        state_invariant(*old(state)),
    ensures
        withdraw_transition(*old(state), *final(state), now, sender@, id, r),
        state_invariant(*final(state)),
{
    if id == 0 || id > state.streams.len() as u64 {
        return Err(ContractError::NotFound);
    }
    let idx: usize = (id - 1) as usize;
    proof {
        assert(stream_invariant(state.streams@[idx as int]));
    }
    let outcome = withdraw_from_stream(&mut state.streams[idx], &sender, now);
    match outcome {
        Ok(paid) => {
            proof {
                assert forall|i: int| 0 <= i < state.streams@.len() implies stream_invariant(
                    #[trigger] state.streams@[i],
                ) by {
                    assert(stream_invariant(old(state).streams@[i]));
                }
            }
            let recipient = state.streams[idx].recipient.clone();
            Ok(ExecuteResponse::Withdrawn { stream_id: id, amount: paid, recipient })
        },
        Err(e) => {
            proof {
                assert(state.streams@ =~= old(state).streams@);
            }
            Err(e)
        },
    }
}

/// The exact outcome of a funding notification: deposits are accepted only
/// from the configured token contract, and the attached instruction then
/// creates a stream funded by the depositor.
pub open spec fn receive_outcome(
    st: State,
    now: u64,
    sender: Seq<char>,
    wrapped: FundingNotification,
    validated_owner: Seq<char>,
    validated_recipient: Seq<char>,
) -> Result<u64, ContractError> {
    if st.config.cw20_addr@ != sender {
        Err(ContractError::Unauthorized)
    } else {
        match wrapped.msg {
            ReceiveMsg::CreateStream { recipient, start_time, end_time } => create_outcome(
                st,
                now,
                wrapped.sender@,
                validated_owner,
                recipient@,
                validated_recipient,
                wrapped.amount,
                start_time,
                end_time,
            ),
        }
    }
}

/// Handles a token-deposit notification: accepts it only from the
/// configured token contract, then creates the stream its instruction
/// describes, funded by the depositor with the deposited amount.
pub fn execute_receive(
    state: &mut State,
    now: u64,
    sender: String,
    wrapped: FundingNotification,
    validated_owner: String,
    validated_recipient: String,
) -> (r: Result<u64, ContractError>)
    requires
        state_invariant(*old(state)),
        old(state).stream_seq < u64::MAX,
    ensures
        r == receive_outcome(
            *old(state),
            now,
            sender@,
            wrapped,
            validated_owner@,
            validated_recipient@,
        ),
        r is Err ==> *final(state) == *old(state),
        r matches Ok(id) ==> (wrapped.msg matches ReceiveMsg::CreateStream {
            recipient,
            start_time,
            end_time,
        } && create_transition(
            *old(state),
            *final(state),
            id,
            validated_owner,
            validated_recipient,
            wrapped.amount,
            effective_start(start_time, now),
            end_time,
        )),
        state_invariant(*final(state)),
{
    if !(state.config.cw20_addr == sender) {
        return Err(ContractError::Unauthorized);
    }
    let FundingNotification { sender: stream_owner, amount, msg } = wrapped;
    match msg {
        ReceiveMsg::CreateStream { recipient, start_time, end_time } => try_create_stream(
            state,
            now,
            stream_owner,
            validated_owner,
            recipient,
            validated_recipient,
            amount,
            start_time,
            end_time,
        ),
    }
}

/// Dispatches a state-changing request: a funding notification creates a
/// stream, a withdrawal settles one. `validated_owner` and
/// `validated_recipient` are the canonical forms the host's address
/// validator returned for the depositor and the named recipient of a
/// funding notification; a withdrawal ignores them.
pub fn execute(
    state: &mut State,
    now: u64,
    sender: String,
    msg: ExecuteMsg,
    validated_owner: String,
    validated_recipient: String,
) -> (r: Result<ExecuteResponse, ContractError>)
    requires
        state_invariant(*old(state)),
        old(state).stream_seq < u64::MAX,
    ensures
        msg matches ExecuteMsg::Receive(wrapped) ==> ({
            let out = receive_outcome(
                *old(state),
                now,
                sender@,
                wrapped,
                validated_owner@,
                validated_recipient@,
            );
            &&& (out matches Err(e) ==> r == Err::<ExecuteResponse, ContractError>(e)
                && *final(state) == *old(state))
            &&& (out matches Ok(id) ==> r == Ok::<ExecuteResponse, ContractError>(
                ExecuteResponse::StreamCreated { id },
            ) && (wrapped.msg matches ReceiveMsg::CreateStream {
                recipient,
                start_time,
                end_time,
            } && create_transition(
                *old(state),
                *final(state),
                id,
                validated_owner,
                validated_recipient,
                wrapped.amount,
                effective_start(start_time, now),
                end_time,
            )))
        }),
        msg matches ExecuteMsg::Withdraw { id } ==> withdraw_transition(
            *old(state),
            *final(state),
            now,
            sender@,
            id,
            r,
        ),
        state_invariant(*final(state)),
{
    match msg {
        ExecuteMsg::Receive(wrapped) => {
            match execute_receive(state, now, sender, wrapped, validated_owner, validated_recipient) {
                Ok(id) => Ok(ExecuteResponse::StreamCreated { id }),
                Err(e) => Err(e),
            }
        },
        ExecuteMsg::Withdraw { id } => try_withdraw(state, now, sender, id),
    }
}

/// Records the configuration singleton and starts the id counter at zero.
/// `owner` in the message is the declared administrative owner, already
/// found address-valid by the host (the host drops an invalid declaration
/// and lets the fallback apply); the request sender is the fallback.
pub fn instantiate(msg: InstantiateMsg, sender: String) -> (st: State)
    ensures
        st.config.owner@ == (match msg.owner {
            Some(o) => o@,
            None => sender@,
        }),
        st.config.cw20_addr@ == msg.cw20_addr@,
        st.stream_seq == 0,
        st.streams@.len() == 0,
        st.users_streams@.len() == 0,
        state_invariant(st),
{
    let owner: String = match msg.owner {
        Some(o) => o,
        None => sender,
    };
    State {
        config: Config { owner, cw20_addr: msg.cw20_addr },
        stream_seq: 0,
        streams: Vec::new(),
        users_streams: Vec::new(),
    }
}

/// Whether a stream projection reports exactly the given stream.
pub open spec fn stream_reported(resp: StreamResponse, s: Stream) -> bool {
    &&& resp.owner@ == s.owner@
    &&& resp.recipient@ == s.recipient@
    &&& resp.amount == s.amount
    &&& resp.claimed_amount == s.claimed_amount
    &&& resp.start_time == s.start_time
    &&& resp.end_time == s.end_time
    &&& resp.rate_per_second == s.rate_per_second
}

/// Reports the configuration. Reads only.
pub fn query_config(state: &State) -> (r: ConfigResponse)
    ensures
        r.owner@ == state.config.owner@,
        r.cw20_addr@ == state.config.cw20_addr@,
{
    ConfigResponse {
        owner: state.config.owner.clone(),
        cw20_addr: state.config.cw20_addr.clone(),
    }
}

/// Reports the stream stored under `id`, or `NotFound`. Reads only.
pub fn query_stream(state: &State, id: u64) -> (r: Result<StreamResponse, ContractError>)
    ensures
        r is Err <==> (id == 0 || id > state.streams@.len()),
        r is Err ==> r == Err::<StreamResponse, ContractError>(ContractError::NotFound),
        r matches Ok(resp) ==> stream_reported(resp, state.streams@[id - 1]),
{
    if id == 0 || id > state.streams.len() as u64 {
        return Err(ContractError::NotFound);
    }
    let idx: usize = (id - 1) as usize;
    let s = &state.streams[idx];
    Ok(
        StreamResponse {
            owner: s.owner.clone(),
            recipient: s.recipient.clone(),
            amount: s.amount,
            claimed_amount: s.claimed_amount,
            start_time: s.start_time,
            end_time: s.end_time,
            rate_per_second: s.rate_per_second,
        },
    )
}

/// Reports every stream id in which `addr` participates, oldest first; the
/// empty list for an unknown address, never an error. Reads only.
pub fn query_ids(state: &State, addr: &String) -> (r: IdsResponse)
    ensures
        r.ids@ == ids_of(state.users_streams@, addr@),
{
    IdsResponse { ids: lookup_ids(&state.users_streams, addr) }
}

/// Dispatches a read-only request. The state is borrowed immutably, so no
/// query can change it, and each answer is a function of the state alone.
pub fn query(state: &State, msg: QueryMsg) -> (r: Result<QueryAnswer, ContractError>)
    ensures
        msg matches QueryMsg::GetConfig {  } ==> r matches Ok(a) && a matches QueryAnswer::Config(c)
            && c.owner@ == state.config.owner@ && c.cw20_addr@ == state.config.cw20_addr@,
        msg matches QueryMsg::GetStream { id } ==> ({
            &&& ((id == 0 || id > state.streams@.len()) <==> r is Err)
            &&& (r is Err ==> r == Err::<QueryAnswer, ContractError>(ContractError::NotFound))
            &&& (r matches Ok(a) ==> a matches QueryAnswer::Stream(resp) && stream_reported(
                resp,
                state.streams@[id - 1],
            ))
        }),
        msg matches QueryMsg::GetIds { addr } ==> r matches Ok(a) && a matches QueryAnswer::Ids(
            resp,
        ) && resp.ids@ == ids_of(state.users_streams@, addr@),
{
    match msg {
        QueryMsg::GetConfig {  } => Ok(QueryAnswer::Config(query_config(state))),
        QueryMsg::GetStream { id } => {
            match query_stream(state, id) {
                Ok(resp) => Ok(QueryAnswer::Stream(resp)),
                Err(e) => Err(e),
            }
        },
        QueryMsg::GetIds { addr } => Ok(QueryAnswer::Ids(query_ids(state, &addr))),
    }
}

/// No double payment: after any successful withdrawal the cumulative
/// claim equals exactly what the schedule has unlocked, which never
/// exceeds the deposit. A withdrawal at or after maturity settles the
/// stream completely: the claim reaches the deposit exactly, and every
/// later attempt is rejected as fully claimed.
pub proof fn lemma_no_double_payment(s: Stream, now: u64)
    requires
        stream_invariant(s),
        s.start_time < now,
    ensures
        s.claimed_amount + due_at(s, now) <= s.amount,
        now >= s.end_time ==> s.claimed_amount + due_at(s, now) == s.amount,
{
    lemma_mul_inequality(vested_seconds(s, now), duration_of(s), s.rate_per_second as int);
    lemma_mul_is_commutative(duration_of(s), s.rate_per_second as int);
}

/// The stream as a successful withdrawal at `now` leaves it: the claim
/// grows to exactly what the schedule has unlocked by `now`, bonus
/// included.
pub open spec fn settled(s: Stream, now: u64) -> Stream {
    Stream { claimed_amount: (unlocked_at(s, now) + bonus_at(s, now)) as u128, ..s }
}

/// Total paid across a run of withdrawal attempts by `caller` at the given
/// times, each successful one settling the stream before the next attempt.
pub open spec fn run_payout(s: Stream, caller: Seq<char>, times: Seq<u64>) -> int
    decreases times.len(),
{
    if times.len() == 0 {
        0
    } else {
        let rest = times.subrange(1, times.len() as int);
        match withdraw_outcome(s, caller, times[0]) {
            Ok(paid) => paid + run_payout(settled(s, times[0]), caller, rest),
            Err(_) => run_payout(s, caller, rest),
        }
    }
}

/// No double payment, over whole runs: across any sequence of withdrawal
/// attempts at arbitrary times, the successful ones together never pay
/// out more than what of the deposit is still unclaimed — from a fresh
/// stream, never more than the deposit itself.
pub proof fn lemma_run_payout_bounded(s: Stream, caller: Seq<char>, times: Seq<u64>)
    requires
        stream_invariant(s),
        s.claimed_amount <= s.amount,
    ensures
        0 <= run_payout(s, caller, times) <= s.amount - s.claimed_amount,
    decreases times.len(),
{
    if times.len() > 0 {
        let t = times[0];
        let rest = times.subrange(1, times.len() as int);
        match withdraw_outcome(s, caller, t) {
            Ok(paid) => {
                lemma_no_double_payment(s, t);
                let stream = settled(s, t);
                assert(stream.claimed_amount == s.claimed_amount + due_at(s, t));
                lemma_run_payout_bounded(stream, caller, rest);
            },
            Err(_) => {
                lemma_run_payout_bounded(s, caller, rest);
            },
        }
    }
}

/// Monotonic settlement: after a successful withdrawal at `t1`, a second
/// withdrawal at `t2` inside the streaming window pays exactly
/// `rate_per_second * (t2 - t1)`, no matter how much had been claimed
/// before the first. Here `s2` is `s1` as a successful withdrawal at `t1`
/// leaves it: the same schedule, with the claim grown by what was due.
pub proof fn lemma_monotonic_settlement(s1: Stream, s2: Stream, t1: u64, t2: u64)
    requires
        s2.start_time == s1.start_time,
        s2.end_time == s1.end_time,
        s2.rate_per_second == s1.rate_per_second,
        s2.claimed_amount == s1.claimed_amount + due_at(s1, t1),
        s1.start_time < t1 <= t2,
        t2 < s1.end_time,
    ensures
        due_at(s2, t2) == s1.rate_per_second * (t2 - t1),
{
    lemma_mul_is_distributive_sub_other_way(
        s1.rate_per_second as int,
        t2 - s1.start_time,
        t1 - s1.start_time,
    );
    lemma_mul_is_commutative(s1.rate_per_second as int, t2 - t1);
}

} // verus!
