use cw_stream::contract::{
    execute, execute_receive, instantiate, query, query_config, query_ids, query_stream,
    try_create_stream, try_withdraw,
};
use cw_stream::error::ContractError;
use cw_stream::msg::{
    ExecuteMsg, ExecuteResponse, FundingNotification, InstantiateMsg, QueryAnswer, QueryMsg,
    ReceiveMsg,
};
use cw_stream::state::State;

fn s(text: &str) -> String {
    text.to_string()
}

fn setup() -> State {
    instantiate(
        InstantiateMsg { owner: Some(s("admin")), cw20_addr: s("token") },
        s("creator"),
    )
}

fn create(
    st: &mut State,
    owner: &str,
    recipient: &str,
    amount: u128,
    start: u64,
    end: u64,
    now: u64,
) -> Result<u64, ContractError> {
    try_create_stream(st, now, s(owner), s(owner), s(recipient), s(recipient), amount, start, end)
}

#[test]
fn instantiate_records_declared_owner() {
    let st = setup();
    let config = query_config(&st);
    assert_eq!(config.owner, s("admin"));
    assert_eq!(config.cw20_addr, s("token"));
    assert_eq!(st.stream_seq, 0);
}

#[test]
fn instantiate_falls_back_to_sender() {
    let st = instantiate(InstantiateMsg { owner: None, cw20_addr: s("token") }, s("creator"));
    assert_eq!(query_config(&st).owner, s("creator"));
}

#[test]
fn create_derives_exact_rate() {
    let mut st = setup();
    let id = create(&mut st, "alice", "bob", 1000, 0, 110, 10).unwrap();
    assert_eq!(id, 1);
    let stream = &st.streams[0];
    assert_eq!(stream.start_time, 10);
    assert_eq!(stream.end_time, 110);
    assert_eq!(stream.rate_per_second, 10);
    assert_eq!(stream.last_amount, 0);
    assert_eq!(stream.claimed_amount, 0);
    assert_eq!(stream.rate_per_second * 100 + stream.last_amount, stream.amount);
}

#[test]
fn create_keeps_remainder_exact() {
    let mut st = setup();
    create(&mut st, "alice", "bob", 1005, 20, 120, 10).unwrap();
    let stream = &st.streams[0];
    assert_eq!(stream.rate_per_second, 10);
    assert_eq!(stream.last_amount, 5);
    assert_eq!(stream.rate_per_second * 100 + stream.last_amount, 1005);
}

#[test]
fn zero_start_time_means_creation_time() {
    let mut st = setup();
    create(&mut st, "alice", "bob", 200, 0, 142, 42).unwrap();
    assert_eq!(st.streams[0].start_time, 42);
}

#[test]
fn full_flow_pays_everything_exactly_once() {
    let mut st = setup();
    create(&mut st, "alice", "bob", 1000, 0, 110, 10).unwrap();
    let halfway = try_withdraw(&mut st, 60, s("bob"), 1).unwrap();
    assert_eq!(
        halfway,
        ExecuteResponse::Withdrawn { stream_id: 1, amount: 500, recipient: s("bob") }
    );
    let rest = try_withdraw(&mut st, 110, s("bob"), 1).unwrap();
    assert_eq!(
        rest,
        ExecuteResponse::Withdrawn { stream_id: 1, amount: 500, recipient: s("bob") }
    );
    assert_eq!(st.streams[0].claimed_amount, st.streams[0].amount);
    assert_eq!(
        try_withdraw(&mut st, 120, s("bob"), 1),
        Err(ContractError::StreamFullyClaimed)
    );
}

#[test]
fn remainder_released_only_at_maturity() {
    let mut st = setup();
    create(&mut st, "alice", "bob", 1005, 10, 110, 10).unwrap();
    let before = try_withdraw(&mut st, 109, s("bob"), 1).unwrap();
    assert_eq!(
        before,
        ExecuteResponse::Withdrawn { stream_id: 1, amount: 990, recipient: s("bob") }
    );
    let matured = try_withdraw(&mut st, 115, s("bob"), 1).unwrap();
    assert_eq!(
        matured,
        ExecuteResponse::Withdrawn { stream_id: 1, amount: 15, recipient: s("bob") }
    );
    assert_eq!(st.streams[0].claimed_amount, 1005);
}

#[test]
fn consecutive_withdrawals_pay_rate_times_gap() {
    let mut st = setup();
    create(&mut st, "alice", "bob", 1000, 0, 110, 10).unwrap();
    let first = try_withdraw(&mut st, 40, s("bob"), 1).unwrap();
    assert_eq!(
        first,
        ExecuteResponse::Withdrawn { stream_id: 1, amount: 300, recipient: s("bob") }
    );
    let second = try_withdraw(&mut st, 80, s("bob"), 1).unwrap();
    assert_eq!(
        second,
        ExecuteResponse::Withdrawn { stream_id: 1, amount: 400, recipient: s("bob") }
    );
    assert_eq!(st.streams[0].claimed_amount, 700);
}

#[test]
fn withdrawal_before_start_is_rejected() {
    let mut st = setup();
    create(&mut st, "alice", "bob", 1000, 50, 150, 10).unwrap();
    assert_eq!(try_withdraw(&mut st, 30, s("bob"), 1), Err(ContractError::StreamNotStarted));
    assert_eq!(try_withdraw(&mut st, 50, s("bob"), 1), Err(ContractError::StreamNotStarted));
    assert_eq!(st.streams[0].claimed_amount, 0);
}

#[test]
fn withdrawal_by_other_caller_is_rejected() {
    let mut st = setup();
    create(&mut st, "alice", "bob", 1000, 0, 110, 10).unwrap();
    assert_eq!(try_withdraw(&mut st, 60, s("alice"), 1), Err(ContractError::NotStreamRecipient));
    assert_eq!(st.streams[0].claimed_amount, 0);
}

#[test]
fn withdrawal_from_unknown_stream_is_rejected() {
    let mut st = setup();
    assert_eq!(try_withdraw(&mut st, 60, s("bob"), 0), Err(ContractError::NotFound));
    assert_eq!(try_withdraw(&mut st, 60, s("bob"), 1), Err(ContractError::NotFound));
}

#[test]
fn maximum_deposit_settles_exactly() {
    // Vesting is capped at maturity, so even the largest possible deposit
    // at the steepest rate settles without overflowing.
    let mut st = setup();
    create(&mut st, "alice", "bob", u128::MAX, 0, 11, 10).unwrap();
    assert_eq!(st.streams[0].rate_per_second, u128::MAX);
    let paid = try_withdraw(&mut st, 13, s("bob"), 1).unwrap();
    assert_eq!(
        paid,
        ExecuteResponse::Withdrawn { stream_id: 1, amount: u128::MAX, recipient: s("bob") }
    );
    assert_eq!(st.streams[0].claimed_amount, u128::MAX);
}

#[test]
fn settlement_underflow_aborts() {
    // A claim larger than what the schedule has unlocked (the block clock
    // would have to run backwards) aborts rather than wrap.
    let mut st = setup();
    create(&mut st, "alice", "bob", 1000, 10, 110, 10).unwrap();
    try_withdraw(&mut st, 100, s("bob"), 1).unwrap();
    assert_eq!(st.streams[0].claimed_amount, 900);
    assert_eq!(try_withdraw(&mut st, 50, s("bob"), 1), Err(ContractError::Arithmetic));
    assert_eq!(st.streams[0].claimed_amount, 900);
}

#[test]
fn late_withdrawal_pays_remaining_balance() {
    // Vesting stops accruing at maturity: a first withdrawal long after
    // the end pays exactly the whole deposit, never more.
    let mut st = setup();
    create(&mut st, "alice", "bob", 1005, 10, 110, 10).unwrap();
    let late = try_withdraw(&mut st, 210, s("bob"), 1).unwrap();
    assert_eq!(
        late,
        ExecuteResponse::Withdrawn { stream_id: 1, amount: 1005, recipient: s("bob") }
    );
    assert_eq!(st.streams[0].claimed_amount, 1005);
    assert_eq!(
        try_withdraw(&mut st, 220, s("bob"), 1),
        Err(ContractError::StreamFullyClaimed)
    );
}

#[test]
fn recipient_equal_to_admin_is_rejected() {
    let mut st = setup();
    assert_eq!(
        create(&mut st, "alice", "admin", 1000, 0, 110, 10),
        Err(ContractError::InvalidRecipient)
    );
    assert_eq!(st.stream_seq, 0);
    assert_eq!(query_stream(&st, 1), Err(ContractError::NotFound));
}

#[test]
fn non_canonical_owner_is_rejected() {
    let mut st = setup();
    let r = try_create_stream(
        &mut st,
        10,
        s("Alice"),
        s("alice"),
        s("bob"),
        s("bob"),
        1000,
        0,
        110,
    );
    assert_eq!(r, Err(ContractError::InvalidOwner));
    assert_eq!(st.stream_seq, 0);
}

#[test]
fn non_canonical_recipient_is_rejected() {
    let mut st = setup();
    let r = try_create_stream(
        &mut st,
        10,
        s("alice"),
        s("alice"),
        s("Bob"),
        s("bob"),
        1000,
        0,
        110,
    );
    assert_eq!(r, Err(ContractError::InvalidRecipient));
    assert_eq!(st.stream_seq, 0);
}

#[test]
fn inverted_or_past_window_is_rejected() {
    let mut st = setup();
    assert_eq!(
        create(&mut st, "alice", "bob", 1000, 120, 110, 10),
        Err(ContractError::InvalidStartTime)
    );
    assert_eq!(
        create(&mut st, "alice", "bob", 1000, 5, 110, 10),
        Err(ContractError::InvalidStartTime)
    );
    assert_eq!(st.stream_seq, 0);
}

#[test]
fn amount_below_duration_is_rejected() {
    let mut st = setup();
    assert_eq!(
        create(&mut st, "alice", "bob", 99, 10, 110, 10),
        Err(ContractError::InvalidDuration)
    );
}

#[test]
fn empty_window_aborts_instead_of_dividing_by_zero() {
    let mut st = setup();
    assert_eq!(create(&mut st, "alice", "bob", 1000, 20, 20, 10), Err(ContractError::Arithmetic));
    assert_eq!(st.stream_seq, 0);
}

#[test]
fn notification_from_wrong_token_is_rejected() {
    let mut st = setup();
    let wrapped = FundingNotification {
        sender: s("alice"),
        amount: 1000,
        msg: ReceiveMsg::CreateStream { recipient: s("bob"), start_time: 0, end_time: 110 },
    };
    let r = execute_receive(&mut st, 10, s("impostor"), wrapped, s("alice"), s("bob"));
    assert_eq!(r, Err(ContractError::Unauthorized));
    assert_eq!(st.stream_seq, 0);
}

#[test]
fn execute_dispatches_receive_and_withdraw() {
    let mut st = setup();
    let wrapped = FundingNotification {
        sender: s("alice"),
        amount: 1000,
        msg: ReceiveMsg::CreateStream { recipient: s("bob"), start_time: 0, end_time: 110 },
    };
    let created = execute(
        &mut st,
        10,
        s("token"),
        ExecuteMsg::Receive(wrapped),
        s("alice"),
        s("bob"),
    );
    assert_eq!(created, Ok(ExecuteResponse::StreamCreated { id: 1 }));
    let withdrawn = execute(
        &mut st,
        60,
        s("bob"),
        ExecuteMsg::Withdraw { id: 1 },
        s(""),
        s(""),
    );
    assert_eq!(
        withdrawn,
        Ok(ExecuteResponse::Withdrawn { stream_id: 1, amount: 500, recipient: s("bob") })
    );
}

#[test]
fn participant_index_tracks_both_parties() {
    let mut st = setup();
    create(&mut st, "alice", "bob", 1000, 0, 110, 10).unwrap();
    create(&mut st, "alice", "carol", 2000, 0, 210, 10).unwrap();
    assert_eq!(query_ids(&st, &s("alice")).ids, vec![1, 2]);
    assert_eq!(query_ids(&st, &s("bob")).ids, vec![1]);
    assert_eq!(query_ids(&st, &s("carol")).ids, vec![2]);
    assert_eq!(query_ids(&st, &s("nobody")).ids, Vec::<u64>::new());
}

#[test]
fn self_stream_is_rejected() {
    let mut st = setup();
    assert_eq!(
        create(&mut st, "alice", "alice", 1000, 0, 110, 10),
        Err(ContractError::InvalidRecipient)
    );
    assert_eq!(st.stream_seq, 0);
    assert_eq!(query_ids(&st, &s("alice")).ids, Vec::<u64>::new());
}

#[test]
fn queries_are_idempotent() {
    let mut st = setup();
    create(&mut st, "alice", "bob", 1000, 0, 110, 10).unwrap();
    let first = query_stream(&st, 1).unwrap();
    let second = query_stream(&st, 1).unwrap();
    assert_eq!(first, second);
    assert_eq!(query_ids(&st, &s("alice")).ids, query_ids(&st, &s("alice")).ids);
    assert_eq!(st.streams[0].claimed_amount, 0);
}

#[test]
fn query_dispatches_every_kind() {
    let mut st = setup();
    create(&mut st, "alice", "bob", 1000, 0, 110, 10).unwrap();
    match query(&st, QueryMsg::GetConfig {}).unwrap() {
        QueryAnswer::Config(config) => {
            assert_eq!(config.owner, s("admin"));
            assert_eq!(config.cw20_addr, s("token"));
        },
        other => panic!("expected a config answer, got {:?}", other),
    }
    match query(&st, QueryMsg::GetStream { id: 1 }).unwrap() {
        QueryAnswer::Stream(stream) => {
            assert_eq!(stream.owner, s("alice"));
            assert_eq!(stream.recipient, s("bob"));
            assert_eq!(stream.amount, 1000);
            assert_eq!(stream.claimed_amount, 0);
            assert_eq!(stream.start_time, 10);
            assert_eq!(stream.end_time, 110);
            assert_eq!(stream.rate_per_second, 10);
        },
        other => panic!("expected a stream answer, got {:?}", other),
    }
    assert_eq!(query(&st, QueryMsg::GetStream { id: 7 }), Err(ContractError::NotFound));
    match query(&st, QueryMsg::GetIds { addr: s("bob") }).unwrap() {
        QueryAnswer::Ids(answer) => assert_eq!(answer.ids, vec![1]),
        other => panic!("expected an ids answer, got {:?}", other),
    }
}
