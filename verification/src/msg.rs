use vstd::prelude::*;

verus! {

/// Initialization request: an optional administrative owner (the host falls
/// back to the request sender when it is absent) and the address of the one
/// token contract whose deposits this engine accepts.
#[derive(Clone, Debug, PartialEq)]
pub struct InstantiateMsg {
    pub owner: Option<String>,
    pub cw20_addr: String,
}

/// A token-deposit notification: the token contract reports that `sender`
/// deposited `amount`, together with the instruction the depositor attached.
#[derive(Clone, Debug, PartialEq)]
pub struct FundingNotification {
    pub sender: String,
    pub amount: u128,
    pub msg: ReceiveMsg,
}

/// A state-changing request.
#[derive(Clone, Debug, PartialEq)]
pub enum ExecuteMsg {
    Receive(FundingNotification),
    Withdraw {
        /// Stream id.
        id: u64,
    },
}

/// The instruction a depositor attaches to a token deposit.
#[derive(Clone, Debug, PartialEq)]
pub enum ReceiveMsg {
    CreateStream { recipient: String, start_time: u64, end_time: u64 },
}

/// A read-only request.
#[derive(Clone, Debug, PartialEq)]
pub enum QueryMsg {
    GetConfig {},
    GetStream { id: u64 },
    GetIds { addr: String },
}

/// Answer to `GetConfig`.
#[derive(Clone, Debug, PartialEq)]
pub struct ConfigResponse {
    pub owner: String,
    pub cw20_addr: String,
}

/// Answer to `GetStream`: a full projection of one stream.
#[derive(Clone, Debug, PartialEq)]
pub struct StreamResponse {
    pub owner: String,
    pub recipient: String,
    pub amount: u128,
    pub claimed_amount: u128,
    pub start_time: u64,
    pub end_time: u64,
    pub rate_per_second: u128,
}

/// Answer to `GetIds`: the ids of every stream the address participates in.
#[derive(Clone, Debug, PartialEq)]
pub struct IdsResponse {
    pub ids: Vec<u64>,
}

/// Answer to a query, one variant per query kind.
#[derive(Clone, Debug, PartialEq)]
pub enum QueryAnswer {
    Config(ConfigResponse),
    Stream(StreamResponse),
    Ids(IdsResponse),
}

/// Outcome of a successful state-changing request. A `Withdrawn` answer
/// doubles as the outgoing instruction "transfer `amount` of the configured
/// token to `recipient`", which the host forwards to the token contract.
#[derive(Clone, Debug, PartialEq)]
pub enum ExecuteResponse {
    StreamCreated { id: u64 },
    Withdrawn { stream_id: u64, amount: u128, recipient: String },
}

} // verus!
