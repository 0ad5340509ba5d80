//! The data shared by every part of the faucet.
use vstd::prelude::*;

use crate::text::{ascii_lower, str_eq, to_ascii_lower};

verus! {

/// The front end through which an identity reached the faucet.
#[derive(Debug, Clone, Copy, PartialEq, Eq, Structural, Hash)]
pub enum Channel {
    Web,
    Telegram,
    Discord,
}

/// What a user may do; governs the per-request ceiling and the daily cap.
#[derive(Debug, Clone, Copy, PartialEq, Eq, Structural, Hash)]
pub enum Role {
    User,
    Privileged,
    Admin,
}

/// The state of a mint request: `Pending -> Processing -> {Completed, Failed}`.
#[derive(Debug, Clone, Copy, PartialEq, Eq, Structural, Hash)]
pub enum MintStatus {
    Pending,
    Processing,
    Completed,
    Failed,
}

/// A user known to the faucet, keyed by channel and lower-cased handle.
#[derive(Debug, Clone, PartialEq, Eq)]
pub struct User {
    pub id: u128,
    pub channel: Channel,
    pub handle: String,
    pub role: Role,
    pub domain: Option<String>,
    /// Milliseconds since the Unix epoch.
    pub last_seen_at: u64,
}

/// One request to mint `amount`, with its place in the state machine.
#[derive(Debug, Clone, PartialEq, Eq)]
pub struct MintRequest {
    pub id: u128,
    pub user_id: u128,
    pub channel: Channel,
    pub amount: u64,
    pub status: MintStatus,
    pub tx_hash: Option<String>,
    pub error: Option<String>,
    /// Milliseconds since the Unix epoch.
    pub requested_at: u64,
    pub processed_at: Option<u64>,
    pub attempt: u16,
}

/// The per-user, per-day record of what was minted.
#[derive(Debug, Clone, PartialEq, Eq)]
pub struct Quota {
    pub id: u128,
    pub user_id: u128,
    /// Days since the Unix epoch (UTC).
    pub day: u64,
    pub minted_total: u64,
    pub success_count: u64,
}

/// The terminal form of a request, as handed to the ledger.
#[derive(Debug, Clone, PartialEq, Eq)]
pub struct MintOutcome {
    pub request: MintRequest,
    pub tx_hash: Option<String>,
}

/// One entry of the append-only failure log.
#[derive(Debug, Clone, PartialEq, Eq)]
pub struct MintFailure {
    pub request_id: u128,
    pub failed_at: u64,
    pub reason: String,
}

/// One runtime override of the configuration: the last write of a key wins.
#[derive(Debug, Clone, PartialEq, Eq)]
pub struct SystemConfig {
    pub id: u128,
    pub key: String,
    pub value: String,
    pub description: Option<String>,
    pub created_at: u64,
    pub updated_at: u64,
}

/// Overrides of the limit configuration; `None` leaves a limit as configured.
#[derive(Debug, Clone, Copy, PartialEq, Eq, Structural)]
pub struct LimitConfigUpdate {
    pub default_amount: Option<u64>,
    pub default_daily_cap: Option<u64>,
    pub privileged_amount: Option<u64>,
    pub privileged_daily_cap: Option<u64>,
}

/// A stored value that names no known channel, role or status.
#[derive(Debug, Clone, PartialEq, Eq)]
pub enum ParseError {
    UnknownChannel(String),
    UnknownRole(String),
    UnknownStatus(String),
}

pub open spec fn channel_name(c: Channel) -> Seq<char> {
    match c {
        Channel::Web => "web"@,
        Channel::Telegram => "telegram"@,
        Channel::Discord => "discord"@,
    }
}

pub open spec fn role_name(r: Role) -> Seq<char> {
    match r {
        Role::User => "user"@,
        Role::Privileged => "privileged"@,
        Role::Admin => "admin"@,
    }
}

pub open spec fn status_name(s: MintStatus) -> Seq<char> {
    match s {
        MintStatus::Pending => "pending"@,
        MintStatus::Processing => "processing"@,
        MintStatus::Completed => "completed"@,
        MintStatus::Failed => "failed"@,
    }
}

/// The channel whose name is `s`, if any.
pub open spec fn channel_named(s: Seq<char>) -> Option<Channel> {
    if s == "web"@ {
        Some(Channel::Web)
    } else if s == "telegram"@ {
        Some(Channel::Telegram)
    } else if s == "discord"@ {
        Some(Channel::Discord)
    } else {
        None
    }
}

pub open spec fn role_named(s: Seq<char>) -> Option<Role> {
    if s == "user"@ {
        Some(Role::User)
    } else if s == "privileged"@ {
        Some(Role::Privileged)
    } else if s == "admin"@ {
        Some(Role::Admin)
    } else {
        None
    }
}

pub open spec fn status_named(s: Seq<char>) -> Option<MintStatus> {
    if s == "pending"@ {
        Some(MintStatus::Pending)
    } else if s == "processing"@ {
        Some(MintStatus::Processing)
    } else if s == "completed"@ {
        Some(MintStatus::Completed)
    } else if s == "failed"@ {
        Some(MintStatus::Failed)
    } else {
        None
    }
}

impl Channel {
    pub fn as_str(&self) -> (r: &'static str)
        ensures
            r@ == channel_name(*self),
    {
        match self {
            Channel::Web => "web",
            Channel::Telegram => "telegram",
            Channel::Discord => "discord",
        }
    }
}

impl Role {
    pub fn as_str(&self) -> (r: &'static str)
        ensures
            r@ == role_name(*self),
    {
        match self {
            Role::User => "user",
            Role::Privileged => "privileged",
            Role::Admin => "admin",
        }
    }
}

impl MintStatus {
    pub fn as_str(&self) -> (r: &'static str)
        ensures
            r@ == status_name(*self),
    {
        match self {
            MintStatus::Pending => "pending",
            MintStatus::Processing => "processing",
            MintStatus::Completed => "completed",
            MintStatus::Failed => "failed",
        }
    }

    /// Completed and Failed are terminal: no transition leaves them.
    pub open spec fn is_terminal(self) -> bool {
        self == MintStatus::Completed || self == MintStatus::Failed
    }
}

/// A terminal request carries exactly what its status calls for: a transfer
/// reference when Completed, an error when Failed, and a processing time in both cases.
pub open spec fn settled(r: MintRequest) -> bool {
    &&& r.status == MintStatus::Completed ==> r.tx_hash is Some && r.error is None
        && r.processed_at is Some
    &&& r.status == MintStatus::Failed ==> r.tx_hash is None && r.error is Some
        && r.processed_at is Some
}

pub fn clone_text(o: &Option<String>) -> (r: Option<String>)
    ensures
        r == *o,
{
    match o {
        Some(s) => Some(s.clone()),
        None => None,
    }
}

impl User {
    /// A field-by-field copy.
    pub fn duplicate(&self) -> (r: User)
        ensures
            r == *self,
    {
        User {
            id: self.id,
            channel: self.channel,
            handle: self.handle.clone(),
            role: self.role,
            domain: clone_text(&self.domain),
            last_seen_at: self.last_seen_at,
        }
    }
}

impl MintRequest {
    /// A field-by-field copy.
    pub fn duplicate(&self) -> (r: MintRequest)
        ensures
            r == *self,
    {
        MintRequest {
            id: self.id,
            user_id: self.user_id,
            channel: self.channel,
            amount: self.amount,
            status: self.status,
            tx_hash: clone_text(&self.tx_hash),
            error: clone_text(&self.error),
            requested_at: self.requested_at,
            processed_at: self.processed_at,
            attempt: self.attempt,
        }
    }
}

impl Quota {
    /// A field-by-field copy.
    pub fn duplicate(&self) -> (r: Quota)
        ensures
            r == *self,
    {
        Quota {
            id: self.id,
            user_id: self.user_id,
            day: self.day,
            minted_total: self.minted_total,
            success_count: self.success_count,
        }
    }
}

/// Reads a channel name, ignoring ASCII case.
pub fn channel_from_db(value: &str) -> (r: Result<Channel, ParseError>)
    ensures
        channel_named(ascii_lower(value@)) matches Some(c) ==> r == Ok::<Channel, ParseError>(c),
        channel_named(ascii_lower(value@)) is None ==> (r matches Err(ParseError::UnknownChannel(v))
            && v@ == ascii_lower(value@)),
{
    let lower = to_ascii_lower(value);
    if str_eq(lower.as_str(), "web") {
        Ok(Channel::Web)
    } else if str_eq(lower.as_str(), "telegram") {
        Ok(Channel::Telegram)
    } else if str_eq(lower.as_str(), "discord") {
        Ok(Channel::Discord)
    } else {
        Err(ParseError::UnknownChannel(lower))
    }
}

impl std::str::FromStr for Channel {
    type Err = ParseError;

    fn from_str(s: &str) -> Result<Channel, ParseError> {
        channel_from_db(s)
    }
}

impl std::str::FromStr for Role {
    type Err = ParseError;

    fn from_str(s: &str) -> Result<Role, ParseError> {
        role_from_db(s)
    }
}

impl std::str::FromStr for MintStatus {
    type Err = ParseError;

    fn from_str(s: &str) -> Result<MintStatus, ParseError> {
        status_from_db(s)
    }
}

/// Reads a role name, ignoring ASCII case.
pub fn role_from_db(value: &str) -> (r: Result<Role, ParseError>)
    ensures
        role_named(ascii_lower(value@)) matches Some(x) ==> r == Ok::<Role, ParseError>(x),
        role_named(ascii_lower(value@)) is None ==> (r matches Err(ParseError::UnknownRole(v))
            && v@ == ascii_lower(value@)),
{
    let lower = to_ascii_lower(value);
    if str_eq(lower.as_str(), "user") {
        Ok(Role::User)
    } else if str_eq(lower.as_str(), "privileged") {
        Ok(Role::Privileged)
    } else if str_eq(lower.as_str(), "admin") {
        Ok(Role::Admin)
    } else {
        Err(ParseError::UnknownRole(lower))
    }
}

/// Reads a status name, ignoring ASCII case.
pub fn status_from_db(value: &str) -> (r: Result<MintStatus, ParseError>)
    ensures
        status_named(ascii_lower(value@)) matches Some(x) ==> r == Ok::<MintStatus, ParseError>(x),
        status_named(ascii_lower(value@)) is None ==> (r matches Err(ParseError::UnknownStatus(v))
            && v@ == ascii_lower(value@)),
{
    let lower = to_ascii_lower(value);
    if str_eq(lower.as_str(), "pending") {
        Ok(MintStatus::Pending)
    } else if str_eq(lower.as_str(), "processing") {
        Ok(MintStatus::Processing)
    } else if str_eq(lower.as_str(), "completed") {
        Ok(MintStatus::Completed)
    } else if str_eq(lower.as_str(), "failed") {
        Ok(MintStatus::Failed)
    } else {
        Err(ParseError::UnknownStatus(lower))
    }
}

/// Reads a role name exactly as written (no case folding).
pub fn parse_role(s: &str) -> (r: Result<Role, ParseError>)
    ensures
        role_named(s@) matches Some(x) ==> r == Ok::<Role, ParseError>(x),
        role_named(s@) is None ==> (r matches Err(ParseError::UnknownRole(v)) && v@ == s@),
{
    if str_eq(s, "user") {
        Ok(Role::User)
    } else if str_eq(s, "privileged") {
        Ok(Role::Privileged)
    } else if str_eq(s, "admin") {
        Ok(Role::Admin)
    } else {
        Err(ParseError::UnknownRole(s.to_owned()))
    }
}

/// Reads a channel name exactly as written (no case folding).
pub fn parse_channel(s: &str) -> (r: Result<Channel, ParseError>)
    ensures
        channel_named(s@) matches Some(x) ==> r == Ok::<Channel, ParseError>(x),
        channel_named(s@) is None ==> (r matches Err(ParseError::UnknownChannel(v)) && v@ == s@),
{
    if str_eq(s, "web") {
        Ok(Channel::Web)
    } else if str_eq(s, "telegram") {
        Ok(Channel::Telegram)
    } else if str_eq(s, "discord") {
        Ok(Channel::Discord)
    } else {
        Err(ParseError::UnknownChannel(s.to_owned()))
    }
}

} // verus!
