//! The bridge relay: it runs a command stream that mints wrapped tokens and
//! advances the status of each swap, and records unwrap requests against
//! burnt tokens.

use std::collections::HashMap;
use vstd::prelude::*;
use crate::bytes::{
    append_bytes,
    append_u128_le,
    append_u64_le,
    decode_field,
    field_value,
    le_bytes,
    leading_bytes_value,
    leading_u128,
    word_at,
    word_from,
    words_equal,
};
use crate::crypto::{keccak256, keccak256_of};
use crate::token::{LedgerView, Token};

verus! {

broadcast use vstd::std_specs::hash::group_hash_axioms;

/// Why the relay refuses a call or a command.
#[derive(Debug, PartialEq, Eq, Clone, Copy, Structural)]
pub enum Error {
    NotNebula,
    InvalidRequest,
    NotFound,
    ErrorMintingTokens,
    InvalidRequestStatus,
    TokenError,
}

/// Where a swap stands. A swap starts as `New` and leaves it once.
#[derive(Debug, PartialEq, Eq, Clone, Copy, Structural)]
pub enum RequestStatus {
    /// No status yet: also what a swap id that was never used reads as.
    Unset,
    New,
    Rejected,
    Success,
    Returned,
}

/// The opcode of a mint command, the letter `m`.
pub const OP_MINT: u8 = 109;

/// The opcode of a status change, the letter `c`.
pub const OP_CHANGE: u8 = 99;

/// The status that a number stands for.
pub open spec fn status_from(item: u128) -> Option<RequestStatus> {
    if item == 0 {
        Some(RequestStatus::Unset)
    } else if item == 1 {
        Some(RequestStatus::New)
    } else if item == 2 {
        Some(RequestStatus::Rejected)
    } else if item == 3 {
        Some(RequestStatus::Success)
    } else if item == 4 {
        Some(RequestStatus::Returned)
    } else {
        None
    }
}

impl RequestStatus {
    /// Decodes a status; a number that names none is refused.
    pub fn try_from(item: u128) -> (out: Result<RequestStatus, Error>)
        ensures
            out == match status_from(item) {
                Some(status) => Ok::<RequestStatus, Error>(status),
                None => Err::<RequestStatus, Error>(Error::InvalidRequestStatus),
            },
    {
        if item == 0 {
            Ok(RequestStatus::Unset)
        } else if item == 1 {
            Ok(RequestStatus::New)
        } else if item == 2 {
            Ok(RequestStatus::Rejected)
        } else if item == 3 {
            Ok(RequestStatus::Success)
        } else if item == 4 {
            Ok(RequestStatus::Returned)
        } else {
            Err(Error::InvalidRequestStatus)
        }
    }
}

/// A request to release on the home chain what was burnt here.
#[derive(Debug, PartialEq, Eq, Clone, Copy)]
pub struct UnwrapRequest {
    pub home_address: [u8; 32],
    pub foreign_address: [u8; 32],
    pub ammount: u128,
}

/// One command of a stream.
#[derive(Debug, PartialEq, Eq, Clone, Copy)]
pub enum Command {
    Mint { swap_id: u128, ammount: u128, receiver: [u8; 32] },
    Change { swap_id: u128, new_status: u128 },
}

/// The command whose opcode stands at `at`, and the position after it. There
/// is none where the opcode is unknown, the payload is cut short or an
/// integer field does not fit 128 bits. A mint carries the swap id, the
/// amount and the receiver, a change the swap id and the new status, each in
/// 32 bytes, integers in big-endian order.
pub open spec fn command_at(data: Seq<u8>, at: int) -> Option<(Command, int)> {
    if data[at] == OP_MINT {
        let swap_id = field_value(data.subrange(at + 1, at + 33));
        let ammount = field_value(data.subrange(at + 33, at + 65));
        if at + 97 <= data.len() && swap_id is Some && ammount is Some {
            Some(
                (
                    Command::Mint {
                        swap_id: swap_id.unwrap(),
                        ammount: ammount.unwrap(),
                        receiver: word_from(data.subrange(at + 65, at + 97)),
                    },
                    at + 97,
                ),
            )
        } else {
            None
        }
    } else if data[at] == OP_CHANGE {
        let swap_id = field_value(data.subrange(at + 1, at + 33));
        let new_status = field_value(data.subrange(at + 33, at + 65));
        if at + 65 <= data.len() && swap_id is Some && new_status is Some {
            Some(
                (
                    Command::Change { swap_id: swap_id.unwrap(), new_status: new_status.unwrap() },
                    at + 65,
                ),
            )
        } else {
            None
        }
    } else {
        None
    }
}

/// The statuses, the ledger and the result after one step of the relay.
pub struct Step {
    pub statuses: Map<u128, RequestStatus>,
    pub ledger: LedgerView,
    pub result: Result<(), Error>,
}

/// A mint: refused with `InvalidRequestStatus` where the swap id was used
/// before, and with `ErrorMintingTokens` where the ledger refuses the relay
/// or the amount does not fit; otherwise the ledger mints and the swap is
/// `New`. A refused mint changes nothing.
pub open spec fn mint_step(
    statuses: Map<u128, RequestStatus>,
    ledger: LedgerView,
    relay: [u8; 32],
    swap_id: u128,
    ammount: u128,
    receiver: [u8; 32],
) -> Step {
    if statuses.contains_key(swap_id) {
        Step { statuses, ledger, result: Err(Error::InvalidRequestStatus) }
    } else if ledger.deployers.contains(relay) || ledger.mint_overflows(ammount, receiver) {
        Step { statuses, ledger, result: Err(Error::ErrorMintingTokens) }
    } else {
        Step {
            statuses: statuses.insert(swap_id, RequestStatus::New),
            ledger: ledger.minted(ammount, receiver),
            result: Ok(()),
        }
    }
}

/// A status change is allowed where the swap is `New` and the number names
/// a status.
pub open spec fn change_allowed(
    statuses: Map<u128, RequestStatus>,
    swap_id: u128,
    new_status: u128,
) -> bool {
    statuses.contains_key(swap_id) && statuses[swap_id] == RequestStatus::New && status_from(
        new_status,
    ) is Some
}

/// A status change: an allowed one gives the swap its new status; any other
/// is refused with `InvalidRequestStatus` and changes nothing.
pub open spec fn change_step(
    statuses: Map<u128, RequestStatus>,
    ledger: LedgerView,
    swap_id: u128,
    new_status: u128,
) -> Step {
    if change_allowed(statuses, swap_id, new_status) {
        Step {
            statuses: statuses.insert(swap_id, status_from(new_status).unwrap()),
            ledger,
            result: Ok(()),
        }
    } else {
        Step { statuses, ledger, result: Err(Error::InvalidRequestStatus) }
    }
}

/// One command applied.
pub open spec fn command_step(
    statuses: Map<u128, RequestStatus>,
    ledger: LedgerView,
    relay: [u8; 32],
    command: Command,
) -> Step {
    match command {
        Command::Mint { swap_id, ammount, receiver } => mint_step(
            statuses,
            ledger,
            relay,
            swap_id,
            ammount,
            receiver,
        ),
        Command::Change { swap_id, new_status } => change_step(
            statuses,
            ledger,
            swap_id,
            new_status,
        ),
    }
}

/// The stream from `at` on, command by command. A refused command is passed
/// over and the stream goes on. Where no command can be read the stream
/// ends with `InvalidRequest`, and what the commands before it did stays.
pub open spec fn stream_outcome(
    statuses: Map<u128, RequestStatus>,
    ledger: LedgerView,
    relay: [u8; 32],
    data: Seq<u8>,
    at: int,
) -> Step
    decreases data.len() - at,
{
    if at < 0 || at >= data.len() {
        Step { statuses, ledger, result: Ok(()) }
    } else {
        match command_at(data, at) {
            None => Step { statuses, ledger, result: Err(Error::InvalidRequest) },
            Some((command, next)) => {
                let step = command_step(statuses, ledger, relay, command);
                stream_outcome(step.statuses, step.ledger, relay, data, next)
            },
        }
    }
}

/// The bytes that the id of an unwrap request is derived from: the caller,
/// the receiver, the block number in 8 bytes, the caller once more and the
/// amount in 16 bytes, integers least significant byte first.
pub open spec fn unwrap_preimage(sender: [u8; 32], receiver: [u8; 32], block: u64, ammount: u128) -> Seq<u8> {
    sender@ + receiver@ + le_bytes(block as nat, 8) + sender@ + le_bytes(ammount as nat, 16)
}

/// The id of an unwrap request: the first 16 bytes of the Keccak-256 digest
/// of its preimage, read as a big-endian integer.
pub open spec fn unwrap_swap_id(sender: [u8; 32], receiver: [u8; 32], block: u64, ammount: u128) -> u128 {
    leading_u128(keccak256_of(unwrap_preimage(sender, receiver, block, ammount)))
}

/// An unwrap request: refused with `TokenError` where the ledger refuses the
/// relay, the caller holds less than the amount, or the supply is smaller
/// than the amount; otherwise the ledger burns and the swap is `New`.
pub open spec fn unwrap_step(
    statuses: Map<u128, RequestStatus>,
    ledger: LedgerView,
    relay: [u8; 32],
    swap_id: u128,
    caller: [u8; 32],
    ammount: u128,
) -> Step {
    if ledger.deployers.contains(relay) || ledger.balances[caller] < ammount || ledger.supply
        < ammount {
        Step { statuses, ledger, result: Err(Error::TokenError) }
    } else {
        Step {
            statuses: statuses.insert(swap_id, RequestStatus::New),
            ledger: ledger.burnt(caller, ammount),
            result: Ok(()),
        }
    }
}

/// The bridge relay: its own account, the principal whose streams it runs,
/// the ledger's account, the status of every swap and the unwrap requests.
pub struct IBport {
    account: [u8; 32],
    nebula: [u8; 32],
    token: [u8; 32],
    swap_statuses: HashMap<u128, RequestStatus>,
    unwrap_requests: HashMap<u128, UnwrapRequest>,
}

impl IBport {
    /// The relay's own account, under which it calls the ledger.
    pub closed spec fn account(&self) -> [u8; 32] {
        self.account
    }

    /// The principal whose command streams the relay runs.
    pub closed spec fn relay_principal(&self) -> [u8; 32] {
        self.nebula
    }

    /// The account of the ledger.
    pub closed spec fn ledger_account(&self) -> [u8; 32] {
        self.token
    }

    /// The status recorded for each swap id that was used.
    pub closed spec fn statuses(&self) -> Map<u128, RequestStatus> {
        self.swap_statuses@
    }

    /// The unwrap requests by swap id.
    pub closed spec fn requests(&self) -> Map<u128, UnwrapRequest> {
        self.unwrap_requests@
    }

    /// The status of a swap; one never used is `Unset`.
    pub open spec fn status_of(&self, swap_id: u128) -> RequestStatus {
        if self.statuses().contains_key(swap_id) {
            self.statuses()[swap_id]
        } else {
            RequestStatus::Unset
        }
    }

    /// The three accounts are those of `before`.
    pub open spec fn same_accounts(&self, before: IBport) -> bool {
        &&& self.account() == before.account()
        &&& self.relay_principal() == before.relay_principal()
        &&& self.ledger_account() == before.ledger_account()
    }

    /// A relay with no swap and no request yet.
    pub fn new(account: [u8; 32], nebula: [u8; 32], token: [u8; 32]) -> (out: Self)
        ensures
            out.account() == account,
            out.relay_principal() == nebula,
            out.ledger_account() == token,
            out.statuses() == Map::<u128, RequestStatus>::empty(),
            out.requests() == Map::<u128, UnwrapRequest>::empty(),
    {
        IBport {
            account,
            nebula,
            token,
            swap_statuses: HashMap::new(),
            unwrap_requests: HashMap::new(),
        }
    }

    /// The status of a swap; one never used is `Unset`.
    pub fn status(&self, swap_id: u128) -> (out: RequestStatus)
        ensures
            out == self.status_of(swap_id),
    {
        match self.swap_statuses.get(&swap_id) {
            Some(status) => *status,
            None => RequestStatus::Unset,
        }
    }

    /// The unwrap request recorded under a swap id.
    pub fn unwrap_request(&self, swap_id: u128) -> (out: Option<UnwrapRequest>)
        ensures
            out == if self.requests().contains_key(swap_id) {
                Some(self.requests()[swap_id])
            } else {
                None
            },
    {
        match self.unwrap_requests.get(&swap_id) {
            Some(request) => Some(*request),
            None => None,
        }
    }

    /// Reads the payload of a mint command, which starts at `at`.
    pub fn parse_mint(data: &[u8], at: usize) -> (out: Option<(u128, u128, [u8; 32])>)
        requires
            at + 96 <= data@.len(),
        ensures
            out is Some <==> field_value(data@.subrange(at as int, at + 32)) is Some
                && field_value(data@.subrange(at + 32, at + 64)) is Some,
            out matches Some(parts) ==> Some(parts.0) == field_value(
                data@.subrange(at as int, at + 32),
            ) && Some(parts.1) == field_value(data@.subrange(at + 32, at + 64)) && parts.2
                == word_from(data@.subrange(at + 64, at + 96)),
    {
        let n = data.len();
        assert(at + 96 <= n);
        let swap_id = decode_field(&word_at(data, at));
        let ammount = decode_field(&word_at(data, at + 32));
        let receiver = word_at(data, at + 64);
        match (swap_id, ammount) {
            (Some(swap_id), Some(ammount)) => Some((swap_id, ammount, receiver)),
            _ => None,
        }
    }

    /// Reads the payload of a status change, which starts at `at`.
    pub fn parse_change(data: &[u8], at: usize) -> (out: Option<(u128, u128)>)
        requires
            at + 64 <= data@.len(),
        ensures
            out is Some <==> field_value(data@.subrange(at as int, at + 32)) is Some
                && field_value(data@.subrange(at + 32, at + 64)) is Some,
            out matches Some(parts) ==> Some(parts.0) == field_value(
                data@.subrange(at as int, at + 32),
            ) && Some(parts.1) == field_value(data@.subrange(at + 32, at + 64)),
    {
        let n = data.len();
        assert(at + 64 <= n);
        let swap_id = decode_field(&word_at(data, at));
        let new_status = decode_field(&word_at(data, at + 32));
        match (swap_id, new_status) {
            (Some(swap_id), Some(new_status)) => Some((swap_id, new_status)),
            _ => None,
        }
    }

    /// Reads the command whose opcode stands at `at`.
    pub fn parse_command(data: &[u8], at: usize) -> (out: Option<(Command, usize)>)
        requires
            at < data@.len(),
        ensures
            match out {
                Some((command, next)) => command_at(data@, at as int) == Some(
                    (command, next as int),
                ) && at < next <= data@.len(),
                None => command_at(data@, at as int) is None,
            },
    {
        let n = data.len();
        let opcode = data[at];
        if opcode == OP_MINT {
            if n - at < 97 {
                return None;
            }
            match Self::parse_mint(data, at + 1) {
                Some((swap_id, ammount, receiver)) => Some(
                    (Command::Mint { swap_id, ammount, receiver }, at + 97),
                ),
                None => None,
            }
        } else if opcode == OP_CHANGE {
            if n - at < 65 {
                return None;
            }
            match Self::parse_change(data, at + 1) {
                Some((swap_id, new_status)) => Some(
                    (Command::Change { swap_id, new_status }, at + 65),
                ),
                None => None,
            }
        } else {
            None
        }
    }

    /// Mints `ammount` to `receiver_addr` for a swap id that was not used
    /// before, and records the swap as `New`.
    pub fn mint(&mut self, token: &mut Token, swap_id: u128, ammount: u128, receiver_addr: [u8; 32]) -> (out: Result<(), Error>)
        requires
            old(token).wf(),
        ensures
            final(token).wf(),
            final(self).same_accounts(*old(self)),
            final(self).requests() == old(self).requests(),
            mint_step(
                old(self).statuses(),
                old(token)@,
                old(self).account(),
                swap_id,
                ammount,
                receiver_addr,
            ) == (Step { statuses: final(self).statuses(), ledger: final(token)@, result: out }),
    {
        if self.swap_statuses.contains_key(&swap_id) {
            return Err(Error::InvalidRequestStatus);
        }
        if token.is_deployer(self.account) {
            return Err(Error::ErrorMintingTokens);
        }
        let held = token.balance_of(receiver_addr);
        let supply = token.total_supply();
        if held > u128::MAX - ammount || supply > u128::MAX - ammount {
            return Err(Error::ErrorMintingTokens);
        }
        match token.mint(self.account, ammount, receiver_addr) {
            Err(_) => Err(Error::ErrorMintingTokens),
            Ok(_) => {
                self.swap_statuses.insert(swap_id, RequestStatus::New);
                Ok(())
            },
        }
    }

    /// Moves a swap from `New` to the status that `new_status` names.
    pub fn change(&mut self, swap_id: u128, new_status: u128) -> (out: Result<(), Error>)
        ensures
            final(self).same_accounts(*old(self)),
            final(self).requests() == old(self).requests(),
            out is Ok <==> change_allowed(old(self).statuses(), swap_id, new_status),
            out is Ok ==> final(self).statuses() == old(self).statuses().insert(
                swap_id,
                status_from(new_status).unwrap(),
            ),
            out is Err ==> out == Err::<(), Error>(Error::InvalidRequestStatus) && final(self).statuses() == old(self).statuses(),
            forall|ledger: LedgerView|
                #[trigger] change_step(old(self).statuses(), ledger, swap_id, new_status) == (Step {
                    statuses: final(self).statuses(),
                    ledger,
                    result: out,
                }),
    {
        match self.swap_statuses.get(&swap_id) {
            Some(RequestStatus::New) => {},
            _ => {
                return Err(Error::InvalidRequestStatus);
            },
        }
        match RequestStatus::try_from(new_status) {
            Err(e) => Err(e),
            Ok(status) => {
                self.swap_statuses.insert(swap_id, status);
                Ok(())
            },
        }
    }

    /// Applies one command.
    pub fn apply_command(&mut self, token: &mut Token, command: Command) -> (out: Result<(), Error>)
        requires
            old(token).wf(),
        ensures
            final(token).wf(),
            final(self).same_accounts(*old(self)),
            final(self).requests() == old(self).requests(),
            command_step(old(self).statuses(), old(token)@, old(self).account(), command) == (Step {
                statuses: final(self).statuses(),
                ledger: final(token)@,
                result: out,
            }),
    {
        match command {
            Command::Mint { swap_id, ammount, receiver } => self.mint(
                token,
                swap_id,
                ammount,
                receiver,
            ),
            Command::Change { swap_id, new_status } => self.change(swap_id, new_status),
        }
    }

    /// Runs a command stream sent by `caller`. Only the relay principal may
    /// send one. The commands are applied in order; one that is refused is
    /// passed over. Where no command can be read the run ends with
    /// `InvalidRequest`, and what the commands before it did stays.
    pub fn attach_value(&mut self, token: &mut Token, caller: [u8; 32], data_flow: Vec<u8>) -> (out: Result<(), Error>)
        requires
            old(token).wf(),
        ensures
            final(token).wf(),
            final(self).same_accounts(*old(self)),
            final(self).requests() == old(self).requests(),
            caller != old(self).relay_principal() ==> out == Err::<(), Error>(Error::NotNebula)
                && final(self).statuses() == old(self).statuses() && final(token)@ == old(token)@,
            caller == old(self).relay_principal() ==> stream_outcome(
                old(self).statuses(),
                old(token)@,
                old(self).account(),
                data_flow@,
                0,
            ) == (Step { statuses: final(self).statuses(), ledger: final(token)@, result: out }),
    {
        if !words_equal(&caller, &self.nebula) {
            return Err(Error::NotNebula);
        }
        let data = data_flow.as_slice();
        let mut i: usize = 0;
        while i < data.len()
            invariant
                data@ == data_flow@,
                caller == old(self).relay_principal(),
                token.wf(),
                self.same_accounts(*old(self)),
                self.requests() == old(self).requests(),
                stream_outcome(
                    old(self).statuses(),
                    old(token)@,
                    old(self).account(),
                    data_flow@,
                    0,
                ) == stream_outcome(self.statuses(), token@, self.account(), data_flow@, i as int),
            decreases data.len() - i,
        {
            match Self::parse_command(data, i) {
                None => {
                    return Err(Error::InvalidRequest);
                },
                Some((command, next)) => {
                    let _ = self.apply_command(token, command);
                    i = next;
                },
            }
        }
        Ok(())
    }

    /// The digest that the id of an unwrap request is cut from.
    pub fn pack_and_encode(sender: [u8; 32], receiver: [u8; 32], block: u64, ammount: u128) -> (out: [u8; 32])
        ensures
            out@ == keccak256_of(unwrap_preimage(sender, receiver, block, ammount)),
    {
        let mut res: Vec<u8> = Vec::new();
        append_bytes(&mut res, sender.as_slice());
        append_bytes(&mut res, receiver.as_slice());
        append_u64_le(&mut res, block);
        append_bytes(&mut res, sender.as_slice());
        append_u128_le(&mut res, ammount);
        assert(res@ =~= unwrap_preimage(sender, receiver, block, ammount));
        keccak256(&res)
    }

    /// Burns `ammount` from `caller` and records an unwrap request under
    /// `swap_id`, with the swap as `New`. Where the ledger refuses, nothing
    /// changes.
    pub fn record_unwrap(&mut self, token: &mut Token, swap_id: u128, caller: [u8; 32], ammount: u128, receiver_addr: [u8; 32]) -> (out: Result<(), Error>)
        requires
            old(token).wf(),
        ensures
            final(token).wf(),
            final(self).same_accounts(*old(self)),
            unwrap_step(
                old(self).statuses(),
                old(token)@,
                old(self).account(),
                swap_id,
                caller,
                ammount,
            ) == (Step { statuses: final(self).statuses(), ledger: final(token)@, result: out }),
            out is Err ==> final(self).requests() == old(self).requests(),
            out is Ok ==> final(self).requests() == old(self).requests().insert(
                swap_id,
                UnwrapRequest { home_address: caller, foreign_address: receiver_addr, ammount },
            ),
    {
        assert(token@.balances[caller] == token.balance(caller));
        if token.is_deployer(self.account) {
            return Err(Error::TokenError);
        }
        if token.balance_of(caller) < ammount || token.total_supply() < ammount {
            return Err(Error::TokenError);
        }
        match token.burn_tokens(self.account, caller, ammount) {
            Err(_) => Err(Error::TokenError),
            Ok(_) => {
                assert(token@.balances == old(token)@.burnt(caller, ammount).balances);
                self.unwrap_requests.insert(
                    swap_id,
                    UnwrapRequest { home_address: caller, foreign_address: receiver_addr, ammount },
                );
                self.swap_statuses.insert(swap_id, RequestStatus::New);
                Ok(())
            },
        }
    }

    /// Burns `ammount` from `caller` and records the request to release it
    /// to `receiver_addr`, under the id derived from the caller, the
    /// receiver, the block number and the amount.
    pub fn create_transfer_unwrap_request(
        &mut self,
        token: &mut Token,
        caller: [u8; 32],
        block_number: u64,
        ammount: u128,
        receiver_addr: [u8; 32],
    ) -> (out: Result<(), Error>)
        requires
            old(token).wf(),
        ensures
            final(token).wf(),
            final(self).same_accounts(*old(self)),
            unwrap_step(
                old(self).statuses(),
                old(token)@,
                old(self).account(),
                unwrap_swap_id(caller, receiver_addr, block_number, ammount),
                caller,
                ammount,
            ) == (Step { statuses: final(self).statuses(), ledger: final(token)@, result: out }),
            out is Err ==> final(self).requests() == old(self).requests(),
            out is Ok ==> final(self).requests() == old(self).requests().insert(
                unwrap_swap_id(caller, receiver_addr, block_number, ammount),
                UnwrapRequest { home_address: caller, foreign_address: receiver_addr, ammount },
            ),
    {
        let digest = Self::pack_and_encode(caller, receiver_addr, block_number, ammount);
        let swap_id = leading_bytes_value(&digest);
        self.record_unwrap(token, swap_id, caller, ammount, receiver_addr)
    }
}

/// A swap id that was used is never minted under again: the mint is refused
/// with `InvalidRequestStatus`, and the statuses and the ledger, the
/// receiver's balance with it, stay as they were.
pub proof fn used_swap_id_is_not_minted_again(
    statuses: Map<u128, RequestStatus>,
    ledger: LedgerView,
    relay: [u8; 32],
    swap_id: u128,
    ammount: u128,
    receiver: [u8; 32],
)
    requires
        statuses.contains_key(swap_id),
    ensures
        mint_step(statuses, ledger, relay, swap_id, ammount, receiver) == (Step {
            statuses,
            ledger,
            result: Err(Error::InvalidRequestStatus),
        }),
{
}

/// After a mint that went through, a second mint under the same swap id is
/// refused with `InvalidRequestStatus` and leaves every balance as the first
/// mint made it.
pub proof fn second_mint_is_refused(
    statuses: Map<u128, RequestStatus>,
    ledger: LedgerView,
    relay: [u8; 32],
    swap_id: u128,
    first_ammount: u128,
    first_receiver: [u8; 32],
    ammount: u128,
    receiver: [u8; 32],
)
    requires
        mint_step(statuses, ledger, relay, swap_id, first_ammount, first_receiver).result is Ok,
    ensures
        ({
            let first = mint_step(statuses, ledger, relay, swap_id, first_ammount, first_receiver);
            mint_step(first.statuses, first.ledger, relay, swap_id, ammount, receiver) == (Step {
                statuses: first.statuses,
                ledger: first.ledger,
                result: Err(Error::InvalidRequestStatus),
            })
        }),
{
}

/// A status change goes through only for a swap that is `New`. For a swap
/// that was never used, or is `Unset`, `Rejected`, `Success` or `Returned`,
/// it is refused with `InvalidRequestStatus` and every status stays.
pub proof fn change_only_from_new(
    statuses: Map<u128, RequestStatus>,
    ledger: LedgerView,
    swap_id: u128,
    new_status: u128,
)
    ensures
        change_step(statuses, ledger, swap_id, new_status).result is Ok ==> statuses.contains_key(
            swap_id,
        ) && statuses[swap_id] == RequestStatus::New,
        !(statuses.contains_key(swap_id) && statuses[swap_id] == RequestStatus::New)
            ==> change_step(statuses, ledger, swap_id, new_status) == (Step {
            statuses,
            ledger,
            result: Err(Error::InvalidRequestStatus),
        }),
{
}

/// A swap that left `New` stays where it went: every later change is
/// refused.
pub proof fn settled_swap_stays(
    statuses: Map<u128, RequestStatus>,
    ledger: LedgerView,
    swap_id: u128,
    new_status: u128,
    later_status: u128,
)
    requires
        change_step(statuses, ledger, swap_id, new_status).result is Ok,
        status_from(new_status) != Some(RequestStatus::New),
    ensures
        ({
            let first = change_step(statuses, ledger, swap_id, new_status);
            change_step(first.statuses, first.ledger, swap_id, later_status) == (Step {
                statuses: first.statuses,
                ledger: first.ledger,
                result: Err(Error::InvalidRequestStatus),
            })
        }),
{
}

/// A stream is not all or nothing: what its first command did stays,
/// whatever the rest of the stream comes to. The outcome of the stream is
/// that of its rest, run on the statuses and the ledger that the first
/// command left.
pub proof fn earlier_commands_stay(
    statuses: Map<u128, RequestStatus>,
    ledger: LedgerView,
    relay: [u8; 32],
    data: Seq<u8>,
    at: int,
)
    requires
        0 <= at < data.len(),
        command_at(data, at) is Some,
    ensures
        ({
            let parsed = command_at(data, at).unwrap();
            let step = command_step(statuses, ledger, relay, parsed.0);
            stream_outcome(statuses, ledger, relay, data, at) == stream_outcome(
                step.statuses,
                step.ledger,
                relay,
                data,
                parsed.1,
            )
        }),
{
}

} // verus!
