use gravity_bridge::bytes::{decode_field, leading_bytes_value, word_at};
use gravity_bridge::ibport::{Command, Error, IBport, RequestStatus, UnwrapRequest};
use gravity_bridge::token::Token;
use web3::signing::keccak256;

const PORT: [u8; 32] = [10u8; 32];
const NEBULA: [u8; 32] = [11u8; 32];
const TOKEN: [u8; 32] = [12u8; 32];
const DEPLOYER: [u8; 32] = [1u8; 32];
const A: [u8; 32] = [0xaau8; 32];

fn setup() -> (IBport, Token) {
    (
        IBport::new(PORT, NEBULA, TOKEN),
        Token::new(DEPLOYER, String::from("Wrapped"), String::from("WRP")),
    )
}

fn field(n: u128) -> [u8; 32] {
    let mut out = [0u8; 32];
    out[16..].copy_from_slice(&n.to_be_bytes());
    out
}

fn mint_command(swap_id: u128, amount: u128, receiver: [u8; 32]) -> Vec<u8> {
    let mut out = vec![b'm'];
    out.extend_from_slice(&field(swap_id));
    out.extend_from_slice(&field(amount));
    out.extend_from_slice(&receiver);
    out
}

fn change_command(swap_id: u128, status: u128) -> Vec<u8> {
    let mut out = vec![b'c'];
    out.extend_from_slice(&field(swap_id));
    out.extend_from_slice(&field(status));
    out
}

#[test]
fn size() {
    println!("{}", std::mem::size_of::<[u8; 32]>());
}

#[test]
fn status_numbers() {
    assert_eq!(RequestStatus::try_from(0), Ok(RequestStatus::Unset));
    assert_eq!(RequestStatus::try_from(1), Ok(RequestStatus::New));
    assert_eq!(RequestStatus::try_from(2), Ok(RequestStatus::Rejected));
    assert_eq!(RequestStatus::try_from(3), Ok(RequestStatus::Success));
    assert_eq!(RequestStatus::try_from(4), Ok(RequestStatus::Returned));
    assert_eq!(RequestStatus::try_from(5), Err(Error::InvalidRequestStatus));
    assert_eq!(RequestStatus::try_from(u128::MAX), Err(Error::InvalidRequestStatus));
}

#[test]
fn fields_are_big_endian() {
    assert_eq!(decode_field(&field(7)), Some(7));
    assert_eq!(decode_field(&field(u128::MAX)), Some(u128::MAX));
    assert_eq!(decode_field(&field(0x0102_0304_0506_0708_090a_0b0c_0d0e_0f10)), Some(0x0102_0304_0506_0708_090a_0b0c_0d0e_0f10));
    let mut wide = field(7);
    wide[15] = 1;
    assert_eq!(decode_field(&wide), None);
    wide = field(7);
    wide[0] = 1;
    assert_eq!(decode_field(&wide), None);
    let mut digest = [0u8; 32];
    digest[15] = 9;
    digest[0] = 1;
    digest[16] = 0xff;
    assert_eq!(leading_bytes_value(&digest), (1u128 << 120) + 9);
    let data: Vec<u8> = (0u8..40).collect();
    let word = word_at(&data, 3);
    assert_eq!(word[0], 3);
    assert_eq!(word[31], 34);
}

#[test]
fn commands_are_parsed_in_place() {
    let mut stream = mint_command(7, 100, A);
    stream.extend_from_slice(&change_command(7, 3));
    assert_eq!(
        IBport::parse_command(&stream, 0),
        Some((Command::Mint { swap_id: 7, ammount: 100, receiver: A }, 97))
    );
    assert_eq!(
        IBport::parse_command(&stream, 97),
        Some((Command::Change { swap_id: 7, new_status: 3 }, 162))
    );
    assert_eq!(IBport::parse_command(&stream, 1), None);
    assert_eq!(IBport::parse_command(&stream[..96], 0), None);
    assert_eq!(IBport::parse_command(&stream[..161], 97), None);
    assert_eq!(IBport::parse_mint(&stream, 1), Some((7, 100, A)));
    assert_eq!(IBport::parse_change(&stream, 98), Some((7, 3)));
}

#[test]
fn mint_then_success_in_one_stream() {
    let (mut port, mut token) = setup();
    let mut stream = mint_command(7, 100, A);
    stream.extend_from_slice(&change_command(7, 3));
    assert_eq!(port.attach_value(&mut token, NEBULA, stream), Ok(()));
    assert_eq!(token.balance_of(A), 100);
    assert_eq!(token.total_supply(), 100);
    assert_eq!(port.status(7), RequestStatus::Success);
}

#[test]
fn change_of_unknown_swap_keeps_the_mint() {
    let (mut port, mut token) = setup();
    let mut stream = mint_command(7, 100, A);
    stream.extend_from_slice(&change_command(9, 3));
    assert_eq!(port.attach_value(&mut token, NEBULA, stream), Ok(()));
    assert_eq!(token.balance_of(A), 100);
    assert_eq!(port.status(7), RequestStatus::New);
    assert_eq!(port.status(9), RequestStatus::Unset);
    assert_eq!(port.change(9, 3), Err(Error::InvalidRequestStatus));
}

#[test]
fn only_the_relay_principal_may_send() {
    let (mut port, mut token) = setup();
    assert_eq!(port.attach_value(&mut token, A, mint_command(7, 100, A)), Err(Error::NotNebula));
    assert_eq!(token.balance_of(A), 0);
    assert_eq!(port.status(7), RequestStatus::Unset);
}

#[test]
fn unknown_opcode_aborts_but_keeps_what_was_done() {
    let (mut port, mut token) = setup();
    let mut stream = mint_command(7, 100, A);
    stream.push(b'x');
    stream.extend_from_slice(&mint_command(8, 100, A));
    assert_eq!(port.attach_value(&mut token, NEBULA, stream), Err(Error::InvalidRequest));
    assert_eq!(token.balance_of(A), 100);
    assert_eq!(port.status(7), RequestStatus::New);
    assert_eq!(port.status(8), RequestStatus::Unset);
}

#[test]
fn short_or_wide_payload_aborts() {
    let (mut port, mut token) = setup();
    let mut stream = mint_command(7, 100, A);
    stream.pop();
    assert_eq!(port.attach_value(&mut token, NEBULA, stream), Err(Error::InvalidRequest));
    assert_eq!(token.balance_of(A), 0);
    let mut stream = mint_command(7, 100, A);
    stream[1] = 1;
    assert_eq!(port.attach_value(&mut token, NEBULA, stream), Err(Error::InvalidRequest));
    assert_eq!(token.total_supply(), 0);
    assert_eq!(port.attach_value(&mut token, NEBULA, vec![]), Ok(()));
}

#[test]
fn minting_a_used_swap_id_is_refused() {
    let (mut port, mut token) = setup();
    assert_eq!(port.mint(&mut token, 7, 100, A), Ok(()));
    assert_eq!(port.mint(&mut token, 7, 50, A), Err(Error::InvalidRequestStatus));
    assert_eq!(token.balance_of(A), 100);
    assert_eq!(token.total_supply(), 100);
    assert_eq!(port.status(7), RequestStatus::New);
    let mut stream = mint_command(7, 50, A);
    stream.extend_from_slice(&mint_command(8, 1, A));
    assert_eq!(port.attach_value(&mut token, NEBULA, stream), Ok(()));
    assert_eq!(token.balance_of(A), 101);
}

#[test]
fn mint_refused_by_the_ledger() {
    let (mut port, mut token) = setup();
    assert_eq!(token.add_deployer(DEPLOYER, PORT), Ok(()));
    assert_eq!(port.mint(&mut token, 7, 100, A), Err(Error::ErrorMintingTokens));
    assert_eq!(port.status(7), RequestStatus::Unset);
    assert_eq!(token.balance_of(A), 0);
    let (mut port, mut token) = setup();
    assert_eq!(port.mint(&mut token, 1, u128::MAX, A), Ok(()));
    assert_eq!(port.mint(&mut token, 2, 1, A), Err(Error::ErrorMintingTokens));
    assert_eq!(port.status(2), RequestStatus::Unset);
    assert_eq!(token.balance_of(A), u128::MAX);
}

#[test]
fn change_only_from_new() {
    let (mut port, mut token) = setup();
    assert_eq!(port.change(7, 3), Err(Error::InvalidRequestStatus));
    assert_eq!(port.status(7), RequestStatus::Unset);
    for (swap, status, expected) in [
        (1u128, 2u128, RequestStatus::Rejected),
        (2, 3, RequestStatus::Success),
        (3, 4, RequestStatus::Returned),
    ] {
        assert_eq!(port.mint(&mut token, swap, 1, A), Ok(()));
        assert_eq!(port.change(swap, 9), Err(Error::InvalidRequestStatus));
        assert_eq!(port.status(swap), RequestStatus::New);
        assert_eq!(port.change(swap, status), Ok(()));
        assert_eq!(port.status(swap), expected);
        assert_eq!(port.change(swap, 3), Err(Error::InvalidRequestStatus));
        assert_eq!(port.change(swap, 1), Err(Error::InvalidRequestStatus));
        assert_eq!(port.status(swap), expected);
    }
    assert_eq!(port.apply_command(&mut token, Command::Change { swap_id: 1, new_status: 3 }), Err(Error::InvalidRequestStatus));
}

#[test]
fn unwrap_request_burns_and_records() {
    let (mut port, mut token) = setup();
    assert_eq!(token.mint(A, 100, A), Ok(()));
    let receiver = [0xbbu8; 32];
    let mut data = Vec::new();
    data.extend_from_slice(&A);
    data.extend_from_slice(&receiver);
    data.extend_from_slice(&5u64.to_le_bytes());
    data.extend_from_slice(&A);
    data.extend_from_slice(&40u128.to_le_bytes());
    let digest = keccak256(&data);
    assert_eq!(IBport::pack_and_encode(A, receiver, 5, 40), digest);
    let mut head = [0u8; 16];
    head.copy_from_slice(&digest[..16]);
    let swap_id = u128::from_be_bytes(head);
    assert_eq!(port.create_transfer_unwrap_request(&mut token, A, 5, 40, receiver), Ok(()));
    assert_eq!(token.balance_of(A), 60);
    assert_eq!(token.total_supply(), 60);
    assert_eq!(port.status(swap_id), RequestStatus::New);
    assert_eq!(
        port.unwrap_request(swap_id),
        Some(UnwrapRequest { home_address: A, foreign_address: receiver, ammount: 40 })
    );
    assert_eq!(port.change(swap_id, 4), Ok(()));
    assert_eq!(port.status(swap_id), RequestStatus::Returned);
}

#[test]
fn unwrap_request_fails_with_token_error() {
    let (mut port, mut token) = setup();
    assert_eq!(token.mint(A, 10, A), Ok(()));
    assert_eq!(
        port.create_transfer_unwrap_request(&mut token, A, 5, 40, [0xbbu8; 32]),
        Err(Error::TokenError)
    );
    assert_eq!(token.balance_of(A), 10);
    assert_eq!(port.record_unwrap(&mut token, 3, A, 11, [0xbbu8; 32]), Err(Error::TokenError));
    assert_eq!(port.status(3), RequestStatus::Unset);
    assert_eq!(port.unwrap_request(3), None);
    assert_eq!(token.add_deployer(DEPLOYER, PORT), Ok(()));
    assert_eq!(port.record_unwrap(&mut token, 3, A, 1, [0xbbu8; 32]), Err(Error::TokenError));
    assert_eq!(token.balance_of(A), 10);
}
