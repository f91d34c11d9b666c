use ethers::abi::{encode, Token};
use ethers::types::{H160, U256};
use ethers::utils::id;
use mev_bot::amount::Amount;
use mev_bot::calldata::{decode_swap, encode_liquidation, encode_swap, SwapCall, HEAD_LEN, PATH_START};
use mev_bot::primitives::Address;

fn address(tag: u8) -> Address {
    let mut bytes = [tag; 20];
    bytes[0] = 0xde;
    bytes[19] = tag.wrapping_add(1);
    Address::from_bytes(bytes)
}

fn call(path: &[u8]) -> SwapCall {
    SwapCall {
        amount_in: Amount { limbs: [10, 0, 0, 0] },
        amount_out_min: Amount { limbs: [0x0102030405060708, 0x1112131415161718, 0, 0x8000000000000000] },
        path: path.iter().map(|t| address(*t)).collect(),
        recipient: address(0x77),
        deadline: Amount::from_u64(1_700_000_000),
    }
}

fn same_call(a: &SwapCall, b: &SwapCall) -> bool {
    a.amount_in.limbs == b.amount_in.limbs
        && a.amount_out_min.limbs == b.amount_out_min.limbs
        && a.deadline.limbs == b.deadline.limbs
        && a.recipient.bytes == b.recipient.bytes
        && a.path.len() == b.path.len()
        && a.path.iter().zip(b.path.iter()).all(|(x, y)| x.bytes == y.bytes)
}

fn by_ethers(c: &SwapCall) -> Vec<u8> {
    let mut data =
        id("swapExactTokensForTokens(uint256,uint256,address[],address,uint256)").to_vec();
    data.extend(encode(&[
        Token::Uint(U256(c.amount_in.limbs)),
        Token::Uint(U256(c.amount_out_min.limbs)),
        Token::Array(c.path.iter().map(|a| Token::Address(H160(a.bytes))).collect()),
        Token::Address(H160(c.recipient.bytes)),
        Token::Uint(U256(c.deadline.limbs)),
    ]));
    data
}

#[test]
fn layout_constants() {
    assert_eq!(HEAD_LEN, 4 + 5 * 32);
    assert_eq!(PATH_START, HEAD_LEN + 32);
}

#[test]
fn encoded_swap_has_the_plain_layout() {
    let data = encode_swap(&call(&[1, 2]));
    assert_eq!(data.len(), 196 + 64);
    assert_eq!(&data[0..4], &[0x38, 0xed, 0x17, 0x39]);
    // amount in: 10
    assert_eq!(&data[4..35], &[0u8; 31]);
    assert_eq!(data[35], 10);
    // least amount out, most significant byte first
    assert_eq!(data[36], 0x80);
    assert_eq!(&data[37..52], &[0u8; 15]);
    assert_eq!(&data[52..60], &[0x11, 0x12, 0x13, 0x14, 0x15, 0x16, 0x17, 0x18]);
    assert_eq!(&data[60..68], &[0x01, 0x02, 0x03, 0x04, 0x05, 0x06, 0x07, 0x08]);
    // offset of the path: 160
    assert_eq!(&data[68..99], &[0u8; 31]);
    assert_eq!(data[99], 160);
    // recipient
    assert_eq!(&data[100..112], &[0u8; 12]);
    assert_eq!(&data[112..132], &address(0x77).bytes);
    // length of the path: 2
    assert_eq!(data[195], 2);
    // the tokens
    assert_eq!(&data[196..208], &[0u8; 12]);
    assert_eq!(&data[208..228], &address(1).bytes);
    assert_eq!(&data[240..260], &address(2).bytes);
}

#[test]
fn encoding_agrees_with_the_abi_encoder() {
    for path in [&[1u8, 2][..], &[1, 2, 3], &[9, 9, 9, 9, 9]] {
        let c = call(path);
        assert_eq!(encode_swap(&c), by_ethers(&c));
    }
    let mut c = call(&[4, 5]);
    c.amount_in = Amount { limbs: [u64::MAX; 4] };
    c.deadline = Amount::zero();
    assert_eq!(encode_swap(&c), by_ethers(&c));
}

#[test]
fn decoding_reads_back_what_was_encoded() {
    for path in [&[1u8, 2][..], &[1, 2, 3], &[7, 6, 5, 4]] {
        let c = call(path);
        let back = decode_swap(&encode_swap(&c)).unwrap();
        assert!(same_call(&c, &back));
    }
}

#[test]
fn decoding_reads_what_the_abi_encoder_wrote() {
    let c = call(&[1, 2]);
    let back = decode_swap(&by_ethers(&c)).unwrap();
    assert!(same_call(&c, &back));
    assert_eq!(back.amount_in.limbs, [10, 0, 0, 0]);
    assert_eq!(back.path[0].bytes, address(1).bytes);
    assert_eq!(back.path[1].bytes, address(2).bytes);
}

#[test]
fn decoding_refuses_short_and_ragged_data() {
    let data = encode_swap(&call(&[1, 2]));
    assert!(decode_swap(&[]).is_none());
    assert!(decode_swap(&data[..4]).is_none());
    assert!(decode_swap(&data[..195]).is_none());
    assert!(decode_swap(&data[..data.len() - 1]).is_none());
    let mut longer = data.clone();
    longer.push(0);
    assert!(decode_swap(&longer).is_none());
    // a whole word more than the path's length says
    longer.extend([0u8; 31]);
    assert!(decode_swap(&longer).is_none());
}

#[test]
fn decoding_refuses_another_selector() {
    let mut data = encode_swap(&call(&[1, 2]));
    data[3] ^= 1;
    assert!(decode_swap(&data).is_none());
    let mut data = encode_swap(&call(&[1, 2]));
    data[0] = 0;
    assert!(decode_swap(&data).is_none());
}

#[test]
fn decoding_refuses_a_path_of_one_token() {
    let mut c = call(&[1, 2]);
    c.path.pop();
    assert!(decode_swap(&by_ethers(&c)).is_none());
}

#[test]
fn short_paths_are_written_in_the_same_layout_and_are_no_swaps() {
    for path in [&[][..], &[7u8]] {
        let c = call(path);
        let data = encode_swap(&c);
        assert_eq!(data.len(), 196 + 32 * path.len());
        assert_eq!(data, by_ethers(&c));
        assert_eq!(data[195] as usize, path.len());
        assert!(decode_swap(&data).is_none());
    }
}

#[test]
fn decoding_refuses_another_offset() {
    let mut data = encode_swap(&call(&[1, 2]));
    data[99] = 192;
    assert!(decode_swap(&data).is_none());
    let mut data = encode_swap(&call(&[1, 2]));
    data[68] = 1;
    assert!(decode_swap(&data).is_none());
}

#[test]
fn decoding_refuses_a_wrong_length_of_the_path() {
    let mut data = encode_swap(&call(&[1, 2, 3]));
    data[195] = 2;
    assert!(decode_swap(&data).is_none());
    let mut data = encode_swap(&call(&[1, 2, 3]));
    data[164] = 1;
    assert!(decode_swap(&data).is_none());
}

#[test]
fn decoding_refuses_words_that_hold_no_address() {
    // the recipient
    let mut data = encode_swap(&call(&[1, 2]));
    data[100] = 1;
    assert!(decode_swap(&data).is_none());
    let mut data = encode_swap(&call(&[1, 2]));
    data[111] = 1;
    assert!(decode_swap(&data).is_none());
    // the second token
    let mut data = encode_swap(&call(&[1, 2]));
    data[228] = 1;
    assert!(decode_swap(&data).is_none());
    // the first byte of an address itself may be anything
    let mut data = encode_swap(&call(&[1, 2]));
    data[112] = 0;
    assert!(decode_swap(&data).is_some());
}

#[test]
fn liquidation_call_has_selector_and_five_words() {
    let amount = Amount { limbs: [500_000, 0, 0, 0] };
    let data = encode_liquidation(&address(1), &address(2), &address(3), &amount);
    assert_eq!(data.len(), 164);
    assert_eq!(&data[0..4], &[0x00, 0xa7, 0x18, 0xa9]);
    let mut expected = id("liquidationCall(address,address,address,uint256,bool)").to_vec();
    expected.extend(encode(&[
        Token::Address(H160(address(1).bytes)),
        Token::Address(H160(address(2).bytes)),
        Token::Address(H160(address(3).bytes)),
        Token::Uint(U256::from(500_000u64)),
        Token::Bool(false),
    ]));
    assert_eq!(data, expected);
}
