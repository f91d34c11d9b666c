use ethers::types::H160;
use mev_bot::primitives::{same_bytes, Address, TxHash};

const UNISWAP_V2: [u8; 20] = [
    0x7a, 0x25, 0x0d, 0x56, 0x30, 0xb4, 0xcf, 0x53, 0x97, 0x39, 0xdf, 0x2c, 0x5d, 0xac, 0xb4, 0xc6,
    0x59, 0xf2, 0x48, 0x8d,
];

#[test]
fn from_hex_reads_forty_digits_after_the_prefix() {
    let a = Address::from_hex("0x7a250d5630B4cF539739dF2C5dAcb4c659F2488D").unwrap();
    assert_eq!(a.bytes, UNISWAP_V2);
}

#[test]
fn from_hex_reads_forty_digits_without_a_prefix() {
    let a = Address::from_hex("7a250d5630b4cf539739df2c5dacb4c659f2488d").unwrap();
    assert_eq!(a.bytes, UNISWAP_V2);
}

#[test]
fn from_hex_does_not_hand_back_a_fixed_address() {
    let a = Address::from_hex("0x0000000000000000000000000000000000000001").unwrap();
    let mut expected = [0u8; 20];
    expected[19] = 1;
    assert_eq!(a.bytes, expected);
    let b = Address::from_hex("0xff00000000000000000000000000000000000000").unwrap();
    let mut expected = [0u8; 20];
    expected[0] = 0xff;
    assert_eq!(b.bytes, expected);
}

#[test]
fn from_hex_refuses_what_is_no_address() {
    assert!(Address::from_hex("").is_none());
    assert!(Address::from_hex("0x").is_none());
    assert!(Address::from_hex("0x7a250d5630B4cF539739dF2C5dAcb4c659F2488").is_none());
    assert!(Address::from_hex("0x7a250d5630B4cF539739dF2C5dAcb4c659F2488D00").is_none());
    assert!(Address::from_hex("0x7a250d5630B4cF539739dF2C5dAcb4c659F2488G").is_none());
    assert!(Address::from_hex("uniswap_v2").is_none());
}

#[test]
fn from_hex_agrees_with_h160() {
    let texts = [
        "0x7a250d5630B4cF539739dF2C5dAcb4c659F2488D",
        "0xE592427A0AEce92De3Edee1F18E0157C05861564",
        "0xd9e1cE17f2641f24aE83637ab66a2cca9C378B9F",
        "d9e1cE17f2641f24aE83637ab66a2cca9C378B9F",
        "0xd9e1",
        "0xd9e1cE17f2641f24aE83 637ab66a2cca9C378B9F",
        "0xd9e1cE17f2641f24aE83637ab66a2cca9C378B9F\n",
        " 0xd9e1cE17f2641f24aE83637ab66a2cca9C378B9F",
        "0Xd9e1cE17f2641f24aE83637ab66a2cca9C378B9F",
        "",
        "0x00000000000000000000000000000000000000zz",
    ];
    for text in texts {
        let expected = text.parse::<H160>().ok().map(|h| h.0);
        assert_eq!(Address::from_hex(text).map(|a| a.bytes), expected);
    }
}

#[test]
fn address_from_bytes_keeps_the_bytes() {
    assert_eq!(Address::from_bytes(UNISWAP_V2).bytes, UNISWAP_V2);
}

#[test]
fn addresses_are_equal_when_all_bytes_are() {
    let a = Address::from_bytes(UNISWAP_V2);
    let mut other = UNISWAP_V2;
    other[19] ^= 1;
    assert!(a.eq(&Address::from_bytes(UNISWAP_V2)));
    assert!(!a.eq(&Address::from_bytes(other)));
    let mut other = UNISWAP_V2;
    other[0] ^= 1;
    assert!(!a.eq(&Address::from_bytes(other)));
}

#[test]
fn tx_hashes_are_equal_when_all_bytes_are() {
    let h = TxHash::from_bytes([7; 32]);
    let mut other = [7u8; 32];
    other[31] = 8;
    assert!(h.eq(&TxHash::from_bytes([7; 32])));
    assert!(!h.eq(&TxHash::from_bytes(other)));
    assert_eq!(h.bytes, [7; 32]);
}

#[test]
fn same_bytes_compares_every_position() {
    assert!(same_bytes(&[1u8, 2, 3], &[1u8, 2, 3]));
    assert!(!same_bytes(&[1u8, 2, 3], &[1u8, 2, 4]));
    assert!(!same_bytes(&[0u8, 2, 3], &[1u8, 2, 3]));
    assert!(same_bytes::<0>(&[], &[]));
}
