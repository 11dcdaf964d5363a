use routiq::abi::{
    encode_allowance, encode_approve, encode_exact_input_single, normalize_address, selector,
    word_address, word_to_u128, word_u128, AbiError,
};

const ROUTER: &str = "0x68b3465833fb72A70ecDF485E0e4C7bD8665Fc45";
const WALLET: &str = "0x00000000000000000000000000000000000000aB";

#[test]
fn selectors_of_known_signatures() {
    assert_eq!(selector("approve(address,uint256)"), vec![0x09, 0x5e, 0xa7, 0xb3]);
    assert_eq!(selector("allowance(address,address)"), vec![0xdd, 0x62, 0xed, 0x3e]);
    assert_eq!(selector("transfer(address,uint256)"), vec![0xa9, 0x05, 0x9c, 0xbb]);
}

#[test]
fn normalize_address_lowercases_and_prefixes() {
    assert_eq!(
        normalize_address("0xdAC17F958D2ee523a2206206994597C13D831ec7").unwrap(),
        "0xdac17f958d2ee523a2206206994597c13d831ec7"
    );
    assert_eq!(
        normalize_address("dAC17F958D2ee523a2206206994597C13D831ec7").unwrap(),
        "0xdac17f958d2ee523a2206206994597c13d831ec7"
    );
    // every leading "0x" is removed before the digits are counted
    assert_eq!(
        normalize_address("0x0xdAC17F958D2ee523a2206206994597C13D831ec7").unwrap(),
        "0xdac17f958d2ee523a2206206994597c13d831ec7"
    );
}

#[test]
fn normalize_address_is_idempotent() {
    let once = normalize_address(ROUTER).unwrap();
    let twice = normalize_address(&once).unwrap();
    assert_eq!(once, twice);
}

#[test]
fn normalize_address_rejects_bad_input() {
    assert_eq!(normalize_address(""), Err(AbiError::InvalidAddress));
    assert_eq!(normalize_address("0x1234"), Err(AbiError::InvalidAddress));
    assert_eq!(
        normalize_address("0xdAC17F958D2ee523a2206206994597C13D831ec"),
        Err(AbiError::InvalidAddress)
    );
    assert_eq!(
        normalize_address("0xdAC17F958D2ee523a2206206994597C13D831ec7a"),
        Err(AbiError::InvalidAddress)
    );
    assert_eq!(
        normalize_address("0xgAC17F958D2ee523a2206206994597C13D831ec7"),
        Err(AbiError::InvalidAddress)
    );
    assert_eq!(
        normalize_address("0xdAC17F958D2ee523a2206206994597C13D831eé"),
        Err(AbiError::InvalidAddress)
    );
}

#[test]
fn word_u128_is_big_endian_32_bytes() {
    let w = word_u128(0x0102);
    assert_eq!(w.len(), 32);
    assert!(w[..30].iter().all(|b| *b == 0));
    assert_eq!(w[30], 0x01);
    assert_eq!(w[31], 0x02);
    let m = word_u128(u128::MAX);
    assert!(m[..16].iter().all(|b| *b == 0));
    assert!(m[16..].iter().all(|b| *b == 0xff));
}

#[test]
fn word_roundtrip_on_concrete_values() {
    for v in [0u128, 1, 255, 256, 1_000_000, u128::MAX / 3, u128::MAX] {
        assert_eq!(word_to_u128(&word_u128(v)), Ok(v));
    }
}

#[test]
fn word_to_u128_errors() {
    assert_eq!(word_to_u128(&[0u8; 31]), Err(AbiError::WordNotThirtyTwoBytes));
    assert_eq!(word_to_u128(&[0u8; 33]), Err(AbiError::WordNotThirtyTwoBytes));
    let mut w = [0u8; 32];
    w[15] = 1;
    assert_eq!(word_to_u128(&w), Err(AbiError::ValueExceedsU128));
    let mut w = [0u8; 32];
    w[16] = 0x80;
    assert_eq!(word_to_u128(&w), Ok(1u128 << 127));
}

#[test]
fn word_address_pads_twelve_zero_bytes() {
    let w = word_address(WALLET).unwrap();
    assert_eq!(w.len(), 32);
    assert!(w[..31].iter().all(|b| *b == 0));
    assert_eq!(w[31], 0xab);
    assert_eq!(word_address("nope"), Err(AbiError::InvalidAddress));
}

#[test]
fn encode_approve_exact_text() {
    let data = encode_approve(ROUTER, 1_000_000).unwrap();
    let expected = format!(
        "0x095ea7b3{}{}",
        "00000000000000000000000068b3465833fb72a70ecdf485e0e4c7bd8665fc45",
        "00000000000000000000000000000000000000000000000000000000000f4240"
    );
    assert_eq!(data, expected);
    assert_eq!(encode_approve("0x12", 1), Err(AbiError::InvalidAddress));
}

#[test]
fn encode_allowance_exact_text() {
    let data = encode_allowance(WALLET, ROUTER).unwrap();
    let expected = format!(
        "0xdd62ed3e{}{}",
        "00000000000000000000000000000000000000000000000000000000000000ab",
        "00000000000000000000000068b3465833fb72a70ecdf485e0e4c7bd8665fc45"
    );
    assert_eq!(data, expected);
    assert_eq!(encode_allowance(WALLET, "x"), Err(AbiError::InvalidAddress));
    assert_eq!(encode_allowance("x", ROUTER), Err(AbiError::InvalidAddress));
}

#[test]
fn encode_exact_input_single_layout() {
    let data = encode_exact_input_single(
        "0xdAC17F958D2ee523a2206206994597C13D831ec7",
        "0xC02aaA39b223FE8D0A0e5C4F27eAD9083C756Cc2",
        500,
        WALLET,
        100_000_000,
        30_000_000_000_000_000,
    )
    .unwrap();
    assert_eq!(data.len(), 2 + 8 + 7 * 64);
    assert_eq!(&data[..10], "0x04e45aaf");
    let words: Vec<&str> = (0..7).map(|i| &data[10 + 64 * i..10 + 64 * (i + 1)]).collect();
    assert_eq!(words[0], "000000000000000000000000dac17f958d2ee523a2206206994597c13d831ec7");
    assert_eq!(words[1], "000000000000000000000000c02aaa39b223fe8d0a0e5c4f27ead9083c756cc2");
    assert_eq!(words[2], format!("{:064x}", 500));
    assert_eq!(words[3], "00000000000000000000000000000000000000000000000000000000000000ab");
    assert_eq!(words[4], format!("{:064x}", 100_000_000u128));
    assert_eq!(words[5], format!("{:064x}", 30_000_000_000_000_000u128));
    assert_eq!(words[6], format!("{:064x}", 0));
    assert_eq!(
        encode_exact_input_single("bad", ROUTER, 500, WALLET, 1, 1),
        Err(AbiError::InvalidAddress)
    );
}
