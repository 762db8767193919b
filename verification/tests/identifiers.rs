use pool_state_arena::identifiers::parse_pool_identifier;
use pool_state_arena::messages::PoolIdentifier;
use pool_state_arena::startup_coordinator::StartupError;

#[test]
fn parses_an_address_with_prefix() {
    let text = "0x0102030405060708090a0b0c0d0e0f1011121314";
    let expected: [u8; 20] =
        [1, 2, 3, 4, 5, 6, 7, 8, 9, 10, 11, 12, 13, 14, 15, 16, 17, 18, 19, 20];
    assert_eq!(
        parse_pool_identifier(text, "uniswap_v2"),
        Ok(PoolIdentifier::Address(expected))
    );
    assert_eq!(
        parse_pool_identifier(text, "uniswap_v3"),
        Ok(PoolIdentifier::Address(expected))
    );
}

#[test]
fn parses_an_address_without_prefix_in_either_case() {
    let lower = "deadbeef00112233445566778899aabbccddeeff";
    let upper = "DEADBEEF00112233445566778899AABBCCDDEEFF";
    let mixed = "DeAdBeEf00112233445566778899aAbBcCdDeEfF";
    let expected: [u8; 20] = [
        0xde, 0xad, 0xbe, 0xef, 0x00, 0x11, 0x22, 0x33, 0x44, 0x55, 0x66, 0x77, 0x88, 0x99, 0xaa,
        0xbb, 0xcc, 0xdd, 0xee, 0xff,
    ];
    for text in [lower, upper, mixed] {
        assert_eq!(
            parse_pool_identifier(text, "uniswap_v3"),
            Ok(PoolIdentifier::Address(expected))
        );
    }
}

#[test]
fn parses_a_pool_id() {
    let text = "0x000102030405060708090a0b0c0d0e0f101112131415161718191a1b1c1d1e1f";
    let mut expected = [0u8; 32];
    for (i, b) in expected.iter_mut().enumerate() {
        *b = i as u8;
    }
    assert_eq!(
        parse_pool_identifier(text, "uniswap_v4"),
        Ok(PoolIdentifier::PoolId(expected))
    );
}

#[test]
fn wrong_length_is_a_pool_factory_error() {
    assert!(matches!(
        parse_pool_identifier("0x0102", "uniswap_v2"),
        Err(StartupError::PoolFactory(_))
    ));
    // an address where a pool id is due, and a pool id where an address is due
    let address = "0102030405060708090a0b0c0d0e0f1011121314";
    let pool_id = "000102030405060708090a0b0c0d0e0f101112131415161718191a1b1c1d1e1f";
    assert!(matches!(
        parse_pool_identifier(address, "uniswap_v4"),
        Err(StartupError::PoolFactory(_))
    ));
    assert!(matches!(
        parse_pool_identifier(pool_id, "uniswap_v3"),
        Err(StartupError::PoolFactory(_))
    ));
    assert!(matches!(parse_pool_identifier("", "uniswap_v2"), Err(StartupError::PoolFactory(_))));
}

#[test]
fn invalid_hex_is_a_pool_factory_error() {
    let text = "0x0102030405060708090a0b0c0d0e0f10111213zz";
    match parse_pool_identifier(text, "uniswap_v2") {
        Err(StartupError::PoolFactory(message)) => assert_eq!(message, "Invalid hex"),
        _ => panic!("a pool factory error was due"),
    }
    // forty bytes that are not forty digits
    let text = "0x010203040506070809\u{e9}0b0c0d0e0f1011121314";
    assert!(matches!(
        parse_pool_identifier(text, "uniswap_v2"),
        Err(StartupError::PoolFactory(_))
    ));
}

#[test]
fn only_one_prefix_is_taken_off() {
    // forty digits after the first prefix, the first two of them "0x": not hexadecimal
    let text = "0x0x02030405060708090a0b0c0d0e0f1011121314";
    assert!(matches!(
        parse_pool_identifier(text, "uniswap_v2"),
        Err(StartupError::PoolFactory(_))
    ));
    // an upper-case prefix is no prefix
    let text = "0X0102030405060708090a0b0c0d0e0f1011121314";
    assert!(matches!(
        parse_pool_identifier(text, "uniswap_v2"),
        Err(StartupError::PoolFactory(_))
    ));
}

#[test]
fn unknown_protocol_is_a_pool_factory_error() {
    let text = "0x0102030405060708090a0b0c0d0e0f1011121314";
    match parse_pool_identifier(text, "sushi_v1") {
        Err(StartupError::PoolFactory(message)) => {
            assert_eq!(message, "Unknown protocol: sushi_v1")
        }
        _ => panic!("a pool factory error was due"),
    }
}
