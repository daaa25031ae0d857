use zks::array_sizes::array_sizes_fit_exec;
use zks::calldata::{
    calldata_decode, calldata_encode, CalldataDecodeError, encode_args, encode_call, input_tokens, is_supported_kind, lower_hex_text,
    parse_param_into_token, parse_token, parse_tokens, prefixed_lower_hex, selector_text, AbiToken,
    CalldataError, EncodeArgsError, EncodeCallError, ParamKind, ParamParseError,
    TokenParseError,
};
use zks::signature::{get_fn_selector, is_white_space, parse_signature, SignatureError};
use zks::uint::Uint256;

const ONE_ADDRESS: &str = "0x0000000000000000000000000000000000000001";

fn word(v: u64) -> Uint256 {
    Uint256 { w0: v, w1: 0, w2: 0, w3: 0 }
}

fn all_ones() -> Uint256 {
    Uint256 { w0: u64::MAX, w1: u64::MAX, w2: u64::MAX, w3: u64::MAX }
}

fn hex_word(v: u8) -> String {
    format!("{}{:02x}", "0".repeat(62), v)
}

#[test]
fn signature_types_are_split_and_trimmed() {
    assert_eq!(
        parse_signature("transfer(address, uint256)"),
        Ok(Some(vec!["address".to_owned(), "uint256".to_owned()]))
    );
    assert_eq!(
        parse_signature("f( a ,\tb\n)"),
        Ok(Some(vec!["a".to_owned(), "b".to_owned()]))
    );
    assert_eq!(parse_signature("f()"), Ok(Some(vec!["".to_owned()])));
    assert_eq!(
        parse_signature("g((uint8,bool))"),
        Ok(Some(vec!["(uint8".to_owned(), "bool)".to_owned()]))
    );
}

#[test]
fn signature_errors() {
    assert_eq!(parse_signature("transfer"), Err(SignatureError::MissingOpeningParenthesis));
    assert_eq!(parse_signature("transfer("), Err(SignatureError::MissingClosingParenthesis));
    assert_eq!(parse_signature(")f("), Err(SignatureError::ParsingError));
}

#[test]
fn function_selector_is_the_keccak_prefix() {
    assert_eq!(get_fn_selector("transfer(address,uint256)"), [0xa9, 0x05, 0x9c, 0xbb]);
    assert_eq!(get_fn_selector("balanceOf(address)"), [0x70, 0xa0, 0x82, 0x31]);
}

#[test]
fn encode_call_prefixes_the_selector() {
    let data = encode_call(
        Some([0xa9, 0x05, 0x9c, 0xbb]),
        Some(vec![0xff]),
        Some(vec![ONE_ADDRESS.to_owned(), "5".to_owned()]),
        Some(vec!["address".to_owned(), "uint256".to_owned()]),
    )
    .unwrap();
    assert_eq!(lower_hex_text(&data), format!("a9059cbb{}{}", hex_word(1), hex_word(5)));
}

#[test]
fn encode_call_uses_bytecode_without_selector() {
    let data = encode_call(None, Some(vec![0x60, 0x80]), None, None).unwrap();
    assert_eq!(data, vec![0x60, 0x80]);
    let data = encode_call(None, None, Some(vec!["7".to_owned()]), Some(vec!["uint256".to_owned()])).unwrap();
    assert_eq!(lower_hex_text(&data), hex_word(7));
}

#[test]
fn encode_call_errors() {
    assert_eq!(
        encode_call(None, None, Some(vec!["1".to_owned()]), Some(vec![])),
        Err(EncodeCallError::ArgumentCountMismatch)
    );
    assert_eq!(
        encode_call(None, None, Some(vec!["0x12".to_owned()]), Some(vec!["address".to_owned()])),
        Err(EncodeCallError::InvalidAddress)
    );
    assert_eq!(
        encode_call(None, None, Some(vec!["-1".to_owned()]), Some(vec!["uint256".to_owned()])),
        Err(EncodeCallError::InvalidUint256)
    );
    assert_eq!(
        encode_call(None, None, Some(vec!["1".to_owned()]), Some(vec!["bool".to_owned()])),
        Err(EncodeCallError::UnsupportedArgumentType)
    );
    assert_eq!(
        encode_call(None, None, Some(vec!["1".to_owned()]), None),
        Err(EncodeCallError::TypesNotProvided)
    );
    // The first failing argument decides the error.
    assert_eq!(
        encode_call(
            None,
            None,
            Some(vec!["x".to_owned(), "y".to_owned()]),
            Some(vec!["bool".to_owned(), "address".to_owned()])
        ),
        Err(EncodeCallError::UnsupportedArgumentType)
    );
}

#[test]
fn signed_integers_parse_within_their_range() {
    match parse_param_into_token(&ParamKind::Int(8), "-1") {
        Ok(AbiToken::Int(w)) => assert_eq!(w, all_ones()),
        other => panic!("{other:?}"),
    }
    match parse_param_into_token(&ParamKind::Int(8), "+127") {
        Ok(AbiToken::Int(w)) => assert_eq!(w, word(127)),
        other => panic!("{other:?}"),
    }
    assert!(matches!(
        parse_param_into_token(&ParamKind::Int(8), "128"),
        Err(ParamParseError::InvalidInt)
    ));
    match parse_param_into_token(&ParamKind::Int(8), "-128") {
        Ok(AbiToken::Int(w)) => {
            assert_eq!(w, Uint256 { w0: u64::MAX - 127, w1: u64::MAX, w2: u64::MAX, w3: u64::MAX })
        }
        other => panic!("{other:?}"),
    }
    match parse_param_into_token(&ParamKind::Int(128), "-170141183460469231731687303715884105728") {
        Ok(AbiToken::Int(w)) => {
            assert_eq!(w, Uint256 { w0: 0, w1: 1u64 << 63, w2: u64::MAX, w3: u64::MAX })
        }
        other => panic!("{other:?}"),
    }
    assert!(matches!(
        parse_param_into_token(&ParamKind::Int(16), " 1"),
        Err(ParamParseError::InvalidInt)
    ));
    assert!(matches!(
        parse_param_into_token(&ParamKind::Int(32), "-"),
        Err(ParamParseError::InvalidInt)
    ));
}

#[test]
fn unsigned_integers_parse_by_width() {
    match parse_param_into_token(&ParamKind::Uint(8), "255") {
        Ok(AbiToken::Uint(w)) => assert_eq!(w, word(255)),
        other => panic!("{other:?}"),
    }
    assert!(matches!(
        parse_param_into_token(&ParamKind::Uint(8), "256"),
        Err(ParamParseError::InvalidUint)
    ));
    assert!(matches!(
        parse_param_into_token(&ParamKind::Uint(64), "-0"),
        Err(ParamParseError::InvalidUint)
    ));
    match parse_param_into_token(&ParamKind::Uint(64), "18446744073709551615") {
        Ok(AbiToken::Uint(w)) => assert_eq!(w, word(u64::MAX)),
        other => panic!("{other:?}"),
    }
    // 128-bit integers are read in hexadecimal, 256-bit ones in decimal.
    match parse_param_into_token(&ParamKind::Uint(128), "0xff") {
        Ok(AbiToken::Uint(w)) => assert_eq!(w, word(255)),
        other => panic!("{other:?}"),
    }
    match parse_param_into_token(&ParamKind::Uint(256), "1000") {
        Ok(AbiToken::Uint(w)) => assert_eq!(w, word(1000)),
        other => panic!("{other:?}"),
    }
    match parse_param_into_token(&ParamKind::Int(256), "-1") {
        Ok(AbiToken::Int(w)) => assert_eq!(w, all_ones()),
        other => panic!("{other:?}"),
    }
}

#[test]
fn other_parameters_parse() {
    match parse_param_into_token(&ParamKind::Address, ONE_ADDRESS) {
        Ok(AbiToken::Address(a)) => {
            let mut expected = [0u8; 20];
            expected[19] = 1;
            assert_eq!(a, expected);
        }
        other => panic!("{other:?}"),
    }
    assert!(matches!(
        parse_param_into_token(&ParamKind::Address, "0x01"),
        Err(ParamParseError::InvalidAddress)
    ));
    match parse_param_into_token(&ParamKind::Bytes, "0x0102") {
        Ok(AbiToken::Bytes(b)) => assert_eq!(b, vec![1, 2]),
        other => panic!("{other:?}"),
    }
    assert!(matches!(
        parse_param_into_token(&ParamKind::Bytes, "0x012"),
        Err(ParamParseError::InvalidBytes)
    ));
    assert!(matches!(parse_param_into_token(&ParamKind::Bool, "true"), Ok(AbiToken::Bool(true))));
    assert!(matches!(parse_param_into_token(&ParamKind::Bool, "false"), Ok(AbiToken::Bool(false))));
    assert!(matches!(
        parse_param_into_token(&ParamKind::Bool, "True"),
        Err(ParamParseError::InvalidBool)
    ));
    match parse_param_into_token(&ParamKind::String, "hello") {
        Ok(AbiToken::String(s)) => assert_eq!(s, "hello"),
        other => panic!("{other:?}"),
    }
}

#[test]
fn tuples_parse_the_argument_for_each_member() {
    let kind = ParamKind::Tuple(vec![ParamKind::Uint(8), ParamKind::String]);
    match parse_param_into_token(&kind, "7") {
        Ok(AbiToken::Tuple(members)) => {
            assert_eq!(members.len(), 2);
            assert!(matches!(members[0], AbiToken::Uint(w) if w == word(7)));
            assert!(matches!(&members[1], AbiToken::String(s) if s == "7"));
        }
        other => panic!("{other:?}"),
    }
    let kind = ParamKind::Tuple(vec![ParamKind::Uint(8), ParamKind::Bool]);
    assert!(matches!(parse_param_into_token(&kind, "1"), Err(ParamParseError::InvalidBool)));
}

#[test]
fn arrays_are_not_supported() {
    assert!(!is_supported_kind(&ParamKind::Array(Box::new(ParamKind::Bool))));
    assert!(!is_supported_kind(&ParamKind::Tuple(vec![ParamKind::FixedBytes(4)])));
    assert!(!is_supported_kind(&ParamKind::Uint(24)));
    assert!(is_supported_kind(&ParamKind::Tuple(vec![ParamKind::Int(64), ParamKind::Address])));
}

#[test]
fn inputs_and_arguments_are_zipped() {
    let kinds = vec![ParamKind::Uint(8), ParamKind::Bool];
    let tokens = input_tokens(&kinds, &vec!["3".to_owned()]).unwrap();
    assert_eq!(tokens.len(), 1);
    let tokens = input_tokens(&kinds, &vec!["3".to_owned(), "true".to_owned(), "x".to_owned()]).unwrap();
    assert_eq!(tokens.len(), 2);
    assert!(matches!(
        input_tokens(&kinds, &vec!["300".to_owned()]),
        Err(ParamParseError::InvalidUint)
    ));
}

#[test]
fn encode_command_tokens() {
    assert!(matches!(parse_token("ff", "uint256"), Ok(AbiToken::Uint(w)) if w == word(255)));
    assert!(matches!(parse_token("0x10", "sint256"), Ok(AbiToken::Int(w)) if w == word(16)));
    assert!(matches!(parse_token("0102", "bytes"), Ok(AbiToken::Bytes(b)) if b == vec![1, 2]));
    assert!(matches!(parse_token("0x0102", "bytes"), Err(TokenParseError::InvalidBytes)));
    assert!(matches!(parse_token("yes", "bool"), Err(TokenParseError::InvalidBool)));
    assert!(matches!(parse_token("zz", "uint256"), Err(TokenParseError::InvalidUint256)));
    assert!(matches!(parse_token("zz", "sint256"), Err(TokenParseError::InvalidSint256)));
    assert!(matches!(parse_token("1", "address"), Err(TokenParseError::InvalidAddress)));
    assert!(matches!(parse_token("1", "int"), Err(TokenParseError::UnsupportedType)));
    let tokens = parse_tokens(&vec!["1".to_owned(), "2".to_owned()], &vec!["uint256".to_owned()]).unwrap();
    assert_eq!(tokens.len(), 1);
}

#[test]
fn encode_command_output() {
    let out = encode_args(None, &vec!["ff".to_owned()], &vec!["uint256".to_owned()]).unwrap();
    assert_eq!(out, format!("0x{}", hex_word(255)));
    let out = encode_args(
        Some("transfer(address,uint256)".to_owned()),
        &vec![ONE_ADDRESS.to_owned(), "5".to_owned()],
        &vec!["address".to_owned(), "uint256".to_owned()],
    )
    .unwrap();
    assert_eq!(out, format!("0xa9059cbb{}{}", hex_word(1), hex_word(5)));
    assert_eq!(
        encode_args(None, &vec!["q".to_owned()], &vec!["bool".to_owned()]),
        Err(EncodeArgsError::Token(TokenParseError::InvalidBool))
    );
    assert_eq!(
        encode_args(Some("transfer(address)".to_owned()), &vec![], &vec![]),
        Err(EncodeArgsError::Function)
    );
}

#[test]
fn calldata_of_an_abi_function() {
    let data = calldata_encode(
        "function transfer(address to, uint256 amount)",
        &vec![ONE_ADDRESS.to_owned(), "5".to_owned()],
    )
    .unwrap();
    assert_eq!(prefixed_lower_hex(&data), format!("0xa9059cbb{}{}", hex_word(1), hex_word(5)));
    assert_eq!(calldata_encode("nothing here", &vec![]), Err(CalldataError::NoFunction));
    assert_eq!(
        calldata_encode("function f(uint256[] xs)", &vec!["1".to_owned()]),
        Err(CalldataError::UnsupportedParameterType)
    );
    assert_eq!(
        calldata_encode("function f(uint8 x)", &vec!["999".to_owned()]),
        Err(CalldataError::Param(ParamParseError::InvalidUint))
    );
    assert_eq!(
        calldata_encode("function f(uint8 x, bool y)", &vec!["9".to_owned()]),
        Err(CalldataError::Encoding)
    );
}

#[test]
fn hex_text_is_lower_case() {
    assert_eq!(lower_hex_text(&[0xab, 0x01, 0x00]), "ab0100");
    assert_eq!(prefixed_lower_hex(&[]), "0x");
}

#[test]
fn selectors_of_human_readable_signatures() {
    assert_eq!(selector_text("transfer(address,uint256)"), Some("0xa9059cbb".to_owned()));
    assert_eq!(
        selector_text("function transfer(address to, uint256 amount)"),
        Some("0xa9059cbb".to_owned())
    );
    assert_eq!(selector_text("not a signature"), None);
}

const HUGE_ARRAY: &str = "function f(uint256[99999999999999999999999] xs)";

#[test]
fn array_sizes_that_fit_a_usize() {
    assert!(array_sizes_fit_exec("function f(uint256[3] xs, bool[][2] ys)"));
    assert!(array_sizes_fit_exec("function f(uint256[ 18446744073709551615] xs)"));
    assert!(!array_sizes_fit_exec("function f(uint256[18446744073709551616] xs)"));
    assert!(!array_sizes_fit_exec(HUGE_ARRAY));
    assert!(!array_sizes_fit_exec("[\t 000000000000000000099999999999999999999]"));
    assert!(array_sizes_fit_exec("function f(uint99999999999999999999999 x)"));
    assert!(array_sizes_fit_exec("function f(uint256[0x99999999999999999999999] xs)"));
    assert!(array_sizes_fit_exec(""));
    assert!(array_sizes_fit_exec("["));
}

#[test]
fn oversized_arrays_are_refused() {
    assert_eq!(calldata_encode(HUGE_ARRAY, &vec![]), Err(CalldataError::ArraySizeTooLarge));
    assert_eq!(
        encode_args(Some(HUGE_ARRAY.to_owned()), &vec![], &vec![]),
        Err(EncodeArgsError::ArraySizeTooLarge)
    );
    assert_eq!(
        encode_args(Some(HUGE_ARRAY.to_owned()), &vec!["q".to_owned()], &vec!["bool".to_owned()]),
        Err(EncodeArgsError::Token(TokenParseError::InvalidBool))
    );
    assert_eq!(selector_text(HUGE_ARRAY), None);
    assert!(matches!(calldata_decode(HUGE_ARRAY, &[0; 4]), Err(CalldataDecodeError::ArraySizeTooLarge)));
}

fn bytes_of_hex(text: &str) -> Vec<u8> {
    (0..text.len() / 2).map(|i| u8::from_str_radix(&text[2 * i..2 * i + 2], 16).unwrap()).collect()
}

#[test]
fn calldata_decodes_into_tokens() {
    let data = bytes_of_hex(&format!("a9059cbb{}{}", hex_word(1), hex_word(5)));
    let tokens = calldata_decode("function transfer(address to, uint256 amount)", &data).unwrap();
    assert_eq!(tokens.len(), 2);
    let mut one = [0u8; 20];
    one[19] = 1;
    assert!(matches!(tokens[0], AbiToken::Address(a) if a == one));
    assert!(matches!(tokens[1], AbiToken::Uint(w) if w == word(5)));
}

#[test]
fn calldata_decodes_arrays_and_fixed_bytes() {
    let data = bytes_of_hex(&format!(
        "00000000{}{}{}{}{}",
        hex_word(0x40),
        format!("abcd{}", "0".repeat(60)),
        hex_word(2),
        hex_word(7),
        hex_word(9),
    ));
    let tokens = calldata_decode("function f(uint256[] xs, bytes2 b)", &data).unwrap();
    assert_eq!(tokens.len(), 2);
    match &tokens[0] {
        AbiToken::Array(items) => {
            assert_eq!(items.len(), 2);
            assert!(matches!(items[0], AbiToken::Uint(w) if w == word(7)));
            assert!(matches!(items[1], AbiToken::Uint(w) if w == word(9)));
        }
        other => panic!("not an array: {other:?}"),
    }
    assert!(matches!(&tokens[1], AbiToken::FixedBytes(b) if *b == vec![0xab, 0xcd]));
    let data = bytes_of_hex(&format!("00000000{}{}", hex_word(3), hex_word(4)));
    let tokens = calldata_decode("function g(uint8[2] xs)", &data).unwrap();
    match &tokens[0] {
        AbiToken::FixedArray(items) => {
            assert_eq!(items.len(), 2);
            assert!(matches!(items[1], AbiToken::Uint(w) if w == word(4)));
        }
        other => panic!("not a fixed array: {other:?}"),
    }
}

#[test]
fn calldata_decode_errors() {
    assert!(matches!(calldata_decode("nothing here", &[0; 36]), Err(CalldataDecodeError::NoFunction)));
    assert!(matches!(
        calldata_decode("function f(uint256 x)", &[0; 3]),
        Err(CalldataDecodeError::MissingSelector)
    ));
    assert!(matches!(
        calldata_decode("function f(uint256 x)", &[0; 20]),
        Err(CalldataDecodeError::DecodeFailed)
    ));
    let tokens = calldata_decode("function f()", &[1, 2, 3, 4]).unwrap();
    assert!(tokens.is_empty());
}

#[test]
fn white_space_characters() {
    assert!(is_white_space(' '));
    assert!(is_white_space('\t'));
    assert!(is_white_space('\u{b}'));
    assert!(is_white_space('\r'));
    assert!(is_white_space('\u{2003}'));
    assert!(!is_white_space('a'));
    assert!(!is_white_space('\u{1f}'));
}
