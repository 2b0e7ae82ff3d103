use std::str::FromStr;

use switchboard_function::{ContainerParams, Error, ParamKey, Pubkey};

const TOKEN_PROGRAM: &str = "TokenkegQfeZyiNwAJbNbGKPFXCWuBvf9Ss623VQ5DA";
const TOKEN_PROGRAM_BYTES: [u8; 32] = [
    6, 221, 246, 225, 215, 101, 161, 147, 217, 203, 225, 70, 206, 235, 121, 172, 28, 180, 133,
    237, 95, 91, 55, 145, 58, 140, 245, 133, 126, 255, 0, 169,
];
const SWITCHBOARD_PROGRAM: &str = "SW1TCH7qEPTdLsDHRgPuMQjbQxKdH2aBStViMFnt64f";
const SWITCHBOARD_PROGRAM_BYTES: [u8; 32] = [
    6, 136, 81, 198, 140, 104, 50, 240, 47, 165, 129, 177, 191, 73, 27, 119, 202, 65, 119, 107,
    162, 185, 136, 181, 166, 250, 186, 142, 227, 162, 236, 144,
];
const ALL_ZERO: &str = "11111111111111111111111111111111";

fn decode(text: &str) -> Result<ContainerParams, Error> {
    ContainerParams::decode(&text.as_bytes().to_vec())
}

fn full() -> String {
    format!(
        "PID={},REALM_PDA={},USER={},USER_ACCOUNT_PDA={},TWITTER_USERNAME={},TWEET_ID={}",
        TOKEN_PROGRAM, TOKEN_PROGRAM, TOKEN_PROGRAM, TOKEN_PROGRAM, "elonmusk", "1730464228400631814"
    )
}

#[test]
fn test_params_decode() {
    let request_params_string = format!(
        "PID={},REALM_PDA={},USER={},USER_ACCOUNT_PDA={},TWITTER_USERNAME={},TWEET_ID={}",
        spl_token::ID,
        spl_token::ID,
        spl_token::ID,
        spl_token::ID,
        "elonmusk",
        "1730464228400631814"
    );
    let request_params_bytes = request_params_string.into_bytes();

    let params = ContainerParams::decode(&request_params_bytes).unwrap();

    assert_eq!(params.program_id, Pubkey::new_from_array(spl_token::ID.to_bytes()));
    assert_eq!(params.user, Pubkey::new_from_array(spl_token::ID.to_bytes()));
    assert_eq!(params.realm_pda, Pubkey::new_from_array(spl_token::ID.to_bytes()));
    assert_eq!(params.user_account_pda, Pubkey::new_from_array(spl_token::ID.to_bytes()));
    assert_eq!(params.twitter_username, "elonmusk");
    assert_eq!(
        params.tweet_id,
        twitter_v2::id::NumericId::from_str("1730464228400631814").unwrap().as_u64()
    );
}

#[test]
fn decode_reads_every_field() {
    let text = format!(
        "PID={},REALM_PDA={},USER={},USER_ACCOUNT_PDA={},TWITTER_USERNAME=jack,TWEET_ID=20",
        TOKEN_PROGRAM, SWITCHBOARD_PROGRAM, "11111111111111111111111111111112", TOKEN_PROGRAM
    );
    let params = decode(&text).unwrap();
    assert_eq!(params.program_id.bytes, TOKEN_PROGRAM_BYTES);
    assert_eq!(params.realm_pda.bytes, SWITCHBOARD_PROGRAM_BYTES);
    let mut one = [0u8; 32];
    one[31] = 1;
    assert_eq!(params.user.bytes, one);
    assert_eq!(params.user_account_pda.bytes, TOKEN_PROGRAM_BYTES);
    assert_eq!(params.twitter_username, "jack");
    assert_eq!(params.tweet_id, 20);
}

#[test]
fn address_is_decoded_from_base58() {
    let address = Pubkey::from_str(TOKEN_PROGRAM).unwrap();
    assert_eq!(address.to_bytes(), TOKEN_PROGRAM_BYTES);
    assert_eq!(address, Pubkey::new_from_array(TOKEN_PROGRAM_BYTES));
    assert!(!address.is_default());
    assert_eq!(
        address.to_bytes(),
        solana_program::pubkey::Pubkey::from_str(TOKEN_PROGRAM).unwrap().to_bytes()
    );
}

#[test]
fn address_rejects_what_is_no_address() {
    assert_eq!(Pubkey::from_str(""), None);
    assert_eq!(Pubkey::from_str("elonmusk"), None);
    assert_eq!(Pubkey::from_str("0OIl"), None);
    assert_eq!(Pubkey::from_str(&TOKEN_PROGRAM[1..]), None);
    assert_eq!(Pubkey::from_str(&format!("{}1", TOKEN_PROGRAM)), None);
    assert_eq!(Pubkey::from_str(&format!("{}{}", TOKEN_PROGRAM, TOKEN_PROGRAM)), None);
}

#[test]
fn default_address_is_all_zero() {
    assert_eq!(Pubkey::default().to_bytes(), [0u8; 32]);
    assert!(Pubkey::default().is_default());
    assert_eq!(Pubkey::from_str(ALL_ZERO), Some(Pubkey::default()));
    assert_ne!(Pubkey::new_from_array(TOKEN_PROGRAM_BYTES), Pubkey::default());
}

#[test]
fn last_write_wins_on_duplicates() {
    let text = format!("PID={},PID={},{}", TOKEN_PROGRAM, SWITCHBOARD_PROGRAM, &full()[48..]);
    let params = decode(&text).unwrap();
    assert_eq!(params.program_id.bytes, SWITCHBOARD_PROGRAM_BYTES);
    assert_eq!(params.realm_pda.bytes, TOKEN_PROGRAM_BYTES);

    let text = format!("{},TWEET_ID=7,TWITTER_USERNAME=jack,TWEET_ID=9", full());
    let params = decode(&text).unwrap();
    assert_eq!(params.tweet_id, 9);
    assert_eq!(params.twitter_username, "jack");
}

#[test]
fn later_default_overwrites_earlier_value() {
    let text = format!("{},TWEET_ID=0", full());
    assert_eq!(decode(&text), Err(Error::MissingField(ParamKey::TweetId)));
    let text = format!("{},USER={}", full(), ALL_ZERO);
    assert_eq!(decode(&text), Err(Error::MissingField(ParamKey::User)));
}

#[test]
fn decode_does_not_depend_on_order() {
    let forward = decode(&full()).unwrap();
    let backward = format!(
        "TWEET_ID={},TWITTER_USERNAME={},USER_ACCOUNT_PDA={},USER={},REALM_PDA={},PID={}",
        "1730464228400631814", "elonmusk", TOKEN_PROGRAM, TOKEN_PROGRAM, TOKEN_PROGRAM, TOKEN_PROGRAM
    );
    assert_eq!(decode(&backward).unwrap(), forward);
    let mixed = format!(
        "USER={},TWEET_ID={},PID={},other=1,TWITTER_USERNAME={},REALM_PDA={},USER_ACCOUNT_PDA={}",
        TOKEN_PROGRAM, "1730464228400631814", TOKEN_PROGRAM, "elonmusk", TOKEN_PROGRAM, TOKEN_PROGRAM
    );
    assert_eq!(decode(&mixed).unwrap(), forward);
}

#[test]
fn missing_tweet_id_is_reported() {
    let text = format!(
        "PID={},REALM_PDA={},USER={},USER_ACCOUNT_PDA={},TWITTER_USERNAME=elonmusk",
        TOKEN_PROGRAM, TOKEN_PROGRAM, TOKEN_PROGRAM, TOKEN_PROGRAM
    );
    let error = decode(&text).unwrap_err();
    assert_eq!(error, Error::MissingField(ParamKey::TweetId));
    assert_eq!(ParamKey::TweetId.as_str(), "TWEET_ID");
    assert_eq!(error.message(), "TWEET_ID cannot be undefined");
}

#[test]
fn each_missing_field_is_reported_by_name() {
    let keys = [
        ("PID", ParamKey::Pid),
        ("REALM_PDA", ParamKey::RealmPda),
        ("USER", ParamKey::User),
        ("USER_ACCOUNT_PDA", ParamKey::UserAccountPda),
        ("TWITTER_USERNAME", ParamKey::TwitterUsername),
        ("TWEET_ID", ParamKey::TweetId),
    ];
    for (name, key) in keys {
        let text: Vec<String> = full()
            .split(',')
            .filter(|entry| !entry.starts_with(&format!("{}=", name)))
            .map(|entry| entry.to_string())
            .collect();
        assert_eq!(text.len(), 5);
        assert_eq!(decode(&text.join(",")), Err(Error::MissingField(key)));
        assert_eq!(key.as_str(), name);
        assert_eq!(ParamKey::from_name(name), Some(key));
        assert_eq!(Error::MissingField(key).message(), format!("{} cannot be undefined", name));
    }
}

#[test]
fn first_missing_field_in_check_order_wins() {
    assert_eq!(decode(""), Err(Error::MissingField(ParamKey::Pid)));
    assert_eq!(decode("TWEET_ID=5"), Err(Error::MissingField(ParamKey::Pid)));
    let text = format!("TWEET_ID=5,PID={}", TOKEN_PROGRAM);
    assert_eq!(decode(&text), Err(Error::MissingField(ParamKey::RealmPda)));
    let text = format!("USER_ACCOUNT_PDA={},PID={},REALM_PDA={}", TOKEN_PROGRAM, TOKEN_PROGRAM, TOKEN_PROGRAM);
    assert_eq!(decode(&text), Err(Error::MissingField(ParamKey::User)));
    let text = format!(
        "USER={},PID={},REALM_PDA={},TWEET_ID=1",
        TOKEN_PROGRAM, TOKEN_PROGRAM, TOKEN_PROGRAM
    );
    assert_eq!(decode(&text), Err(Error::MissingField(ParamKey::UserAccountPda)));
    let text = format!(
        "USER={},PID={},REALM_PDA={},TWEET_ID=1,USER_ACCOUNT_PDA={}",
        TOKEN_PROGRAM, TOKEN_PROGRAM, TOKEN_PROGRAM, TOKEN_PROGRAM
    );
    assert_eq!(decode(&text), Err(Error::MissingField(ParamKey::TwitterUsername)));
}

#[test]
fn default_values_count_as_missing() {
    let text = full().replacen(TOKEN_PROGRAM, ALL_ZERO, 1);
    assert_eq!(decode(&text), Err(Error::MissingField(ParamKey::Pid)));
    let text = full().replace("elonmusk", "");
    assert_eq!(decode(&text), Err(Error::MissingField(ParamKey::TwitterUsername)));
    let text = full().replace("1730464228400631814", "0");
    assert_eq!(decode(&text), Err(Error::MissingField(ParamKey::TweetId)));
    let text = full().replace("1730464228400631814", "000");
    assert_eq!(decode(&text), Err(Error::MissingField(ParamKey::TweetId)));
}

#[test]
fn bytes_that_are_no_text_are_malformed() {
    let mut bytes = full().into_bytes();
    bytes.push(0xff);
    assert_eq!(ContainerParams::decode(&bytes), Err(Error::MalformedInput));
    assert_eq!(ContainerParams::decode(&vec![0xc3]), Err(Error::MalformedInput));
    assert_eq!(ContainerParams::decode(&vec![0xed, 0xa0, 0x80]), Err(Error::MalformedInput));
    assert_eq!(Error::MalformedInput.message(), "container params are malformed");
}

#[test]
fn unreadable_values_are_malformed() {
    let text = full().replacen(TOKEN_PROGRAM, "elonmusk", 1);
    assert_eq!(decode(&text), Err(Error::MalformedInput));
    let text = format!("PID=,{}", full());
    assert_eq!(decode(&text), Err(Error::MalformedInput));
    for id in ["", "12a", "-1", "+", " 1", "1 ", "1_000", "18446744073709551616", "١٢٣"] {
        let text = full().replace("1730464228400631814", id);
        assert_eq!(decode(&text), Err(Error::MalformedInput), "{:?}", id);
    }
    assert_eq!(decode("TWEET_ID=x"), Err(Error::MalformedInput));
}

#[test]
fn tweet_id_is_read_as_decimal() {
    let ids: [(&str, u64); 6] = [
        ("1", 1),
        ("+42", 42),
        ("007", 7),
        ("+0001", 1),
        ("1730464228400631814", 1730464228400631814),
        ("18446744073709551615", u64::MAX),
    ];
    for (text, id) in ids {
        let params = decode(&full().replace("1730464228400631814", text)).unwrap();
        assert_eq!(params.tweet_id, id);
        assert_eq!(twitter_v2::id::NumericId::from_str(text).unwrap().as_u64(), id);
    }
    for text in ["+0", "0", "+000"] {
        let outcome = decode(&full().replace("1730464228400631814", text));
        assert_eq!(outcome, Err(Error::MissingField(ParamKey::TweetId)));
    }
    for text in ["++1", "+-1", "1+", "+18446744073709551616", "99999999999999999999999"] {
        let outcome = decode(&full().replace("1730464228400631814", text));
        assert_eq!(outcome, Err(Error::MalformedInput));
    }
}

#[test]
fn unknown_keys_and_bare_words_are_passed_over() {
    let text = format!("VERSION=2,,flag,=x,pid=zzz,PID =zzz, TWEET_ID=zzz,{},TRAILER=", full());
    let params = decode(&text).unwrap();
    assert_eq!(params, decode(&full()).unwrap());
    let text = format!("{},", full());
    assert_eq!(decode(&text).unwrap(), decode(&full()).unwrap());
}

#[test]
fn entry_is_cut_at_its_first_equals_sign() {
    let text = full().replace("elonmusk", "a=b=c");
    assert_eq!(decode(&text).unwrap().twitter_username, "a=b=c");
    let text = full().replace("elonmusk", "=");
    assert_eq!(decode(&text).unwrap().twitter_username, "=");
    let text = full().replace("1730464228400631814", "=5");
    assert_eq!(decode(&text), Err(Error::MalformedInput));
}

#[test]
fn comma_always_ends_an_entry() {
    let text = full().replace("elonmusk", "elon,musk");
    assert_eq!(decode(&text).unwrap().twitter_username, "elon");
    let text = full().replace("elonmusk", "elon,TWITTER_USERNAME=musk");
    assert_eq!(decode(&text).unwrap().twitter_username, "musk");
}

#[test]
fn username_may_hold_any_characters() {
    let text = full().replace("elonmusk", "élon 🚀 mусk");
    assert_eq!(decode(&text).unwrap().twitter_username, "élon 🚀 mусk");
    let text = format!("ключ=значение,{}", full().replace("elonmusk", "名前"));
    let params = decode(&text).unwrap();
    assert_eq!(params.twitter_username, "名前");
    assert_eq!(params.tweet_id, 1730464228400631814);
    assert_eq!(params.program_id.bytes, TOKEN_PROGRAM_BYTES);
}

#[test]
fn key_names_are_exact() {
    assert_eq!(ParamKey::from_name("PID"), Some(ParamKey::Pid));
    assert_eq!(ParamKey::from_name("pid"), None);
    assert_eq!(ParamKey::from_name("PID "), None);
    assert_eq!(ParamKey::from_name(""), None);
    assert_eq!(ParamKey::from_name("USER_ACCOUNT"), None);
    assert_eq!(ParamKey::from_name("USER_ACCOUNT_PDA"), Some(ParamKey::UserAccountPda));
    assert_eq!(ParamKey::from_name("TWITTER_USERNAME"), Some(ParamKey::TwitterUsername));
}
