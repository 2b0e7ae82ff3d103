use switchboard_function::instruction::decode_payload;
use switchboard_function::{
    fetched_tweet, settle_tweet, settle_tweet_at, AccountMeta, ContainerParams, Error, Instruction,
    PublicMetrics, Pubkey, RunnerAccounts, Tweet, Withheld,
};

const NOW: i64 = 1_702_000_000;
const SETTLE: [u8; 8] = [115, 114, 114, 182, 30, 137, 109, 145];

fn key(seed: u8) -> Pubkey {
    Pubkey::new_from_array([seed; 32])
}

fn request() -> ContainerParams {
    let text = format!(
        "PID={},REALM_PDA={},USER={},USER_ACCOUNT_PDA={},TWITTER_USERNAME={},TWEET_ID={}",
        "4wBqpZM9xaSheZzJSMawUKKwhdpChKbZ5eu5ky4Vigw",
        "TokenkegQfeZyiNwAJbNbGKPFXCWuBvf9Ss623VQ5DA",
        "SW1TCH7qEPTdLsDHRgPuMQjbQxKdH2aBStViMFnt64f",
        "US517G5965aydkZ46HS38QLi7UQiSojurfbQfKCELFx",
        "elonmusk",
        "1734080437859787085"
    );
    ContainerParams::decode(&text.into_bytes()).unwrap()
}

fn runner() -> RunnerAccounts {
    RunnerAccounts { signer: key(5), function: key(6), function_request_key: key(8) }
}

fn tweet(age: i64) -> Tweet {
    Tweet {
        id: 1734080437859787085,
        text: "Just claimed my $VTX rewards, thanks @Vortexcoin!".to_string(),
        author_id: Some(44196397),
        created_at: Some(NOW - age),
        public_metrics: Some(PublicMetrics {
            retweet_count: 3,
            reply_count: 2,
            like_count: 10,
            quote_count: Some(1),
        }),
        withheld: None,
    }
}

fn expected(points: u64) -> Instruction {
    let mut program = [0u8; 32];
    for (i, byte) in program.iter_mut().enumerate() {
        *byte = i as u8 + 1;
    }
    let token = [
        6, 221, 246, 225, 215, 101, 161, 147, 217, 203, 225, 70, 206, 235, 121, 172, 28, 180, 133,
        237, 95, 91, 55, 145, 58, 140, 245, 133, 126, 255, 0, 169,
    ];
    let switchboard = [
        6, 136, 81, 198, 140, 104, 50, 240, 47, 165, 129, 177, 191, 73, 27, 119, 202, 65, 119,
        107, 162, 185, 136, 181, 166, 250, 186, 142, 227, 162, 236, 144,
    ];
    Instruction {
        program_id: Pubkey::new_from_array(program),
        accounts: vec![
            AccountMeta { pubkey: key(5), is_signer: true, is_writable: false },
            AccountMeta {
                pubkey: Pubkey::new_from_array(switchboard),
                is_signer: false,
                is_writable: false,
            },
            AccountMeta { pubkey: Pubkey::new_from_array(token), is_signer: false, is_writable: true },
            AccountMeta { pubkey: key(7), is_signer: false, is_writable: true },
            AccountMeta { pubkey: key(7), is_signer: false, is_writable: true },
            AccountMeta { pubkey: key(6), is_signer: false, is_writable: false },
            AccountMeta { pubkey: key(8), is_signer: false, is_writable: false },
        ],
        data: [&SETTLE[..], &points.to_le_bytes()[..]].concat(),
    }
}

#[test]
fn eligible_tweet_is_settled_with_its_points() {
    let instruction = settle_tweet_at(&request(), Some(tweet(5 * 3_600)), NOW, &runner()).unwrap();
    assert_eq!(decode_payload(&instruction.data), Some((SETTLE, 16)));
    assert_eq!(instruction.accounts.len(), 7);
    assert_eq!(instruction, expected(16));
}

#[test]
fn recent_tweet_ends_the_run() {
    let outcome = settle_tweet_at(&request(), Some(tweet(3_600)), NOW, &runner());
    assert_eq!(outcome, Err(Error::TooRecent));
}

#[test]
fn tweet_that_was_not_found_ends_the_run() {
    assert_eq!(settle_tweet_at(&request(), None, NOW, &runner()), Err(Error::AttestationUnavailable));
    assert_eq!(settle_tweet(&request(), None, &runner()), Err(Error::AttestationUnavailable));
    assert_eq!(fetched_tweet(None), Err(Error::AttestationUnavailable));
    assert_eq!(fetched_tweet(Some(tweet(0))), Ok(tweet(0)));
    assert_eq!(Error::AttestationUnavailable.message(), "tweet not found");
}

#[test]
fn first_failing_step_gives_the_error() {
    let mut t = tweet(5 * 3_600);
    t.public_metrics = None;
    t.withheld = Some(Withheld { copyright: None, country_codes: vec![] });
    t.text = "gm".to_string();
    assert_eq!(
        settle_tweet_at(&request(), Some(t.clone()), NOW, &runner()),
        Err(Error::MissingRequiredTag)
    );
    t.text = "gm $VTX".to_string();
    assert_eq!(
        settle_tweet_at(&request(), Some(t.clone()), NOW, &runner()),
        Err(Error::MissingRequiredMention)
    );
    t.text = "gm $VTX @Vortexcoin".to_string();
    assert_eq!(settle_tweet_at(&request(), Some(t.clone()), NOW, &runner()), Err(Error::Withheld));
    t.withheld = None;
    assert_eq!(
        settle_tweet_at(&request(), Some(t.clone()), NOW, &runner()),
        Err(Error::MissingMetric)
    );
    t.public_metrics = Some(PublicMetrics {
        retweet_count: 1,
        reply_count: 0,
        like_count: u64::MAX,
        quote_count: Some(0),
    });
    assert_eq!(
        settle_tweet_at(&request(), Some(t.clone()), NOW, &runner()),
        Err(Error::ArithmeticOverflow)
    );
    t.public_metrics = Some(PublicMetrics {
        retweet_count: 0,
        reply_count: 0,
        like_count: u64::MAX,
        quote_count: Some(0),
    });
    assert_eq!(settle_tweet_at(&request(), Some(t), NOW, &runner()), Ok(expected(u64::MAX)));
}

#[test]
fn run_by_the_system_clock() {
    let mut old = tweet(0);
    old.created_at = Some(1_000_000_000);
    assert_eq!(settle_tweet(&request(), Some(old), &runner()), Ok(expected(16)));
    let mut future = tweet(0);
    future.created_at = Some(i64::MAX);
    assert_eq!(settle_tweet(&request(), Some(future), &runner()), Err(Error::TooRecent));
}
