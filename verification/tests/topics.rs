use grandpa_communication::topic::{
    global_topic, global_topic_name, round_topic, round_topic_name,
};

fn hex(text: &str) -> Vec<u8> {
    (0..text.len() / 2)
        .map(|i| u8::from_str_radix(&text[2 * i..2 * i + 2], 16).unwrap())
        .collect()
}

#[test]
fn round_names_are_set_dash_round() {
    assert_eq!(round_topic_name(7, 12), b"12-7".to_vec());
    assert_eq!(round_topic_name(0, 0), b"0-0".to_vec());
    assert_eq!(round_topic_name(10, 100), b"100-10".to_vec());
    assert_eq!(
        round_topic_name(u64::MAX, u64::MAX),
        b"18446744073709551615-18446744073709551615".to_vec()
    );
}

#[test]
fn round_names_match_formatting() {
    for set_id in [0u64, 1, 9, 10, 11, 99, 100, 4_294_967_296, u64::MAX] {
        for round in [0u64, 5, 19, 20, 909, 1_000_000, u64::MAX - 1] {
            let expected = format!("{}-{}", set_id, round);
            assert_eq!(round_topic_name(round, set_id), expected.into_bytes());
        }
        let expected = format!("{}-GLOBAL", set_id);
        assert_eq!(global_topic_name(set_id), expected.into_bytes());
    }
}

#[test]
fn global_names_end_in_the_word() {
    assert_eq!(global_topic_name(4), b"4-GLOBAL".to_vec());
}

#[test]
fn round_topics_are_blake2_hashes() {
    assert_eq!(
        round_topic(3, 4).to_vec(),
        hex("1d213cc5ce5eec25d457e3fc0aab8d1bf282b3a6ad68bb14ada0bbe7fa3070c6")
    );
    assert_eq!(
        round_topic(7, 12).to_vec(),
        hex("152d4d557d01091baecff83dc2b63d4ffa8856edf8ff638bfa5d4f4ec6e1fad2")
    );
    assert_eq!(
        round_topic(u64::MAX, u64::MAX).to_vec(),
        hex("1906a0e957df658856a7f4b53a46af1e3143ecccc27ab46b2c4f7b8fe69ecbc7")
    );
}

#[test]
fn global_topics_are_blake2_hashes() {
    assert_eq!(
        global_topic(4).to_vec(),
        hex("c8d81431b6a61274bcb437dc7f23022c6e050733161eeff20d3ca8299a11e9bc")
    );
}

#[test]
fn names_that_look_alike_differ() {
    assert_ne!(round_topic_name(1, 11), round_topic_name(11, 1));
    assert_ne!(round_topic_name(12, 3), round_topic_name(2, 31));
    assert_ne!(global_topic_name(1), global_topic_name(11));
    assert_ne!(round_topic(1, 11), round_topic(11, 1));
    assert_ne!(round_topic(1, 1), global_topic(1));
}
