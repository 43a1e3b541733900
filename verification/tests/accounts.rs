use multisender_ft::is_valid_account;

fn valid(id: &str) -> bool {
    is_valid_account(&id.to_string())
}

#[test]
fn well_formed_identifiers_are_accepted() {
    for id in ["ab", "alice.near", "a_b-c.d", "0x", "fungible_token.testnet", "dev-1652445607364-51522207500129", "a.b.c.d"] {
        assert!(valid(id), "{:?}", id);
    }
}

#[test]
fn identifier_length_is_between_2_and_64_bytes() {
    assert!(!valid(""));
    assert!(!valid("a"));
    assert!(valid("aa"));
    assert!(valid(&"a".repeat(64)));
    assert!(!valid(&"a".repeat(65)));
    assert!(!valid(&"a".repeat(1000)));
}

#[test]
fn identifier_holds_lower_case_letters_digits_and_separators_only() {
    for id in ["Alice", "alice near", "alice@near", "alice/near", "alice\n", "ALICE", "a+b", "a:b", "a`b", "a{b", "a/0"] {
        assert!(!valid(id), "{:?}", id);
    }
}

#[test]
fn separators_stand_between_other_characters_only() {
    for id in [".ab", "ab.", "-ab", "ab-", "_ab", "ab_", "a..b", "a.-b", "a-_b", "a__b", "..", "-", "a._.b"] {
        assert!(!valid(id), "{:?}", id);
    }
    for id in ["a.b", "a-b", "a_b", "a.b-c_d"] {
        assert!(valid(id), "{:?}", id);
    }
}

#[test]
fn identifier_outside_ascii_is_rejected() {
    assert!(!valid("é"));
    assert!(!valid("alicé.near"));
    assert!(!valid("алиса"));
}
