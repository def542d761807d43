use anchor_lang::prelude::Pubkey;
use anchor_lang::AnchorSerialize;
use vault::address::Address;
use vault::layout::{
    decode_user_account, decode_vault, encode_user_account, encode_vault, USER_ACCOUNT_LEN,
    VAULT_LEN,
};
use vault::state::{UserAccount, Vault};

fn counting() -> [u8; 32] {
    let mut bytes = [0u8; 32];
    for (i, byte) in bytes.iter_mut().enumerate() {
        *byte = i as u8;
    }
    bytes
}

#[test]
fn vault_record_is_asset_then_bump() {
    let record = Vault { mint: Address::new(counting()), bump: 254 };
    let bytes = encode_vault(&record);
    assert_eq!(bytes.len(), VAULT_LEN);
    assert_eq!(VAULT_LEN, 33);
    assert_eq!(&bytes[..32], &counting()[..]);
    assert_eq!(bytes[32], 254);
    assert_eq!(decode_vault(&bytes), Some(record));
}

#[test]
fn ledger_entry_is_owner_then_balance() {
    let entry = UserAccount { user: Address::new(counting()), balance: 0x0102_0304_0506_0708 };
    let bytes = encode_user_account(&entry);
    assert_eq!(bytes.len(), USER_ACCOUNT_LEN);
    assert_eq!(USER_ACCOUNT_LEN, 40);
    assert_eq!(&bytes[..32], &counting()[..]);
    assert_eq!(&bytes[32..], &[8u8, 7, 6, 5, 4, 3, 2, 1][..]);
    assert_eq!(decode_user_account(&bytes), Some(entry));
}

#[test]
fn records_of_another_length_are_not_read() {
    assert_eq!(decode_vault(&[0u8; 32]), None);
    assert_eq!(decode_vault(&[0u8; 34]), None);
    assert_eq!(decode_vault(&[]), None);
    assert_eq!(decode_user_account(&[0u8; 39]), None);
    assert_eq!(decode_user_account(&[0u8; 41]), None);
    assert_eq!(decode_user_account(&[0u8; 33]), None);
    assert_eq!(
        decode_vault(&[0u8; 33]),
        Some(Vault { mint: Address::new([0u8; 32]), bump: 0 })
    );
    assert_eq!(
        decode_user_account(&[0xFFu8; 40]),
        Some(UserAccount { user: Address::new([0xFFu8; 32]), balance: u64::MAX })
    );
}

#[test]
fn layout_is_the_one_of_the_account_encoding() {
    let key = Pubkey::new_from_array(counting());
    let mut expected: Vec<u8> = Vec::new();
    key.serialize(&mut expected).unwrap();
    251u8.serialize(&mut expected).unwrap();
    let record = Vault { mint: Address::new(counting()), bump: 251 };
    assert_eq!(encode_vault(&record), expected);

    let mut expected: Vec<u8> = Vec::new();
    key.serialize(&mut expected).unwrap();
    123_456_789_012u64.serialize(&mut expected).unwrap();
    let entry = UserAccount { user: Address::new(counting()), balance: 123_456_789_012 };
    assert_eq!(encode_user_account(&entry), expected);
}
