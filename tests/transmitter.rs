use transmitter::{
    fingerprint_bytes, message_hash, AccountId, Error, MessageType, Transmitter, INITIAL_FEE,
};

fn account(b: u8) -> AccountId {
    AccountId::from_bytes([b; 32])
}

fn alice() -> AccountId {
    account(1)
}

fn bob() -> AccountId {
    account(2)
}

fn carol() -> AccountId {
    account(3)
}

fn text(s: &str) -> Vec<u8> {
    s.as_bytes().to_vec()
}

#[test]
fn lib_it_works() {
    let caller = alice();
    let mut transmitter = Transmitter::new(caller);
    if let Err(e) = transmitter.co_set_fee(caller, 0) {
        panic!("Error {:?} while setting registration fee.", e);
    }
    if let Err(e) = transmitter.register_username(caller, 0, 0, "Alice".into()) {
        panic!("Encountered error {:?} while registering Alice's name.", e)
    }
    if let Err(e) = transmitter.register_username(caller, 0, 0, "Bob".into()) {
        panic!("Encountered error {:?} while registering Bob's name.", e)
    }
    if let Err(e) = transmitter.send_message(
        caller,
        0,
        0,
        "Alice".into(),
        "Bob".into(),
        MessageType::Text,
        "Hello, Bob!".into(),
    ) {
        panic!("Encountered error {:?} while sending message to Bob.", e)
    }
    if let Err(e) = transmitter.send_message(
        caller,
        0,
        0,
        "Alice".into(),
        "Bob".into(),
        MessageType::Text,
        "Have a nice day!".into(),
    ) {
        panic!("Encountered error {:?} while sending message to Bob.", e)
    }
    let message_hash;
    match transmitter.get_all_messages(caller, "Bob".into()) {
        Ok(messages) => {
            if messages.len() != 2 {
                panic!("Expected to get 2 messages, instead got {}", messages.len());
            }
            message_hash = messages[0].hash;
        }
        Err(e) => panic!("Encountered error {:?} while getting Bob's messages.", e),
    }
    if let Err(e) = transmitter.delete_message(caller, "Bob".into(), message_hash) {
        panic!("Encountered error {:?} whilst deleting message.", e)
    }
}

#[test]
fn two_accounts_exchange_messages_and_withdraw() {
    let mut t = Transmitter::new(account(9));
    assert_eq!(t.register_username(alice(), 1, 5, "Alice".into()), Ok(()));
    assert_eq!(t.register_username(bob(), 2, 5, "Bob".into()), Ok(()));
    assert_eq!(t.get_usernames(alice()), Ok(vec!["Alice".to_string()]));
    assert_eq!(
        t.send_message(alice(), 1, 6, "Alice".into(), "Bob".into(), MessageType::Text, text("Hello, Bob!")),
        Ok(())
    );
    assert_eq!(t.get_all_messages(bob(), "Bob".into()).unwrap().len(), 1);
    assert_eq!(
        t.send_message(bob(), 1, 7, "Bob".into(), "Alice".into(), MessageType::Text, text("Hello, Alice! How are you?")),
        Ok(())
    );
    assert_eq!(t.get_all_messages(alice(), "Alice".into()).unwrap().len(), 1);
    assert_eq!(t.delete_all_messages(alice(), "Alice".into()), Ok(()));
    assert_eq!(t.delete_all_messages(bob(), "Bob".into()), Ok(()));
    assert_eq!(t.get_all_messages(alice(), "Alice".into()).unwrap_err(), Error::NoMessages);
    assert_eq!(
        t.send_message(bob(), 2, 8, "Bob".into(), "Alice".into(), MessageType::Text, text("car keys")),
        Ok(())
    );
    let messages = t.get_all_messages(alice(), "Alice".into()).unwrap();
    assert_eq!(messages.len(), 1);
    assert_eq!(messages[0].from, "Bob".to_string());
    assert_eq!(messages[0].content, text("car keys"));
    assert_eq!(messages[0].timestamp, 8);
    assert_eq!(t.delete_message(alice(), "Alice".into(), messages[0].hash), Ok(()));
    assert_eq!(t.get_balance(bob()), Ok(1));
    assert_eq!(t.get_balance(bob()), Ok(1));
    assert_eq!(t.withdraw_balance(bob(), true), Ok(()));
    assert_eq!(t.get_balance(bob()), Ok(0));
    assert_eq!(t.register_username(alice(), 1, 9, "Bob_resembles_a_sponge".into()), Ok(()));
    assert_eq!(t.sell_username_to(alice(), "Bob_resembles_a_sponge".into(), bob(), 100), Ok(()));
    let sales = t.get_sale_propositions(bob()).unwrap();
    assert_eq!(sales.len(), 1);
    assert_eq!(sales[0].username, "Bob_resembles_a_sponge".to_string());
    assert_eq!(sales[0].price, 100);
}

#[test]
fn new_registry_has_initial_fee_and_owner() {
    let t = Transmitter::new(carol());
    assert_eq!(t.check_fee(), INITIAL_FEE);
    assert_eq!(t.check_fee(), 1);
    let owner = t.owner_info();
    assert!(owner.account_id == carol());
    assert_eq!(owner.balance, 0);
    assert_eq!(t.get_balance(carol()), Err(Error::NoAccount));
    assert_eq!(t.get_usernames(carol()), Err(Error::NoAccount));
}

#[test]
fn exact_fee_messages_then_delete_first() {
    let mut t = Transmitter::new(carol());
    let fee = t.check_fee();
    assert_eq!(t.register_username(alice(), fee, 1, "alice".into()), Ok(()));
    assert_eq!(t.register_username(bob(), fee, 1, "bob".into()), Ok(()));
    assert_eq!(t.owner_info().balance, 2);
    assert_eq!(t.get_balance(alice()), Ok(0));
    assert_eq!(
        t.send_message(alice(), 3, 2, "alice".into(), "bob".into(), MessageType::Text, text("one")),
        Ok(())
    );
    assert_eq!(
        t.send_message(alice(), 3, 2, "alice".into(), "bob".into(), MessageType::Json, text("two")),
        Ok(())
    );
    let messages = t.get_all_messages(bob(), "bob".into()).unwrap();
    assert_eq!(messages.len(), 2);
    assert_eq!(t.delete_message(bob(), "bob".into(), messages[0].hash), Ok(()));
    let left = t.get_all_messages(bob(), "bob".into()).unwrap();
    assert_eq!(left.len(), 1);
    assert_eq!(left[0].content, text("two"));
}

#[test]
fn second_offer_refused_until_cancelled() {
    let mut t = Transmitter::new(carol());
    assert_eq!(t.register_username(alice(), 1, 1, "alice-name".into()), Ok(()));
    assert_eq!(t.sell_username_to(alice(), "alice-name".into(), bob(), 100), Ok(()));
    assert_eq!(
        t.sell_username_to(alice(), "alice-name".into(), carol(), 50),
        Err(Error::UsernameAlreadyInSale)
    );
    assert_eq!(t.cancel_sale(alice(), "alice-name".into()), Ok(()));
    assert_eq!(t.sell_username_to(alice(), "alice-name".into(), carol(), 50), Ok(()));
    assert_eq!(t.get_sale_propositions(bob()).unwrap_err(), Error::NoSalesForYou);
    let sales = t.get_sale_propositions(carol()).unwrap();
    assert_eq!(sales.len(), 1);
    assert_eq!(sales[0].price, 50);
    assert!(sales[0].to == carol());
}

#[test]
fn close_account_with_failed_payout_changes_nothing() {
    let mut t = Transmitter::new(carol());
    assert_eq!(t.register_username(alice(), 5, 1, "alice".into()), Ok(()));
    assert_eq!(t.get_balance(alice()), Ok(4));
    assert_eq!(t.close_account(alice(), false), Err(Error::CloseAccountFailed));
    assert_eq!(t.get_balance(alice()), Ok(4));
    assert_eq!(t.get_usernames(alice()), Ok(vec!["alice".to_string()]));
    assert_eq!(t.delete_all_messages(alice(), "alice".into()), Ok(()));
}

#[test]
fn close_account_removes_names_and_entry() {
    let mut t = Transmitter::new(carol());
    assert_eq!(t.register_username(alice(), 5, 1, "a1".into()), Ok(()));
    assert_eq!(t.register_username(alice(), 1, 1, "a2".into()), Ok(()));
    assert_eq!(t.register_username(bob(), 1, 1, "b1".into()), Ok(()));
    assert_eq!(t.close_account(alice(), true), Ok(()));
    assert_eq!(t.get_balance(alice()), Err(Error::NoAccount));
    assert_eq!(t.get_all_messages(alice(), "a1".into()), Err(Error::NameNonexistent("a1".into())));
    assert_eq!(t.get_all_messages(alice(), "a2".into()), Err(Error::NameNonexistent("a2".into())));
    assert_eq!(t.get_usernames(bob()), Ok(vec!["b1".to_string()]));
    assert_eq!(t.close_account(alice(), true), Err(Error::NoAccount));
    // a freed name can be registered again, by anyone
    assert_eq!(t.register_username(bob(), 1, 2, "a1".into()), Ok(()));
    assert_eq!(t.get_usernames(bob()), Ok(vec!["b1".to_string(), "a1".to_string()]));
}

#[test]
fn close_account_with_zero_balance_ignores_payout() {
    let mut t = Transmitter::new(carol());
    assert_eq!(t.register_username(alice(), 1, 1, "alice".into()), Ok(()));
    assert_eq!(t.close_account(alice(), false), Ok(()));
    assert_eq!(t.get_usernames(alice()), Err(Error::NoAccount));
}

#[test]
fn usernames_follow_their_owner() {
    let mut t = Transmitter::new(carol());
    assert_eq!(t.register_username(alice(), 1, 1, "x".into()), Ok(()));
    assert_eq!(t.register_username(bob(), 1, 1, "y".into()), Ok(()));
    assert_eq!(t.register_username(alice(), 1, 1, "z".into()), Ok(()));
    assert_eq!(t.get_usernames(alice()), Ok(vec!["x".to_string(), "z".to_string()]));
    assert_eq!(t.get_usernames(bob()), Ok(vec!["y".to_string()]));
    assert_eq!(t.delete_all_messages(alice(), "y".into()), Err(Error::WrongAccount("y".into())));
    assert_eq!(t.delete_all_messages(bob(), "y".into()), Ok(()));
}

#[test]
fn taken_name_is_refused_without_change() {
    let mut t = Transmitter::new(carol());
    assert_eq!(t.register_username(alice(), 3, 1, "name".into()), Ok(()));
    assert_eq!(t.register_username(bob(), 7, 2, "name".into()), Err(Error::NameTaken));
    assert_eq!(t.get_balance(bob()), Err(Error::NoAccount));
    assert_eq!(t.owner_info().balance, 1);
    assert_eq!(t.get_balance(alice()), Ok(2));
    assert_eq!(t.register_username(alice(), 0, 2, "name".into()), Err(Error::NameTaken));
    assert_eq!(t.get_balance(alice()), Ok(2));
}

#[test]
fn empty_name_is_refused() {
    let mut t = Transmitter::new(carol());
    assert_eq!(t.register_username(alice(), 5, 1, String::new()), Err(Error::InvalidName));
    assert_eq!(t.get_balance(alice()), Err(Error::NoAccount));
    assert_eq!(t.owner_info().balance, 0);
}

#[test]
fn underpayment_is_credited_and_refused() {
    let mut t = Transmitter::new(carol());
    assert_eq!(t.co_set_fee(carol(), 10), Ok(()));
    assert_eq!(
        t.register_username(alice(), 4, 1, "alice".into()),
        Err(Error::PaymentFailed { received: 4, required: 10, missing: 6 })
    );
    assert_eq!(t.get_balance(alice()), Ok(4));
    assert_eq!(t.get_usernames(alice()), Err(Error::NoNames));
    assert_eq!(t.get_all_messages(alice(), "alice".into()), Err(Error::NameNonexistent("alice".into())));
    assert_eq!(t.owner_info().balance, 0);
    // a second shortfall adds to the balance and keeps names already held
    assert_eq!(t.register_username(alice(), 10, 1, "first".into()), Ok(()));
    assert_eq!(
        t.register_username(alice(), 3, 1, "second".into()),
        Err(Error::PaymentFailed { received: 3, required: 10, missing: 7 })
    );
    assert_eq!(t.get_balance(alice()), Ok(7));
    assert_eq!(t.get_usernames(alice()), Ok(vec!["first".to_string()]));
}

#[test]
fn overpayment_splits_fee_and_change() {
    let mut t = Transmitter::new(carol());
    assert_eq!(t.co_set_fee(carol(), 10), Ok(()));
    assert_eq!(t.register_username(alice(), 25, 1, "alice".into()), Ok(()));
    assert_eq!(t.owner_info().balance, 10);
    assert_eq!(t.get_balance(alice()), Ok(15));
    assert_eq!(t.register_username(alice(), 11, 1, "alice2".into()), Ok(()));
    assert_eq!(t.owner_info().balance, 20);
    assert_eq!(t.get_balance(alice()), Ok(16));
    assert_eq!(t.register_username(alice(), 10, 1, "alice3".into()), Ok(()));
    assert_eq!(t.owner_info().balance, 30);
    assert_eq!(t.get_balance(alice()), Ok(16));
}

#[test]
fn failed_withdrawal_keeps_balance() {
    let mut t = Transmitter::new(carol());
    assert_eq!(t.register_username(alice(), 6, 1, "alice".into()), Ok(()));
    assert_eq!(t.withdraw_balance(alice(), false), Err(Error::WithdrawFailed));
    assert_eq!(t.get_balance(alice()), Ok(5));
    assert_eq!(t.withdraw_balance(alice(), true), Ok(()));
    assert_eq!(t.get_balance(alice()), Ok(0));
    assert_eq!(t.withdraw_balance(alice(), true), Err(Error::NoBalance));
    assert_eq!(t.withdraw_balance(bob(), true), Err(Error::NoBalance));
    assert_eq!(t.get_usernames(alice()), Ok(vec!["alice".to_string()]));
}

#[test]
fn delete_removes_only_first_of_equal_hashes() {
    let mut t = Transmitter::new(carol());
    assert_eq!(t.register_username(alice(), 1, 1, "alice".into()), Ok(()));
    assert_eq!(t.register_username(bob(), 1, 1, "bob".into()), Ok(()));
    let same = text("same");
    assert_eq!(t.send_message(alice(), 4, 1, "alice".into(), "bob".into(), MessageType::Text, same.clone()), Ok(()));
    assert_eq!(t.send_message(alice(), 4, 2, "alice".into(), "bob".into(), MessageType::Json, same.clone()), Ok(()));
    assert_eq!(t.send_message(alice(), 5, 3, "alice".into(), "bob".into(), MessageType::Text, same.clone()), Ok(()));
    let before = t.get_all_messages(bob(), "bob".into()).unwrap();
    assert_eq!(before[0].hash, before[1].hash);
    assert_ne!(before[0].hash, before[2].hash);
    assert_eq!(t.delete_message(bob(), "bob".into(), before[0].hash), Ok(()));
    let after = t.get_all_messages(bob(), "bob".into()).unwrap();
    assert_eq!(after.len(), 2);
    assert_eq!(after[0].timestamp, 2);
    assert_eq!(after[1].timestamp, 3);
    assert_eq!(t.delete_message(bob(), "bob".into(), [0u8; 32]), Err(Error::MessageNonexistent));
    assert_eq!(t.delete_message(alice(), "bob".into(), before[0].hash), Err(Error::WrongAccount("bob".into())));
    assert_eq!(t.delete_message(bob(), "nobody".into(), before[0].hash), Err(Error::NameNonexistent("nobody".into())));
    assert_eq!(t.delete_message(bob(), "bob".into(), before[0].hash), Ok(()));
    assert_eq!(t.delete_message(bob(), "bob".into(), before[2].hash), Ok(()));
    assert_eq!(t.delete_message(bob(), "bob".into(), before[2].hash), Err(Error::NoMessages));
    assert_eq!(t.get_all_messages(bob(), "bob".into()).unwrap_err(), Error::NoMessages);
}

#[test]
fn send_message_errors() {
    let mut t = Transmitter::new(carol());
    assert_eq!(t.register_username(alice(), 1, 1, "alice".into()), Ok(()));
    assert_eq!(
        t.send_message(alice(), 1, 1, "ghost".into(), "alice".into(), MessageType::Text, text("x")),
        Err(Error::NameNonexistent("ghost".into()))
    );
    assert_eq!(
        t.send_message(bob(), 1, 1, "alice".into(), "alice".into(), MessageType::Text, text("x")),
        Err(Error::WrongAccount("alice".into()))
    );
    assert_eq!(
        t.send_message(alice(), 1, 1, "alice".into(), "ghost".into(), MessageType::Text, text("x")),
        Err(Error::NameNonexistent("ghost".into()))
    );
    assert_eq!(t.get_all_messages(alice(), "alice".into()), Err(Error::NoMessages));
    assert_eq!(t.get_all_messages(bob(), "alice".into()), Err(Error::WrongAccount("alice".into())));
}

#[test]
fn message_kinds_are_kept() {
    let mut t = Transmitter::new(carol());
    assert_eq!(t.register_username(alice(), 1, 1, "alice".into()), Ok(()));
    let kinds = vec![
        MessageType::Email { subject: "hi".into() },
        MessageType::ReplyTo { hash: [7u8; 32] },
        MessageType::Custom("tag".into()),
    ];
    for k in kinds {
        assert_eq!(t.send_message(alice(), 1, 1, "alice".into(), "alice".into(), k, text("c")), Ok(()));
    }
    let m = t.get_all_messages(alice(), "alice".into()).unwrap();
    assert!(matches!(&m[0].mtype, MessageType::Email { subject } if subject == "hi"));
    assert!(matches!(&m[1].mtype, MessageType::ReplyTo { hash } if *hash == [7u8; 32]));
    assert!(matches!(&m[2].mtype, MessageType::Custom(tag) if tag == "tag"));
    assert_eq!(m[0].from, "alice".to_string());
}

#[test]
fn fingerprint_is_sha256_of_height_and_content() {
    assert_eq!(
        fingerprint_bytes(0x0102_0304, &vec![9, 8]),
        vec![1, 2, 3, 4, 9, 8]
    );
    let expected: [u8; 32] = [
        9, 71, 195, 5, 142, 73, 222, 191, 106, 205, 173, 135, 243, 15, 168, 126, 241, 130, 148,
        153, 15, 155, 1, 124, 136, 231, 49, 212, 116, 119, 96, 122,
    ];
    assert_eq!(message_hash(7, &text("Hello, Bob!")), expected);
    let empty: [u8; 32] = [
        223, 63, 97, 152, 4, 169, 47, 219, 64, 87, 25, 45, 196, 61, 215, 72, 234, 119, 138, 220,
        82, 188, 73, 140, 232, 5, 36, 192, 20, 184, 17, 25,
    ];
    assert_eq!(message_hash(0, &Vec::new()), empty);
    let mut t = Transmitter::new(carol());
    assert_eq!(t.register_username(alice(), 1, 1, "Alice".into()), Ok(()));
    assert_eq!(t.register_username(bob(), 1, 1, "Bob".into()), Ok(()));
    assert_eq!(
        t.send_message(alice(), 7, 1, "Alice".into(), "Bob".into(), MessageType::Text, text("Hello, Bob!")),
        Ok(())
    );
    assert_eq!(t.get_all_messages(bob(), "Bob".into()).unwrap()[0].hash, expected);
}

#[test]
fn deliver_uses_given_hash() {
    let mut t = Transmitter::new(carol());
    assert_eq!(t.register_username(alice(), 1, 1, "alice".into()), Ok(()));
    assert_eq!(
        t.deliver_message(alice(), "alice".into(), "alice".into(), MessageType::Text, text("x"), [5u8; 32], 4),
        Ok(())
    );
    let m = t.get_all_messages(alice(), "alice".into()).unwrap();
    assert_eq!(m[0].hash, [5u8; 32]);
    assert_eq!(m[0].timestamp, 4);
}

#[test]
fn sale_book_errors_and_filtering() {
    let mut t = Transmitter::new(carol());
    assert_eq!(t.register_username(alice(), 1, 1, "a".into()), Ok(()));
    assert_eq!(t.register_username(alice(), 1, 1, "b".into()), Ok(()));
    assert_eq!(t.register_username(alice(), 1, 1, "c".into()), Ok(()));
    assert_eq!(t.sell_username_to(bob(), "a".into(), bob(), 1), Err(Error::WrongAccount("a".into())));
    assert_eq!(t.sell_username_to(alice(), "zz".into(), bob(), 1), Err(Error::NameNonexistent("zz".into())));
    assert_eq!(t.cancel_sale(alice(), "a".into()), Err(Error::UsernameNotInSale));
    assert_eq!(t.cancel_sale(bob(), "a".into()), Err(Error::WrongAccount("a".into())));
    assert_eq!(t.cancel_sale(alice(), "zz".into()), Err(Error::NameNonexistent("zz".into())));
    assert_eq!(t.get_sale_propositions(bob()).unwrap_err(), Error::NoSalesForYou);
    assert_eq!(t.sell_username_to(alice(), "a".into(), bob(), 10), Ok(()));
    assert_eq!(t.sell_username_to(alice(), "b".into(), carol(), 20), Ok(()));
    assert_eq!(t.sell_username_to(alice(), "c".into(), bob(), 30), Ok(()));
    let to_bob = t.get_sale_propositions(bob()).unwrap();
    assert_eq!(to_bob.len(), 2);
    assert_eq!(to_bob[0].username, "a".to_string());
    assert_eq!(to_bob[1].username, "c".to_string());
    assert_eq!(to_bob[1].price, 30);
    assert_eq!(t.cancel_sale(alice(), "a".into()), Ok(()));
    let to_bob = t.get_sale_propositions(bob()).unwrap();
    assert_eq!(to_bob.len(), 1);
    assert_eq!(to_bob[0].username, "c".to_string());
}

#[test]
fn pay_credits_on_failed_transfer() {
    let mut t = Transmitter::new(carol());
    assert!(t.pay(alice(), 40, true));
    assert_eq!(t.get_balance(alice()), Err(Error::NoAccount));
    assert!(!t.pay(alice(), 40, false));
    assert_eq!(t.get_balance(alice()), Ok(40));
    assert!(!t.pay(alice(), 2, false));
    assert_eq!(t.get_balance(alice()), Ok(42));
    t.register_or_credit(alice(), 8);
    assert_eq!(t.get_balance(alice()), Ok(50));
}

#[test]
fn owner_operations() {
    let mut t = Transmitter::new(carol());
    assert_eq!(t.co_set_fee(alice(), 5), Err(Error::NotContractOwner));
    assert_eq!(t.check_fee(), 1);
    assert_eq!(t.co_set_code(alice(), true), Err(Error::NotContractOwner));
    assert_eq!(t.co_set_code(carol(), false), Err(Error::UpgradeFailed));
    assert_eq!(t.co_set_code(carol(), true), Ok(()));
    assert_eq!(t.co_owner_withdraw_all_balance(carol(), true), Err(Error::NoBalance));
    assert_eq!(t.register_username(alice(), 1, 1, "alice".into()), Ok(()));
    assert_eq!(t.co_owner_withdraw_all_balance(alice(), true), Err(Error::NotContractOwner));
    assert_eq!(t.co_owner_withdraw_all_balance(carol(), false), Err(Error::WithdrawFailed));
    assert_eq!(t.owner_info().balance, 1);
    assert_eq!(t.co_owner_withdraw_all_balance(carol(), true), Ok(()));
    assert_eq!(t.owner_info().balance, 0);
    assert_eq!(t.co_transfer_contract_ownership(alice(), alice()), Err(Error::NotContractOwner));
    assert_eq!(t.co_transfer_contract_ownership(carol(), bob()), Ok(()));
    assert!(t.owner_info().account_id == bob());
    assert_eq!(t.co_set_fee(carol(), 5), Err(Error::NotContractOwner));
    assert_eq!(t.co_set_fee(bob(), 5), Ok(()));
    assert_eq!(t.check_fee(), 5);
}

#[test]
fn account_ids_compare_by_bytes() {
    let mut b = [1u8; 32];
    assert!(AccountId::from_bytes(b) == alice());
    b[31] = 0;
    assert!(AccountId::from_bytes(b) != alice());
}

#[test]
fn registration_is_visible() {
    let mut t = Transmitter::new(carol());
    assert!(!t.is_registered(&"alice".to_string()));
    assert_eq!(t.register_username(alice(), 1, 1, "alice".into()), Ok(()));
    assert!(t.is_registered(&"alice".to_string()));
    assert_eq!(t.close_account(alice(), true), Ok(()));
    assert!(!t.is_registered(&"alice".to_string()));
}
