use setu_router::{QuickCheckError, QuickChecker, Transfer, TransferType, Vlc};

fn create_valid_transfer() -> Transfer {
    let mut vlc = Vlc::new();
    vlc.entries.push(("node1".to_string(), 1));

    Transfer {
        id: "transfer_1".to_string(),
        from: "alice".to_string(),
        to: "bob".to_string(),
        amount: 100,
        transfer_type: TransferType::FluxTransfer,
        resources: vec!["alice".to_string()],
        vlc,
        power: 10,
        preferred_solver: None,
        shard_id: None,
    }
}

#[test]
fn test_valid_transfer() {
    let checker = QuickChecker::new(100);
    let transfer = create_valid_transfer();

    let result = checker.check(&transfer);
    assert!(result.is_ok());
}

#[test]
fn test_empty_transfer_id() {
    let checker = QuickChecker::new(100);
    let mut transfer = create_valid_transfer();
    transfer.id = "".to_string();

    let result = checker.check(&transfer);
    assert!(result.is_err());
    assert!(matches!(result.unwrap_err(), QuickCheckError::EmptyTransferId));
}

#[test]
fn test_invalid_amount() {
    let checker = QuickChecker::new(100);
    let mut transfer = create_valid_transfer();
    transfer.amount = 0;

    let result = checker.check(&transfer);
    assert!(result.is_err());
    assert!(matches!(result.unwrap_err(), QuickCheckError::InvalidAmount(_)));
}

#[test]
fn test_same_sender_recipient() {
    let checker = QuickChecker::new(100);
    let mut transfer = create_valid_transfer();
    transfer.to = transfer.from.clone();

    let result = checker.check(&transfer);
    assert!(result.is_err());
}

#[test]
fn every_rule_yields_its_error() {
    let checker = QuickChecker::new(100);

    let mut t = create_valid_transfer();
    t.from = "".to_string();
    assert!(matches!(checker.check(&t).unwrap_err(), QuickCheckError::InvalidSender(_)));

    let mut t = create_valid_transfer();
    t.to = "".to_string();
    assert!(matches!(checker.check(&t).unwrap_err(), QuickCheckError::InvalidRecipient(_)));

    let mut t = create_valid_transfer();
    t.amount = -5;
    assert!(matches!(checker.check(&t).unwrap_err(), QuickCheckError::InvalidAmount(-5)));

    let mut t = create_valid_transfer();
    t.resources = Vec::new();
    assert!(matches!(checker.check(&t).unwrap_err(), QuickCheckError::EmptyResources));

    let mut t = create_valid_transfer();
    t.vlc = Vlc::new();
    assert!(matches!(checker.check(&t).unwrap_err(), QuickCheckError::InvalidVLC));

    let mut t = create_valid_transfer();
    t.to = t.from.clone();
    assert!(matches!(checker.check(&t).unwrap_err(), QuickCheckError::InvalidRecipient(_)));
}

#[test]
fn format_check_covers_id_and_sender_only() {
    let checker = QuickChecker::new(100);

    // an otherwise broken transfer passes the cheap format check
    let mut t = create_valid_transfer();
    t.amount = -1;
    t.resources = Vec::new();
    assert!(checker.check_format(&t).is_ok());

    let mut t = create_valid_transfer();
    t.id = "".to_string();
    assert!(matches!(checker.check_format(&t).unwrap_err(), QuickCheckError::EmptyTransferId));

    let mut t = create_valid_transfer();
    t.from = "".to_string();
    assert!(matches!(checker.check_format(&t).unwrap_err(), QuickCheckError::InvalidSender(_)));
}
