use obsengine::alerts::{AlertLedger, AlertSeverity};

fn ledger_with(ids: &[&str]) -> AlertLedger {
    let mut ledger = AlertLedger::new();
    for (k, id) in ids.iter().enumerate() {
        ledger.create_with_id(
            id.to_string(),
            AlertSeverity::Warning,
            "threshold".to_string(),
            "usage high".to_string(),
            k as i64,
        );
    }
    ledger
}

#[test]
fn create_appends_in_creation_order() {
    let ledger = ledger_with(&["a-1", "a-2", "a-3"]);
    let alerts = ledger.list();
    assert_eq!(alerts.len(), 3);
    assert_eq!(alerts[0].id, "a-1");
    assert_eq!(alerts[1].id, "a-2");
    assert_eq!(alerts[2].id, "a-3");
    for alert in &alerts {
        assert!(!alert.acknowledged);
        assert!(alert.metadata.is_empty());
        assert_eq!(alert.source, "threshold");
        assert_eq!(alert.message, "usage high");
        assert!(matches!(alert.severity, AlertSeverity::Warning));
    }
}

#[test]
fn acknowledge_sets_only_the_matching_alert() {
    let mut ledger = ledger_with(&["a-1", "a-2", "a-3"]);
    ledger.acknowledge("a-2");
    let alerts = ledger.list();
    assert!(!alerts[0].acknowledged);
    assert!(alerts[1].acknowledged);
    assert!(!alerts[2].acknowledged);
}

#[test]
fn acknowledge_twice_is_idempotent() {
    let mut ledger = ledger_with(&["a-1", "a-2"]);
    ledger.acknowledge("a-1");
    let once = ledger.list();
    assert!(once[0].acknowledged);
    ledger.acknowledge("a-1");
    let twice = ledger.list();
    assert!(twice[0].acknowledged);
    assert!(!twice[1].acknowledged);
    assert_eq!(twice.len(), 2);
}

#[test]
fn acknowledge_unknown_id_is_a_silent_no_op() {
    let mut ledger = ledger_with(&["a-1"]);
    ledger.acknowledge("missing");
    let alerts = ledger.list();
    assert_eq!(alerts.len(), 1);
    assert!(!alerts[0].acknowledged);
}

#[test]
fn no_alert_is_ever_removed() {
    let mut ledger = ledger_with(&["a-1", "a-2"]);
    ledger.acknowledge("a-1");
    ledger.acknowledge("a-2");
    assert_eq!(ledger.len(), 2);
}

#[test]
fn acknowledge_stops_at_the_first_match() {
    // Two alerts sharing an identifier: only the earliest is marked.
    let mut ledger = ledger_with(&["dup", "dup"]);
    ledger.acknowledge("dup");
    let alerts = ledger.list();
    assert!(alerts[0].acknowledged);
    assert!(!alerts[1].acknowledged);
}
