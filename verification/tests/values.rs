use wpm::config::ConfigValue;
use wpm::menu_action::MenuAction;
use wpm::test_mode::TestMode;
use wpm::test_result::TestResult;
use wpm::wordlist::Wordlist;

#[test]
fn config_values_carry_their_payload() {
    let flag = ConfigValue::Bool(true);
    assert!(matches!(flag, ConfigValue::Bool(true)));
    let bounded = ConfigValue::Integer { v: 2, max: 4, min: 1 };
    match bounded {
        ConfigValue::Integer { v, max, min } => {
            assert_eq!(v, 2);
            assert_eq!(max, 4);
            assert_eq!(min, 1);
        },
        _ => panic!("expected an integer value"),
    }
    let select = ConfigValue::Select { options: vec![String::from("English1k")], selected: 0 };
    assert!(matches!(select, ConfigValue::Select { .. }));
}

#[test]
fn menu_actions_carry_test_parameters() {
    let action = MenuAction::Test { mode: TestMode::Words(10), wordlist: Some(Wordlist::CodeC) };
    match action {
        MenuAction::Test { mode, wordlist } => {
            assert_eq!(mode, TestMode::Words(10));
            assert_eq!(wordlist, Some(Wordlist::CodeC));
        },
        _ => panic!("expected a test action"),
    }
    assert!(matches!(MenuAction::Nothing, MenuAction::Nothing));
}

#[test]
fn result_records_keep_their_fields() {
    let record = TestResult::new(
        10,
        Wordlist::English10k,
        TestMode::Time(30_000),
        45,
        5,
        30_000,
        (3600, 2600),
    );
    assert_eq!(record.length, 10);
    assert_eq!(record.hits, 45);
    assert_eq!(record.misses, 5);
    assert_eq!(record.time_ms, 30_000);
    assert_eq!(record.wpm, (3600, 2600));
}
