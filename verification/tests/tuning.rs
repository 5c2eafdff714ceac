use manbo::tuning::{split_setting, tune_key, tune_setting, TuneError, TuneKey};

fn checked(setting: &str) -> Result<TuneKey, TuneError> {
    let value_is_number = match split_setting(setting) {
        Ok((_, value)) => value.parse::<f64>().is_ok(),
        Err(_) => false,
    };
    tune_setting(setting, value_is_number)
}

#[test]
fn rejects_bad_syntax_values_and_names() {
    assert!(matches!(checked("lambda"), Err(TuneError::Syntax(_))));
    assert!(matches!(checked("lambda=abc"), Err(TuneError::Value(_))));
    assert!(matches!(checked("gamma=1"), Err(TuneError::Unknown { .. })));
}

#[test]
fn settings_are_split_at_the_first_equals_and_trimmed() {
    let (name, value) = split_setting(" substitute = 5.5 ").unwrap();
    assert_eq!((name.as_str(), value.as_str()), ("substitute", "5.5"));
    let (name, value) = split_setting("a=b=c").unwrap();
    assert_eq!((name.as_str(), value.as_str()), ("a", "b=c"));
    assert_eq!(split_setting("lambda"), Err(TuneError::Syntax("lambda".to_owned())));
}

#[test]
fn every_known_name_has_its_key() {
    assert_eq!(tune_key("lambda"), Ok(TuneKey::Lambda));
    assert_eq!(tune_key("typo-cap"), Ok(TuneKey::TypoCap));
    assert_eq!(tune_key("correction"), Ok(TuneKey::Correction));
    assert_eq!(tune_key("gamma"), Err(TuneError::Unknown { name: "gamma".to_owned() }));
    assert_eq!(checked("lambda=0.7"), Ok(TuneKey::Lambda));
    assert_eq!(checked(" substitute = 5.5 "), Ok(TuneKey::Substitute));
}
