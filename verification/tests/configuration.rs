use zero2prod::configuration::Environment;

#[test]
fn environment_names_round_trip() {
    assert_eq!(Environment::Local.as_str(), "local");
    assert_eq!(Environment::Dev.as_str(), "dev");
    assert_eq!(Environment::Production.as_str(), "production");
    for name in ["local", "dev", "production"] {
        assert_eq!(Environment::try_from(name).unwrap().as_str(), name);
    }
}

#[test]
fn environment_parsing_ignores_case() {
    assert_eq!(Environment::try_from("LOCAL").unwrap(), Environment::Local);
    assert_eq!(Environment::try_from("Dev").unwrap(), Environment::Dev);
    assert_eq!(
        Environment::try_from("PrOdUcTiOn").unwrap(),
        Environment::Production
    );
}

#[test]
fn an_unsupported_environment_is_rejected() {
    let err = Environment::try_from("staging").unwrap_err();
    assert_eq!(
        err,
        "staging is not a supported environment. Use either 'local' or 'dev' or 'production'."
    );
}
