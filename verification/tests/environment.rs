use marathon_api::environment::{parse_environment, parse_environment_arg, EnvLookup};
use marathon_api::Error;
use std::collections::HashMap;

fn lookup_in(env: &HashMap<String, String>) -> impl Fn(&str) -> EnvLookup + '_ {
    move |k: &str| match env.get(k) {
        Some(v) => EnvLookup::Value(v.clone()),
        None => EnvLookup::NotPresent,
    }
}

#[test]
fn can_parse_environment() -> Result<(), Error> {
    let pair = |k: &str, v: &str| (k.to_owned(), v.to_owned());

    let env: HashMap<String, String> = HashMap::from([pair("A", "foo"), pair("B", "bar")]);
    let getenv = lookup_in(&env);

    let parsed: HashMap<String, String> = parse_environment(
        &["A", "B=override", "C", "D=value", "E=key=value"],
        getenv,
    )?
    .into_iter()
    .collect();
    assert_eq!(
        parsed,
        HashMap::from([
            pair("A", "foo"),
            pair("B", "override"),
            pair("D", "value"),
            pair("E", "key=value"),
        ])
    );

    Ok(())
}

#[test]
fn later_key_replaces_earlier() -> Result<(), Error> {
    let env: HashMap<String, String> = HashMap::from([("X".to_owned(), "1".to_owned())]);
    let parsed = parse_environment(&["K=a", "X", "K=b", "=v", "E=", "X=2"], lookup_in(&env))?;
    assert_eq!(
        parsed,
        vec![
            ("K".to_owned(), "b".to_owned()),
            ("".to_owned(), "v".to_owned()),
            ("E".to_owned(), "".to_owned()),
            ("X".to_owned(), "2".to_owned()),
        ]
    );
    Ok(())
}

#[test]
fn invalid_variable_fails_and_stops_lookups() {
    let calls = std::cell::RefCell::new(Vec::new());
    let getenv = |k: &str| {
        calls.borrow_mut().push(k.to_owned());
        if k == "BAD" {
            EnvLookup::NotUnicode
        } else {
            EnvLookup::NotPresent
        }
    };
    match parse_environment(&["A", "BAD", "C"], getenv) {
        Err(e) => assert_eq!(
            e.message(),
            "Environment variable BAD contains invalid characters"
        ),
        Ok(_) => panic!("expected an error"),
    }
    assert_eq!(*calls.borrow(), vec!["A".to_owned(), "BAD".to_owned()]);
}

#[test]
fn key_value_argument_does_not_consult_environment() -> Result<(), Error> {
    let getenv = |_: &str| -> EnvLookup { panic!("the environment was consulted") };
    assert_eq!(
        parse_environment_arg("ÄÖ=ü=x", &getenv)?,
        Some(("ÄÖ".to_owned(), "ü=x".to_owned()))
    );
    Ok(())
}

#[test]
fn missing_variable_is_skipped() -> Result<(), Error> {
    let getenv = |_: &str| EnvLookup::NotPresent;
    assert_eq!(parse_environment_arg("MISSING", &getenv)?, None);
    assert!(parse_environment(&["MISSING"], getenv)?.is_empty());
    Ok(())
}
