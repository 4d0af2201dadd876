use sscan::engine::{RegisterUserEngine, ScanBytes, UserEngine, UserEngineError, Verdict};

fn engine(lua: &mlua::Lua, code: &str) -> mlua::Function {
    lua.load(code).eval::<mlua::Function>().expect("a valid engine")
}

fn scan_bytes(engines: &UserEngine, content: &[u8]) -> Result<Vec<String>, UserEngineError> {
    let mut verdicts: Vec<Verdict> = Vec::new();
    while engines.needs_verdict(&verdicts) {
        let i = verdicts.len();
        verdicts.push(engines.engine(i).call::<bool>(mlua::String::wrap(content)));
    }
    engines.tally(verdicts)
}

#[test]
fn scan_bytes_reports_matching_engines() {
    let lua = mlua::Lua::new();
    let mut engines = UserEngine::new();
    engines.register(
        "match_hello".to_string(),
        engine(&lua, "function(p) return p:find('hello') ~= nil end"),
    );
    engines.register("always_false".to_string(), engine(&lua, "function(p) return false end"));
    let matched = scan_bytes(&engines, b"xxhelloxx").ok().expect("no engine fails");
    assert_eq!(matched, vec!["match_hello".to_string()]);
    let matched = scan_bytes(&engines, b"xxhellxx").ok().expect("no engine fails");
    assert!(matched.is_empty());
}

#[test]
fn registering_a_name_twice_keeps_the_latest() {
    let lua = mlua::Lua::new();
    let mut engines = UserEngine::with_capacity(2);
    engines.register("n".to_string(), engine(&lua, "function(p) return false end"));
    engines.register("other".to_string(), engine(&lua, "function(p) return false end"));
    engines.register("n".to_string(), engine(&lua, "function(p) return true end"));
    assert_eq!(engines.len(), 2);
    assert_eq!(engines.name(0), "n");
    assert_eq!(engines.name(1), "other");
    let matched = scan_bytes(&engines, b"anything").ok().unwrap();
    assert_eq!(matched, vec!["n".to_string()]);
}

#[test]
fn scan_with_no_engines_matches_nothing() {
    let engines = UserEngine::new();
    assert!(!engines.needs_verdict(&Vec::new()));
    assert!(scan_bytes(&engines, b"data").ok().unwrap().is_empty());
}

#[test]
fn failing_engine_aborts_the_scan() {
    let lua = mlua::Lua::new();
    let mut engines = UserEngine::new();
    engines.register("ok".to_string(), engine(&lua, "function(p) return true end"));
    engines.register("broken".to_string(), engine(&lua, "function(p) error('boom') end"));
    engines.register("never".to_string(), engine(&lua, "function(p) return true end"));
    match scan_bytes(&engines, b"x") {
        Err(UserEngineError::EngineInvocation { engine, .. }) => assert_eq!(engine, "broken"),
        _ => panic!("the broken engine must fail the scan"),
    }
}

#[test]
fn tally_takes_first_failure() {
    let lua = mlua::Lua::new();
    let mut engines = UserEngine::new();
    for name in ["a", "b", "c"] {
        engines.register(name.to_string(), engine(&lua, "function(p) return true end"));
    }
    let verdicts: Vec<Verdict> = vec![
        Ok(true),
        Err(mlua::Error::runtime("first")),
        Err(mlua::Error::runtime("second")),
    ];
    match engines.tally(verdicts) {
        Err(UserEngineError::EngineInvocation { engine, source }) => {
            assert_eq!(engine, "b");
            assert!(source.to_string().contains("first"));
        }
        _ => panic!("the first failure decides"),
    }
}

#[test]
fn tally_lists_matches_in_engine_order() {
    let lua = mlua::Lua::new();
    let mut engines = UserEngine::new();
    for name in ["a", "b", "c", "d"] {
        engines.register(name.to_string(), engine(&lua, "function(p) return true end"));
    }
    let verdicts: Vec<Verdict> = vec![Ok(true), Ok(false), Ok(true), Ok(false)];
    assert!(!engines.needs_verdict(&verdicts));
    let matched = engines.tally(verdicts).ok().unwrap();
    assert_eq!(matched, vec!["a".to_string(), "c".to_string()]);
}

#[test]
fn needs_verdict_stops_at_failure_or_end() {
    let lua = mlua::Lua::new();
    let mut engines = UserEngine::new();
    engines.register("a".to_string(), engine(&lua, "function(p) return true end"));
    engines.register("b".to_string(), engine(&lua, "function(p) return true end"));
    assert!(engines.needs_verdict(&vec![]));
    assert!(engines.needs_verdict(&vec![Ok(false)]));
    assert!(!engines.needs_verdict(&vec![Err(mlua::Error::runtime("x"))]));
    assert!(!engines.needs_verdict(&vec![Ok(true), Ok(true)]));
}

#[test]
fn engine_requests_carry_their_values() {
    let lua = mlua::Lua::new();
    let f = engine(&lua, "function(p) return #p > 3 end");
    let req = RegisterUserEngine::using("long".to_string(), f);
    assert_eq!(req.name, "long");
    assert!(req.spec.call::<bool>(mlua::String::wrap(b"abcd")).unwrap());
    let scan = ScanBytes::from(b"abc".to_vec());
    assert_eq!(scan.0, b"abc".to_vec());
    match UserEngineError::engine_invocation("e".to_string(), mlua::Error::runtime("r")) {
        UserEngineError::EngineInvocation { engine, .. } => assert_eq!(engine, "e"),
        _ => panic!("wrong variant"),
    }
}
