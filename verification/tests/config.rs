//! Configuration defaults and the run-instance hash.

use golden_axe::config::{db_path, delete_after, log, Config, LogLevel};

fn config_with_token(token: &str) -> Config {
    Config {
        log: log(),
        db_path: db_path(),
        delete_after: delete_after(),
        token: token.into(),
        debug_chat: None,
    }
}

#[test]
fn documented_defaults() {
    assert_eq!(log(), LogLevel::Info);
    assert_eq!(db_path(), "/data/db.sled");
    assert_eq!(delete_after(), 10);
}

#[test]
fn run_hash_has_a_known_value() {
    let conf = config_with_token("token");
    assert_eq!(conf.run_hash(0), "6B7B01BC0C9B9F92");
    assert_eq!(conf.run_hash(1), "6B7B02BC0C9BA145");
}

#[test]
fn run_hash_tells_runs_apart() {
    let conf = config_with_token("token");
    let other = config_with_token("other-token");
    assert_ne!(conf.run_hash(5), other.run_hash(5));
    assert_ne!(conf.run_hash(5), conf.run_hash(6));
    assert_eq!(conf.run_hash(5), conf.run_hash(5));
}
