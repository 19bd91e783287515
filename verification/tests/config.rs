use dfs_node::config::{Config, Quorum};

#[test]
fn default_is_one_command_at_a_time_and_a_quorum_of_one() {
    let config = Config::default();
    assert_eq!(config.command_queue_capacity, 1);
    assert_eq!(config.event_queue_capacity, 1);
    assert_eq!(config.quorum, Quorum::One);
    assert!(config.is_valid());
}

#[test]
fn a_queue_must_hold_something() {
    let mut config = Config::default();
    config.command_queue_capacity = 0;
    assert!(!config.is_valid());
    config.command_queue_capacity = 8;
    assert!(config.is_valid());
    config.event_queue_capacity = 0;
    assert!(!config.is_valid());
}

#[test]
fn a_numbered_quorum_asks_for_a_replica() {
    let mut config = Config::default();
    config.quorum = Quorum::N(0);
    assert!(!config.is_valid());
    config.quorum = Quorum::N(3);
    assert!(config.is_valid());
    config.quorum = Quorum::Majority;
    assert!(config.is_valid());
    config.quorum = Quorum::All;
    assert!(config.is_valid());
}
