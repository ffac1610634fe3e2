use design_patterns_agent::typestate_example::{Builder, Connection, FileHandle, Resource, ResourceGuard, Token};

#[test]
fn test_builder_typestate() {
    let config = Builder::new()
        .name("MyConfig".to_string())
        .description("A test configuration".to_string())
        .timeout(60)
        .complete()
        .build();
    assert_eq!(config.name, "MyConfig");
    assert_eq!(config.timeout, 60);
}

#[test]
fn builder_defaults() {
    let config = Builder::new().name("N".to_string()).complete().build();
    assert_eq!(config.description, "No description");
    assert_eq!(config.timeout, 30);
}

#[test]
fn test_token_ordering() {
    let token = Token::level1();
    let token = token.upgrade_to_level2();
    let token = token.upgrade_to_level3();
    token.admin_operation();
}

#[test]
fn test_connection_lifecycle() {
    let conn = Connection::new("localhost:5432".to_string());
    let conn = conn.connect().unwrap();
    let results = conn.query("SELECT * FROM users");
    assert_eq!(results, vec!["result1".to_string(), "result2".to_string()]);
    let _disconnected = conn.disconnect();
    assert!(Connection::new(String::new()).connect().is_err());
}

#[test]
fn test_typestate_workflow() {
    let file = FileHandle::new("test.txt".to_string());
    let mut file = file.open();
    file.write(b"hello");
    let data = file.read();
    assert_eq!(data, vec![1, 2, 3, 4]);
    let _closed = file.close();
}

#[test]
fn test_explicit_release() {
    let mut resource = Resource::allocate(1);
    resource.use_resource();
    resource.release();
}

#[test]
fn test_resource_guard() {
    let mut guard = ResourceGuard::new(2);
    guard.access().use_resource();
}

#[test]
fn transactions_hold_the_connection_until_consumed() {
    let mut conn = Connection::new("localhost:5432".to_string()).connect().unwrap();
    let tx = conn.begin_transaction();
    tx.commit();
    let tx = conn.begin_transaction();
    tx.rollback();
    assert_eq!(conn.query("SELECT 1").len(), 2);
}
