use bevy_dojo::{
    check_sn_task, execute_transaction, init_starknet_connection, ConfigError, ConnectRequest,
    ConnectionOutcome, DefaultStarknetConfig, StarknetConnection,
};
use std::sync::Arc;
use tokio::runtime::Runtime;
use tokio::sync::oneshot;
use tokio::task::JoinHandle;

type Session = Arc<String>;
type Connection = StarknetConnection<JoinHandle<Result<Session, String>>, Session, JoinHandle<String>>;

fn config(private_key: &str) -> DefaultStarknetConfig {
    DefaultStarknetConfig {
        rpc_url: String::from("http://localhost:5050"),
        account_address: String::from("0x1"),
        private_key: String::from(private_key),
    }
}

async fn connect(config: DefaultStarknetConfig) -> Result<Session, String> {
    if config.private_key.starts_with("0x") {
        Ok(Arc::new(config.account_address))
    } else {
        Err(String::from("invalid private key"))
    }
}

fn join_connect(
    runtime: &Runtime,
    task: JoinHandle<Result<Session, String>>,
) -> Result<Session, String> {
    match runtime.block_on(task) {
        Ok(result) => result,
        Err(_) => Err(String::from("connect task aborted")),
    }
}

fn connected(runtime: &Runtime) -> Connection {
    let mut sn = Connection::new();
    init_starknet_connection(
        |c: &DefaultStarknetConfig| runtime.spawn(connect(c.clone())),
        &config("0x2"),
        &mut sn,
    );
    check_sn_task(
        |task| join_connect(runtime, task),
        |task: JoinHandle<String>| runtime.block_on(task),
        &mut sn,
    );
    assert!(sn.is_connected());
    sn
}

#[test]
fn spawned_connect_task_resolves_to_connected() {
    let runtime = Runtime::new().unwrap();
    let mut sn = Connection::new();
    let started = init_starknet_connection(
        |c: &DefaultStarknetConfig| runtime.spawn(connect(c.clone())),
        &config("0x2"),
        &mut sn,
    );
    assert!(started);
    assert!(sn.is_connecting());
    let report = check_sn_task(
        |task| join_connect(&runtime, task),
        |task: JoinHandle<String>| runtime.block_on(task),
        &mut sn,
    );
    assert!(matches!(report.connection, ConnectionOutcome::Connected));
    assert!(sn.is_connected());
    assert_eq!(sn.account().map(|a| a.as_str()), Some("0x1"));
}

#[test]
fn spawned_connect_task_with_bad_credential_fails() {
    let runtime = Runtime::new().unwrap();
    let mut sn = Connection::new();
    init_starknet_connection(
        |c: &DefaultStarknetConfig| runtime.spawn(connect(c.clone())),
        &config("not a key"),
        &mut sn,
    );
    let report = check_sn_task(
        |task| join_connect(&runtime, task),
        |task: JoinHandle<String>| runtime.block_on(task),
        &mut sn,
    );
    match report.connection {
        ConnectionOutcome::Failed(reason) => assert_eq!(reason, "invalid private key"),
        _ => panic!("a failed attempt must be reported as failed"),
    }
    assert!(!sn.is_connected());
    assert!(!sn.is_connecting());
}

#[test]
fn panicking_connect_task_fails_the_attempt() {
    let runtime = Runtime::new().unwrap();
    let mut sn = Connection::new();
    init_starknet_connection(
        |_: &DefaultStarknetConfig| {
            runtime.spawn(async {
                if true {
                    panic!("Invalid RPC URL");
                }
                Ok::<Session, String>(Arc::new(String::new()))
            })
        },
        &config("0x2"),
        &mut sn,
    );
    let report = check_sn_task(
        |task| join_connect(&runtime, task),
        |task: JoinHandle<String>| runtime.block_on(task),
        &mut sn,
    );
    match report.connection {
        ConnectionOutcome::Failed(reason) => assert_eq!(reason, "connect task aborted"),
        _ => panic!("a failed attempt must be reported as failed"),
    }
    assert!(!sn.is_connecting());
    assert!(!sn.is_connected());
}

#[test]
fn outcomes_follow_submission_order_not_completion_order() {
    let runtime = Runtime::new().unwrap();
    let mut sn = connected(&runtime);
    let mut releases = Vec::new();
    let mut finished = Vec::new();
    for name in ["A", "B", "C"] {
        let (release, released) = oneshot::channel::<()>();
        let (finish, done) = oneshot::channel::<()>();
        let queued = execute_transaction(
            |account: &Session, label: &'static str| {
                let account = account.clone();
                runtime.spawn(async move {
                    released.await.unwrap();
                    let _ = finish.send(());
                    format!("{} by {}", label, account)
                })
            },
            &mut sn,
            name,
        );
        assert!(queued);
        releases.push(release);
        finished.push(done);
    }
    assert_eq!(sn.pending_tx_count(), 3);
    let mut releases: Vec<Option<oneshot::Sender<()>>> = releases.into_iter().map(Some).collect();
    let mut finished: Vec<Option<oneshot::Receiver<()>>> =
        finished.into_iter().map(Some).collect();
    for index in [2usize, 0, 1] {
        releases[index].take().unwrap().send(()).unwrap();
        runtime.block_on(finished[index].take().unwrap()).unwrap();
    }
    let mut reported = Vec::new();
    for _ in 0..3 {
        let report = check_sn_task(
            |task| join_connect(&runtime, task),
            |task: JoinHandle<String>| runtime.block_on(task).unwrap(),
            &mut sn,
        );
        assert!(matches!(report.connection, ConnectionOutcome::NoOp));
        reported.push(report.transaction.unwrap());
    }
    assert_eq!(reported, vec!["A by 0x1", "B by 0x1", "C by 0x1"]);
    assert_eq!(sn.pending_tx_count(), 0);
}

#[test]
fn submission_without_connection_spawns_no_task() {
    let runtime = Runtime::new().unwrap();
    let mut sn = Connection::new();
    let mut spawned = false;
    let queued = execute_transaction(
        |_: &Session, _: ()| {
            spawned = true;
            runtime.spawn(async { String::new() })
        },
        &mut sn,
        (),
    );
    assert!(!queued);
    assert!(!spawned);
    assert_eq!(sn.pending_tx_count(), 0);
}

#[test]
fn credential_that_fails_to_parse_fails_the_attempt() {
    let runtime = Runtime::new().unwrap();
    let mut sn: StarknetConnection<
        JoinHandle<Result<ConnectRequest, ConfigError>>,
        ConnectRequest,
        JoinHandle<String>,
    > = StarknetConnection::new();
    let started = init_starknet_connection(
        |c: &DefaultStarknetConfig| {
            let c = c.clone();
            runtime.spawn(async move { c.parse() })
        },
        &config("not a key"),
        &mut sn,
    );
    assert!(started);
    assert!(sn.is_connecting());
    let report = check_sn_task(
        |task| runtime.block_on(task).unwrap(),
        |task: JoinHandle<String>| runtime.block_on(task),
        &mut sn,
    );
    assert_eq!(report.connection, ConnectionOutcome::Failed(ConfigError::InvalidPrivateKey));
    assert!(report.transaction.is_none());
    assert!(!sn.is_connected());
    assert!(!sn.is_connecting());
}

#[test]
fn config_that_parses_connects_with_its_request() {
    let runtime = Runtime::new().unwrap();
    let mut sn: StarknetConnection<
        JoinHandle<Result<ConnectRequest, ConfigError>>,
        ConnectRequest,
        JoinHandle<String>,
    > = StarknetConnection::new();
    init_starknet_connection(
        |c: &DefaultStarknetConfig| {
            let c = c.clone();
            runtime.spawn(async move { c.parse() })
        },
        &config("0x2"),
        &mut sn,
    );
    let report = check_sn_task(
        |task| runtime.block_on(task).unwrap(),
        |task: JoinHandle<String>| runtime.block_on(task),
        &mut sn,
    );
    assert_eq!(report.connection, ConnectionOutcome::Connected);
    assert!(sn.is_connected());
    let request = sn.account().unwrap();
    assert_eq!(request.rpc_url, "http://localhost:5050/");
    assert_eq!(request.account_address[31], 1);
    assert_eq!(request.private_key[31], 2);
}
