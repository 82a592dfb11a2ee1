use std::sync::Arc;

use redis_kv::config::Config;
use redis_kv::context::{AppContext, SessionAction};
use tokio::runtime::Builder;
use tokio::sync::RwLock;

fn respond(text: &str) -> SessionAction {
    SessionAction::Respond(text.as_bytes().to_vec())
}

#[test]
fn test_concurrent_sets_leave_one_value() {
    let runtime = Builder::new_multi_thread().worker_threads(4).build().unwrap();
    runtime.block_on(async {
        let mut seen_first = false;
        let mut seen_second = false;
        for round in 0..500u64 {
            let context = Arc::new(RwLock::new(AppContext::new(&Config::default())));
            let mut tasks = Vec::new();
            for value in ["v1", "v2"] {
                let context = Arc::clone(&context);
                tasks.push(tokio::spawn(async move {
                    let request = format!("*3\r\n$3\r\nSET\r\n$1\r\nk\r\n$2\r\n{}\r\n", value);
                    context.write().await.handle(&request, round)
                }));
            }
            for task in tasks {
                assert_eq!(task.await.unwrap(), respond("+OK\r\n"));
            }
            let answer = context.write().await.handle("*2\r\n$3\r\nGET\r\n$1\r\nk\r\n", round);
            if answer == respond("$2\r\nv1\r\n") {
                seen_first = true;
            } else {
                assert_eq!(answer, respond("$2\r\nv2\r\n"));
                seen_second = true;
            }
        }
        assert!(seen_first || seen_second);
    });
}

#[test]
fn test_concurrent_sessions_on_other_keys() {
    let runtime = Builder::new_multi_thread().worker_threads(4).build().unwrap();
    runtime.block_on(async {
        let context = Arc::new(RwLock::new(AppContext::new(&Config::default())));
        let mut tasks = Vec::new();
        for session in 0..16u64 {
            let context = Arc::clone(&context);
            tasks.push(tokio::spawn(async move {
                for step in 0..50u64 {
                    let key = format!("key{}", session);
                    let value = format!("{}", step);
                    let set = format!(
                        "*3\r\n$3\r\nSET\r\n${}\r\n{}\r\n${}\r\n{}\r\n",
                        key.len(),
                        key,
                        value.len(),
                        value
                    );
                    assert_eq!(context.write().await.handle(&set, step), respond("+OK\r\n"));
                    let get = format!("*2\r\n$3\r\nGET\r\n${}\r\n{}\r\n", key.len(), key);
                    assert_eq!(
                        context.write().await.handle(&get, step),
                        respond(&format!("${}\r\n{}\r\n", value.len(), value))
                    );
                }
            }));
        }
        for task in tasks {
            task.await.unwrap();
        }
    });
}
