use schnecke::config::{CacheConfig, ConfigMap};
use schnecke::dispatch::{Outcome, plan_request};
use std::sync::Arc;
use std::time::Duration;

#[test]
fn slow_request_does_not_block_others() {
    let rt = tokio::runtime::Builder::new_multi_thread()
        .worker_threads(2)
        .enable_time()
        .build()
        .unwrap();
    rt.block_on(async {
        let mut cm = ConfigMap::new();
        for i in 0..8 {
            let host = format!("h{}.example", i);
            let origin = format!("https://o{}.example", i);
            cm.insert(CacheConfig::new(&host, &origin, 86400, 300, false));
        }
        let cm = Arc::new(cm);

        // one task whose upstream hangs
        let slow = tokio::spawn(async {
            tokio::time::sleep(Duration::from_secs(30)).await;
        });

        // independent requests to distinct configured hosts
        let mut fast = Vec::new();
        for i in 0..8 {
            let cm = Arc::clone(&cm);
            fast.push(tokio::spawn(async move {
                let host = format!("h{}.example", i);
                let headers = vec![("host".to_string(), host.clone())];
                match plan_request(&cm, &host, "GET", "/x", Some("y=1"), &headers) {
                    Outcome::Forward { target, host_value, .. } => {
                        assert_eq!(target, format!("https://o{}.example/x?y=1", i));
                        assert_eq!(host_value, format!("o{}.example", i));
                    },
                    Outcome::Local { .. } => panic!("expected a forward"),
                }
            }));
        }
        for f in fast {
            tokio::time::timeout(Duration::from_secs(5), f).await.unwrap().unwrap();
        }
        // the hanging task is still pending; the fast ones were not delayed by it
        assert!(!slow.is_finished());
        slow.abort();
    });
}
