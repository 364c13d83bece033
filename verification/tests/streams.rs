use cryptos::streams::api::ApiResponse;
use cryptos::streams::api::requests::payload::KlinesFlushPayload;
use cryptos::streams::api::requests::jobs::KlinesJob;
use cryptos::streams::api::requests::workers::{FuturesWorker, SpotWorker, KlinesWorker};
use cryptos::streams::api::responses::payload::KlinesFlushPayload as KlinesFlushResponse;

#[test]
fn flush_payload_new_keeps_fields() {
    let p = KlinesFlushPayload::new("BTCUSDT", "15m", 1700000000000, 100);
    assert_eq!(p.symbol, "BTCUSDT");
    assert_eq!(p.interval, "15m");
    assert_eq!(p.endtime, 1700000000000);
    assert_eq!(p.limit, 100);
}

#[test]
fn workers_keep_their_context() {
    let job = KlinesJob::new(7u8);
    assert_eq!(*job.ctx(), 7);
    let w = FuturesWorker::new("ctx");
    assert_eq!(*w.ctx(), "ctx");
    let w = SpotWorker::new(3i32);
    assert_eq!(*w.ctx(), 3);
}

#[test]
fn request_record_and_lock_key() {
    assert_eq!(
        KlinesWorker::request_record("klines.flush", "BTCUSDT", "1m", 1700000000000, -1),
        "klines.flush,BTCUSDT,1m,1700000000000,-1"
    );
    assert_eq!(KlinesWorker::lock_key("locks:klines", "4h", "ETHUSDT"), "locks:klines:4h:ETHUSDT");
    let _ = KlinesWorker::new(());
}

#[test]
fn response_payload_holds_rows() {
    let r = KlinesFlushResponse {
        result: vec![(1, "1", "2", "0.5", "1.5", "10", 2, "15", 3u32, "4", "5", "0")],
    };
    assert_eq!(r.result.len(), 1);
    let a = ApiResponse { id: "x".to_string(), status: 200 };
    assert_eq!(a.status, 200);
}
