use std::collections::hash_map::DefaultHasher;
use std::hash::{Hash, Hasher};
use std::sync::{Arc, Mutex};

use eventwork::error::{decimal_string, NetworkError};
use eventwork::runtime::{run_async, EventworkRuntime, JoinHandle, Runtime};
use eventwork::{ConnectionId, NetworkData, NetworkMessage};

/// A toy runtime that runs each task immediately on the calling thread and
/// records how many it ran.
struct InlineRuntime {
    ran: Arc<Mutex<usize>>,
}

struct InlineHandle {
    aborted: usize,
}

impl JoinHandle for InlineHandle {
    fn abort(&mut self) {
        // idempotent: aborting a finished task is a no-op
        self.aborted += 1;
    }
}

impl Runtime for InlineRuntime {
    type Task = Box<dyn FnOnce() + Send>;
    type JoinHandle = InlineHandle;

    fn spawn(&self, task: Self::Task) -> Self::JoinHandle {
        task();
        *self.ran.lock().unwrap() += 1;
        InlineHandle { aborted: 0 }
    }

    fn spawn_local(&self, task: Self::Task) -> Self::JoinHandle {
        // this runtime never leaves the calling thread anyway
        self.spawn(task)
    }
}

#[test]
fn run_async_spawns_on_the_given_runtime() {
    let ran = Arc::new(Mutex::new(0));
    let runtime = EventworkRuntime(InlineRuntime { ran: ran.clone() });
    let hit = Arc::new(Mutex::new(false));
    let hit_inner = hit.clone();
    let mut handle = run_async(
        Box::new(move || {
            *hit_inner.lock().unwrap() = true;
        }) as Box<dyn FnOnce() + Send>,
        &runtime.0,
    );
    assert!(*hit.lock().unwrap());
    assert_eq!(*ran.lock().unwrap(), 1);
    // abort is idempotent
    handle.abort();
    handle.abort();
    assert_eq!(handle.aborted, 2);
}

struct Ping;

impl NetworkMessage for Ping {
    const NAME: &'static str = "example:Ping";
}

#[test]
fn message_kind_names_the_type() {
    assert_eq!(Ping::NAME, "example:Ping");
}

#[test]
fn network_data_carries_source_and_message() {
    let data = NetworkData::new(ConnectionId { id: 4 }, vec![1u8, 2]);
    assert_eq!(*data.source(), ConnectionId { id: 4 });
    assert_eq!(data.into_inner(), vec![1u8, 2]);
}

#[test]
fn connection_id_equality_and_hash_use_the_integer() {
    let a = ConnectionId { id: 7 };
    let b = ConnectionId { id: 7 };
    assert_eq!(a, b);
    let mut ha = DefaultHasher::new();
    let mut hb = DefaultHasher::new();
    a.hash(&mut ha);
    b.hash(&mut hb);
    assert_eq!(ha.finish(), hb.finish());
    assert_ne!(a, ConnectionId { id: 8 });
}

#[test]
fn decimal_formatting_is_exact() {
    assert_eq!(decimal_string(0), "0");
    assert_eq!(decimal_string(7), "7");
    assert_eq!(decimal_string(10), "10");
    assert_eq!(decimal_string(1024), "1024");
    assert_eq!(decimal_string(u32::MAX), "4294967295");
}

#[test]
fn labels_and_messages_describe_the_error() {
    assert_eq!(ConnectionId { id: 3 }.label(), "Connection with ID=3");
    assert_eq!(
        NetworkError::ConnectionNotFound(ConnectionId { id: 3 }).message(),
        "Could not find connection with id: Connection with ID=3"
    );
    assert_eq!(
        NetworkError::ChannelClosed(ConnectionId { id: 41 }).message(),
        "Connection closed with id: Connection with ID=41"
    );
    assert_eq!(
        NetworkError::Error("boom".to_string()).message(),
        "Network error: boom"
    );
    assert_eq!(
        NetworkError::SendError.message(),
        "Attempted to send data over closed channel"
    );
    assert_eq!(NetworkError::Serialization.message(), "Failed to serialize");
}

#[test]
fn error_variants_carry_their_context() {
    let e = NetworkError::ConnectionNotFound(ConnectionId { id: 3 });
    assert!(matches!(e, NetworkError::ConnectionNotFound(ConnectionId { id: 3 })));
    let e = NetworkError::Listen("address in use".to_string());
    assert!(matches!(e, NetworkError::Listen(msg) if msg == "address in use"));
    let e = NetworkError::Error("boom".to_string());
    assert!(matches!(e, NetworkError::Error(msg) if msg == "boom"));
    let e = NetworkError::Accept("closed".to_string());
    assert!(matches!(e, NetworkError::Accept(msg) if msg == "closed"));
    assert!(matches!(NetworkError::Serialization, NetworkError::Serialization));
    assert!(matches!(NetworkError::SendError, NetworkError::SendError));
}
