use std::future::Future;
use std::pin::Pin;
use std::sync::Arc;
use std::task::{Context, Poll, Wake, Waker};
use toaster::future::Pending;

struct Idle;

impl Wake for Idle {
    fn wake(self: Arc<Self>) {}
}

#[test]
fn pending_is_never_ready() {
    let waker = Waker::from(Arc::new(Idle));
    let mut context = Context::from_waker(&waker);
    let mut pending = Pending::default();
    for _ in 0..3 {
        assert_eq!(Pin::new(&mut pending).poll(&mut context), Poll::Pending);
    }
}
