use kanaeru::error::Error;
use kanaeru::pool::{Acquired, Pool, PoolingResult};

#[test]
fn acquire_up_to_capacity_then_exhausted() {
    let mut pool: Pool<u32> = Pool::new(2);
    let first = match pool.get() {
        Acquired::NeedFactory => pool.finish_factory::<Error>(Ok(10)),
        _ => panic!("fresh pool should need the factory"),
    };
    let first = match first {
        PoolingResult::Success(g) => g,
        _ => panic!("factory success should yield a guard"),
    };
    let second = match pool.get() {
        Acquired::NeedFactory => pool.finish_factory::<Error>(Ok(11)),
        _ => panic!("second acquire should need the factory"),
    };
    let second = match second {
        PoolingResult::Success(g) => g,
        _ => panic!("factory success should yield a guard"),
    };
    assert!(matches!(pool.get(), Acquired::Exhausted));
    pool.release(first);
    pool.release(second);
}

#[test]
fn reuse_returns_same_handle_without_factory() {
    let mut pool: Pool<u32> = Pool::new(4);
    let guard = match pool.get() {
        Acquired::NeedFactory => match pool.finish_factory::<Error>(Ok(77)) {
            PoolingResult::Success(g) => g,
            _ => panic!("factory success should yield a guard"),
        },
        _ => panic!("fresh pool should need the factory"),
    };
    pool.release(guard);
    assert_eq!(pool.idle_len(), 1);
    match pool.get() {
        Acquired::Reused(g) => assert_eq!(g.get_ref(), Some(&77)),
        _ => panic!("the released handle should be reused, not built anew"),
    }
}

#[test]
fn disconnect_discards_handle_and_frees_capacity() {
    let mut pool: Pool<u32> = Pool::new(2);
    let mut guard = match pool.get() {
        Acquired::NeedFactory => match pool.finish_factory::<Error>(Ok(5)) {
            PoolingResult::Success(g) => g,
            _ => panic!("factory success should yield a guard"),
        },
        _ => panic!("fresh pool should need the factory"),
    };
    guard.disconnect(&mut pool);
    assert_eq!(pool.idle_len(), 0, "disconnect must not grow the idle queue");
    assert_eq!(guard.get_ref(), None);
    pool.release(guard);
    assert_eq!(pool.idle_len(), 0);
    assert!(
        matches!(pool.get(), Acquired::NeedFactory),
        "after a disconnect the next acquire must invoke the factory"
    );
}

#[test]
fn factory_failure_releases_the_permit() {
    let mut pool: Pool<u32> = Pool::new(1);
    match pool.get() {
        Acquired::NeedFactory => {}
        _ => panic!("fresh pool should need the factory"),
    }
    let failed = pool.finish_factory(Err(Error::Io(String::from("connect refused"))));
    assert!(matches!(failed, PoolingResult::FactoryErr(Error::Io(_))));
    assert!(
        matches!(pool.get(), Acquired::NeedFactory),
        "a failed acquisition must not shrink the capacity"
    );
}

#[test]
fn capacity_one_second_acquirer_waits_for_release() {
    let mut pool: Pool<u32> = Pool::new(1);
    let guard = match pool.get() {
        Acquired::NeedFactory => match pool.finish_factory::<Error>(Ok(42)) {
            PoolingResult::Success(g) => g,
            _ => panic!("factory success should yield a guard"),
        },
        _ => panic!("fresh pool should need the factory"),
    };
    assert!(
        matches!(pool.get(), Acquired::Exhausted),
        "the second acquirer must wait while the first guard is out"
    );
    pool.release(guard);
    match pool.get() {
        Acquired::Reused(g) => assert_eq!(g.get_ref(), Some(&42)),
        _ => panic!("after the release the second acquirer should get the handle"),
    }
}

#[test]
fn pooling_result_into_result_mapping() {
    let semantics: PoolingResult<u32, Error> = PoolingResult::SemanticsError;
    match semantics.into_result() {
        Err(Error::BusinessPanic(m)) => assert_eq!(m, "Semaphore error"),
        _ => panic!("a semaphore fault is an internal inconsistency"),
    }
    let failed: PoolingResult<u32, Error> = PoolingResult::FactoryErr(Error::NotFound);
    assert!(matches!(failed.into_result(), Err(Error::NotFound)));
}

#[test]
fn idle_len_counts_released_handles() {
    let mut pool: Pool<u8> = Pool::new(3);
    for v in 0..3u8 {
        match pool.get() {
            Acquired::NeedFactory => match pool.finish_factory::<Error>(Ok(v)) {
                PoolingResult::Success(g) => pool.release(g),
                _ => panic!("factory success should yield a guard"),
            },
            Acquired::Reused(g) => pool.release(g),
            Acquired::Exhausted => panic!("pool should not be exhausted"),
        }
    }
    assert_eq!(pool.idle_len(), 1, "one handle, released and reused, stays idle");
}
