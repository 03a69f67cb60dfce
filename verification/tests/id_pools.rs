use std::sync::{Mutex, PoisonError};

use chat_server_tokio::id_pool::{new_ids, obtain_under, redeem_under};
use chat_server_tokio::{paket, ChatError, SharedIdPool, MAX_NUM_USERS};

#[test]
fn ids_are_handed_out_in_order() {
    let pool = SharedIdPool::new();
    for id in 1..=MAX_NUM_USERS {
        assert_eq!(pool.obtain_id_token().unwrap(), id);
    }
    assert!(matches!(pool.obtain_id_token(), Err(ChatError::NoIdsLeft)));
}

#[test]
fn redeemed_id_comes_next() {
    let pool = SharedIdPool::new();
    assert_eq!(pool.obtain_id_token().unwrap(), 1);
    assert_eq!(pool.obtain_id_token().unwrap(), 2);
    pool.redeem_token(1).unwrap();
    assert_eq!(pool.obtain_id_token().unwrap(), 1);
    assert_eq!(pool.obtain_id_token().unwrap(), 3);
}

#[test]
fn clones_share_the_pool() {
    let pool = SharedIdPool::new();
    let other = pool.clone();
    assert_eq!(pool.obtain_id_token().unwrap(), 1);
    assert_eq!(other.obtain_id_token().unwrap(), 2);
    other.redeem_token(1).unwrap();
    assert_eq!(pool.obtain_id_token().unwrap(), 1);
}

#[test]
fn any_id_can_be_redeemed() {
    let pool = SharedIdPool::new();
    pool.redeem_token(987_654).unwrap();
    assert_eq!(pool.obtain_id_token().unwrap(), 987_654);
}

#[test]
fn free_ids_of_a_new_pool() {
    let ids = new_ids();
    assert_eq!(ids.len(), 2000);
    assert_eq!(ids.first(), Some(&2000));
    assert_eq!(ids.last(), Some(&1));
}

#[test]
fn ids_under_a_lock() {
    let pool = Mutex::new(vec![7, 5]);
    let mut lock = pool.lock();
    assert_eq!(obtain_under(&mut lock).unwrap(), 5);
    redeem_under(&mut lock, 9).unwrap();
    assert_eq!(obtain_under(&mut lock).unwrap(), 9);
    assert_eq!(obtain_under(&mut lock).unwrap(), 7);
    assert!(matches!(obtain_under(&mut lock), Err(ChatError::NoIdsLeft)));
    redeem_under(&mut lock, 4).unwrap();
    drop(lock);
    assert_eq!(*pool.lock().unwrap(), [4]);
}

#[test]
fn poisoned_lock_is_refused() {
    let pool = Mutex::new(vec![7, 5]);
    let mut lock = match pool.lock() {
        Ok(guard) => Err(PoisonError::new(guard)),
        Err(e) => Err(e),
    };
    assert!(matches!(obtain_under(&mut lock), Err(ChatError::IdPoolPoisoned)));
    assert!(matches!(redeem_under(&mut lock, 9), Err(ChatError::IdPoolPoisoned)));
    drop(lock);
    assert_eq!(*pool.lock().unwrap(), [7, 5]);
}

#[test]
fn plain_pool() {
    let ids = paket::new_sharded_id_pool();
    assert_eq!(paket::obtain_id_token(&ids).unwrap(), 1);
    assert_eq!(paket::obtain_id_token(&ids).unwrap(), 2);
    paket::redeem_token(ids.clone(), 1).unwrap();
    assert_eq!(paket::obtain_id_token(&ids).unwrap(), 1);
    for _ in 3..=paket::MAX_NUM_USERS {
        paket::obtain_id_token(&ids).unwrap();
    }
    assert!(matches!(paket::obtain_id_token(&ids), Err(ChatError::NoIdsLeft)));
}

#[test]
fn nobody_gets_an_id_that_is_held() {
    let pool = SharedIdPool::new();
    let mut held: Vec<usize> = Vec::new();
    for round in 0..3 * MAX_NUM_USERS {
        if round % 3 == 2 {
            pool.redeem_token(held.remove(round % held.len())).unwrap();
        } else {
            match pool.obtain_id_token() {
                Ok(id) => {
                    assert!((1..=MAX_NUM_USERS).contains(&id));
                    assert!(!held.contains(&id));
                    held.push(id);
                }
                Err(_) => assert_eq!(held.len(), MAX_NUM_USERS),
            }
        }
    }
}
