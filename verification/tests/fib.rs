use exercises::fib::{calculate, fib, LAST_POSITION};
use exercises::fib_iterator::{FibIterator, LAST_INDEX};

#[test]
fn it_works() {
    let want: Vec<u64> = vec![0, 1, 1, 2, 3, 5, 8, 13, 21, 34];
    let mut walk = FibIterator::new(10);
    let mut ii = 0;
    while let Some(n) = walk.next() {
        assert_eq!(want[ii], n, "want {}, got {}", want[ii], n);
        ii += 1;
    }
    assert_eq!(ii, want.len());
}

#[test]
fn sum() {
    let want: u64 = 88;
    let mut got: u64 = 0;
    let mut walk = FibIterator::new(10);
    while let Some(n) = walk.next() {
        got += n;
    }
    assert_eq!(want, got, "want {}, got {}", want, got);
}

#[test]
fn a_finished_walk_stays_finished() {
    let mut walk = FibIterator::new(2);
    assert_eq!(walk.next(), Some(0));
    assert_eq!(walk.next(), Some(1));
    assert_eq!(walk.next(), None);
    assert_eq!(walk.next(), None);
}

#[test]
fn a_walk_without_limit_goes_on() {
    let mut walk = FibIterator::new(0);
    let mut last = 0;
    for _ in 0..LAST_INDEX {
        last = walk.next().unwrap();
    }
    assert_eq!(last, 7540113804746346429);
}

#[test]
fn into_vec_gives_what_is_left() {
    assert_eq!(FibIterator::new(10).into_vec(), vec![0, 1, 1, 2, 3, 5, 8, 13, 21, 34]);
    let mut walk = FibIterator::new(6);
    walk.next();
    walk.next();
    assert_eq!(walk.into_vec(), vec![1, 2, 3, 5]);
    let all = FibIterator::new(LAST_INDEX).into_vec();
    assert_eq!(all.len(), 93);
    assert_eq!(all[92], 7540113804746346429);
}

#[test]
fn calculate_gives_the_number_at_a_position() {
    assert_eq!(calculate(0), 0);
    assert_eq!(calculate(1), 1);
    assert_eq!(calculate(2), 1);
    assert_eq!(calculate(3), 2);
    assert_eq!(calculate(10), 55);
    assert_eq!(calculate(50), 12586269025);
    assert_eq!(calculate(91), 4660046610375530309);
    assert_eq!(calculate(LAST_POSITION), 7540113804746346429);
}

#[test]
fn calculate_follows_the_recurrence() {
    for n in 2..=LAST_POSITION {
        assert_eq!(calculate(n), calculate(n - 1) + calculate(n - 2));
    }
}

#[test]
fn fib_gives_a_number_and_its_successor() {
    assert_eq!(fib(0), (0, 1));
    assert_eq!(fib(1), (1, 1));
    assert_eq!(fib(7), (13, 21));
    assert_eq!(fib(92), (7540113804746346429, 12200160415121876738));
}
