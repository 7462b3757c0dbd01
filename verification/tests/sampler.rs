use geth_runner::errors::Error;
use geth_runner::sampler::sample;

#[test]
fn test_sample() {
    let mut cnt = [0; 5];
    for _ in 0..100000 {
        let res = sample(3, 5, 0).unwrap();
        for x in res {
            cnt[x] += 1;
        }
    }
    println!("{:?}", cnt);
}

#[test]
fn test_sample2() {
    for _ in 0..100 {
        let res = sample(6, 24, 14).unwrap();
        println!("{:?}", res);
    }
}

#[test]
fn sample_returns_k_distinct_values_excluding_self() {
    for _ in 0..200 {
        let res = sample(3, 5, 0).unwrap();
        assert_eq!(res.len(), 3);
        for (a, &x) in res.iter().enumerate() {
            assert!(x < 5);
            assert_ne!(x, 0);
            for &y in &res[a + 1..] {
                assert_ne!(x, y);
            }
        }
    }
}

#[test]
fn sample_whole_pool_is_the_pool() {
    // k == n - 1 leaves no choice: the result must be every candidate.
    let mut res = sample(4, 5, 2).unwrap();
    res.sort();
    assert_eq!(res, vec![0, 1, 3, 4]);
}

#[test]
fn sample_rejects_k_beyond_pool() {
    assert_eq!(sample(5, 5, 0), Err(Error::InvalidArgument));
    assert_eq!(sample(7, 5, 1), Err(Error::InvalidArgument));
}

#[test]
fn sample_inclusion_frequency_is_roughly_uniform() {
    // Each of the 4 candidates should appear with frequency near
    // k / (n - 1) = 3/4; the tolerance is far wider than the noise.
    let trials = 100000;
    let mut cnt = [0u32; 5];
    for _ in 0..trials {
        for x in sample(3, 5, 0).unwrap() {
            cnt[x] += 1;
        }
    }
    assert_eq!(cnt[0], 0);
    for &c in &cnt[1..] {
        assert!(c > 70000, "inclusion count {} far below expectation", c);
        assert!(c < 80000, "inclusion count {} far above expectation", c);
    }
}
