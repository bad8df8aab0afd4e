use continual_count::{DPCounterLP, DPCounterRR, Epsilon, SequentialNoise, UNIT};

#[test]
fn basic_test_lp() {
    let mut counter = DPCounterLP::new(Epsilon { num: 2, den: 1 }, SequentialNoise::new(1));
    let votes = [true, true, false, true, false, false, true, true, true, true, true, false];
    for v in votes.iter() {
        counter.process_record(*v);
        println!(
            "record: {}, true_count: {}, count: {}",
            v,
            counter.get_true_count(),
            counter.get_count()
        );
    }
}

#[test]
fn lp_noise_reuse_test() {
    let mut c = DPCounterLP::new(Epsilon { num: 2, den: 1 }, SequentialNoise::new(5));
    c.process_record(true);
    let r1 = c.get_count();
    let r2 = c.get_count();
    // A second read of an unchanged count reuses the noise bit for bit.
    assert_eq!(r1, r2);
    // The first draw of the source is 5, so the value is exact.
    assert_eq!(r1, UNIT + 5);
    // A false record leaves the count unchanged, so no fresh noise is drawn.
    c.process_record(false);
    let r3 = c.get_count();
    assert_eq!(r3, r1);
    // A true record changes the count: the next read draws fresh noise.
    c.process_record(true);
    let r4 = c.get_count();
    assert_eq!(r4, 2 * UNIT + 6);
    assert_eq!(c.get_true_count(), 2);
    assert_eq!(c.get_epsilon(), Epsilon { num: 2, den: 1 });
}

#[test]
fn rr_count_test() {
    let mut c = DPCounterRR::new(Epsilon { num: 1, den: 1 });
    let records = [true, false, true, true];
    for r in records.iter() {
        c.process_record(*r);
    }
    assert_eq!(c.get_count(), 3);
    assert_eq!(c.get_epsilon(), Epsilon { num: 1, den: 1 });
}
