use continual_count::{
    BinaryMechanism, Epsilon, HybridMechanism, LogarithmicMechanism, SequentialNoise, UNIT,
};

#[test]
fn short_bin_mech_test() {
    let mut b = BinaryMechanism::new(8, Epsilon { num: 3, den: 1 }, SequentialNoise::new(1));
    let stream = vec![true, false, true, true, false, false, false, true];
    let mut count: u32 = 0;
    for s in stream {
        count += s as u32;
        println!("True count: {}", count);
        let output = b.step_forward(s);
        println!("Noised count: {}", output);
    }
}

#[test]
fn long_bin_mech_test() {
    let mut b = BinaryMechanism::new(100, Epsilon { num: 3, den: 1 }, SequentialNoise::new(1));
    let mut stream = vec![];
    println!("True, Noised");
    let mut count: u32 = 0;
    for _t in 0..100 {
        let s: bool = rand::random();
        stream.push(s);
        count += s as u32;
        let output = b.step_forward(s);
        println!("{}, {}", count, output);
    }
    println!("Stream: {:?}", stream);
}

#[test]
fn log_mech_test() {
    let mut l = LogarithmicMechanism::new(Epsilon { num: 3, den: 1 }, SequentialNoise::new(1));
    let mut stream = vec![];
    println!("True, Noised");
    let mut count: u32 = 0;
    // The initial unset value counts as one of the distinct values.
    let mut outputs = vec![l.prev_output];
    let mut last = l.prev_output;
    let mut changed_at = vec![];

    let stream_length: f64 = 50.0;
    for t in 0..(stream_length as u32) {
        let s: bool = rand::random();
        stream.push(s);
        count += s as u32;
        let output = l.step_forward(s);
        if output != last {
            changed_at.push(t + 1);
            last = output;
        }
        outputs.push(output);
        println!("t: {}, count: {}, output: {}", t + 1, count, output);
    }
    println!("Stream: {:?}", stream);
    // Released values change exactly at the power-of-two steps.
    assert_eq!(changed_at, vec![1, 2, 4, 8, 16, 32]);
    outputs.sort();
    outputs.dedup();
    assert_eq!(outputs.len(), (stream_length.log2().ceil() + 1.0) as usize);
}

#[test]
fn hybrid_mech_test() {
    let mut l = HybridMechanism::new(Epsilon { num: 3, den: 1 }, SequentialNoise::new(1));
    let mut stream = vec![];
    println!("True, Noised");
    let mut count: u32 = 0;
    let mut outputs = vec![];

    let stream_length: f64 = 50.0;
    for t in 0..(stream_length as u32) {
        let s: bool = rand::random();
        stream.push(s);
        count += s as u32;
        let output = l.step_forward(s);
        outputs.push(output);
        let diff = count as f64 - output as f64 / UNIT as f64;
        println!("t: {}, count: {}, output: {}, diff: {}", t + 1, count, output, diff);
    }
}

#[test]
fn bin_tiling_test() {
    // The stream of the short scenario: true counts 1,1,2,3,3,3,3,4.
    let mut b = BinaryMechanism::new(8, Epsilon { num: 3, den: 1 }, SequentialNoise::new(1));
    let stream = [true, false, true, true, false, false, false, true];
    let expected_counts = [1u64, 1, 2, 3, 3, 3, 3, 4];
    for (idx, s) in stream.iter().enumerate() {
        b.step_forward(*s);
        let t = (idx + 1) as u64;
        // The live levels are exactly the set bits of the step index.
        for level in 0..b.exact_sums.len() {
            let bit = (t >> level) & 1 == 1;
            assert_eq!(b.exact_sums[level].is_some(), bit);
            assert_eq!(b.noisy_sums[level].is_some(), bit);
        }
        // The exact sums add up to the true count so far.
        let total: u64 = b.exact_sums.iter().flatten().sum();
        assert_eq!(total, expected_counts[idx]);
        // Never more than floor(log2 8) + 1 = 4 live partial sums.
        let live = b.exact_sums.iter().filter(|o| o.is_some()).count();
        assert!(live <= 4);
    }
}

#[test]
fn horizon_freeze_test() {
    let mut b = BinaryMechanism::new(4, Epsilon { num: 1, den: 1 }, SequentialNoise::new(5));
    let mut outs = vec![];
    for _ in 0..7 {
        outs.push(b.step_forward(true));
    }
    // Every call beyond the 4th repeats the 4th output.
    assert_eq!(outs[4], outs[3]);
    assert_eq!(outs[5], outs[3]);
    assert_eq!(outs[6], outs[3]);
    assert!(b.is_exhausted());
}

#[test]
fn noise_reuse_test() {
    let mut b = BinaryMechanism::new(8, Epsilon { num: 2, den: 1 }, SequentialNoise::new(10));
    b.step_forward(true); // t = 1: level 0 created
    b.step_forward(true); // t = 2: level 1 created, level 0 deleted
    let kept = b.noisy_sums[1];
    assert!(kept.is_some());
    assert!(b.noisy_sums[0].is_none());
    b.step_forward(false); // t = 3: level 0 recreated, level 1 untouched
    assert_eq!(b.noisy_sums[1], kept);
    b.step_forward(true); // t = 4: merge into level 2, levels 0 and 1 deleted
    assert!(b.noisy_sums[1].is_none());
    assert!(b.noisy_sums[2].is_some());
}

#[test]
fn hybrid_boundary_test() {
    // The hybrid's logarithmic component draws the same noise as a
    // stand-alone logarithmic mechanism built from the same source state,
    // so at every power-of-two boundary the two outputs must coincide.
    let mut h = HybridMechanism::new(Epsilon { num: 3, den: 1 }, SequentialNoise::new(1));
    let mut mirror = LogarithmicMechanism::new(Epsilon { num: 3, den: 2 }, SequentialNoise::new(1));
    let stream = [
        true, true, false, true, false, false, true, true, false, true, true, false, false, true,
        true, false, true, false, true, true,
    ];
    for (idx, s) in stream.iter().enumerate() {
        let t = (idx + 1) as u64;
        let hout = h.step_forward(*s);
        let lout = mirror.step_forward(*s);
        if t > 1 && t.is_power_of_two() {
            assert_eq!(hout, lout);
        }
    }
}
