use aule::block::delay::{Delay, DelayOutput};
use aule::block::siso::SISO;
use aule::signal::Signal;
use core::time::Duration;

fn nanos(d: Duration) -> u128 {
    d.as_nanos()
}

fn duration(ns: u128) -> Duration {
    Duration::new((ns / 1_000_000_000) as u64, (ns % 1_000_000_000) as u32)
}

/// The value a delay line emits, formed from its output as the block does:
/// `(1 - g) * first + g * second` with `g = elapsed / span`.
fn value(out: DelayOutput<f32>) -> f32 {
    match out {
        DelayOutput::Initial(s) => s.value,
        DelayOutput::Interpolated { first, second, elapsed, span } => {
            let gama = duration(elapsed).as_secs_f32() / duration(span).as_secs_f32();
            (1.0 - gama) * first.value + gama * second.value
        }
    }
}

fn signal(dt: Duration, value: f32) -> Signal<f32> {
    Signal::new(value, nanos(dt))
}

fn two_second_delay() -> Delay<f32> {
    Delay::new(nanos(Duration::from_secs(2)))
        .with_initial_signal(signal(Duration::from_secs(1), 0.0))
}

#[test]
fn test_delay_happy_way() {
    let mut delay = two_second_delay();
    let input_signal = signal(Duration::from_secs(1), 1.0);
    let mut output_signals = Vec::new();
    for _ in 0..3 {
        let output = delay.output(input_signal);
        output_signals.push(value(output));
    }
    assert_eq!(output_signals[0], 0.0);
    assert_eq!(output_signals[1], 0.0);
    assert_eq!(output_signals[2], 1.0);
}

#[test]
fn test_delay_half_dt() {
    let mut delay = two_second_delay();
    let mut input_signals = Vec::new();
    for i in 0..3 {
        input_signals.push(signal(Duration::from_millis(1000), (i + 1) as f32));
    }
    for i in 0..6 {
        input_signals.push(signal(Duration::from_millis(500), 3.0 + (i + 1) as f32));
    }
    let mut output_signals = Vec::new();
    for input in input_signals {
        output_signals.push(value(delay.output(input)));
    }
    assert_eq!(output_signals[0], 0.0);
    assert_eq!(output_signals[1], 0.0);
    assert_eq!(output_signals[2], 1.0);
    assert_eq!(output_signals[3], 1.5);
    assert_eq!(output_signals[4], 2.0);
    assert_eq!(output_signals[5], 2.5);
    assert_eq!(output_signals[6], 3.0);
    assert_eq!(output_signals[7], 4.0);
    assert_eq!(output_signals[8], 5.0);
}

#[test]
fn test_delay_large_dt() {
    let mut delay = two_second_delay();
    let large_input_signal = signal(Duration::from_secs(5), 1.0);
    let input_signal = signal(Duration::from_secs(1), 1.0);
    let mut output_signals = Vec::new();
    output_signals.push(value(delay.output(large_input_signal)));
    output_signals.push(value(delay.output(input_signal)));
    output_signals.push(value(delay.output(input_signal)));
    for i in 0..6 {
        let half_input_signal = signal(Duration::from_millis(500), 2.0 + i as f32);
        output_signals.push(value(delay.output(half_input_signal)));
    }
    assert_eq!(output_signals[0], 0.6);
    assert_eq!(output_signals[1], 0.8);
    assert_eq!(output_signals[2], 1.0);
    assert_eq!(output_signals[3], 1.0);
    assert_eq!(output_signals[4], 1.0);
    assert_eq!(output_signals[5], 1.0);
    assert_eq!(output_signals[6], 1.0);
    assert_eq!(output_signals[7], 2.0);
    assert_eq!(output_signals[8], 3.0);
}

#[test]
fn test_delay_large_dt_in_middle() {
    let mut delay = two_second_delay();
    let large_input_signal = |v: i32| signal(Duration::from_secs(5), v as f32);
    let input_signal = |v: i32| signal(Duration::from_secs(1), v as f32);
    let half_signal = |v: i32| signal(Duration::from_millis(500), v as f32);
    let mut output_signals = Vec::new();
    for i in 0..3 {
        output_signals.push(value(delay.output(input_signal(i + 1))));
    }
    output_signals.push(value(delay.output(large_input_signal(4))));
    for i in 0..6 {
        output_signals.push(value(delay.output(half_signal(5 + i))));
    }
    assert_eq!(output_signals.len(), 10);
}

#[test]
fn delay_emits_initial_signal_before_the_delay() {
    let mut delay = Delay::new(nanos(Duration::from_secs(3)))
        .with_initial_signal(signal(Duration::ZERO, 7.0));
    let out = delay.output(signal(Duration::from_millis(250), 1.0));
    match out {
        DelayOutput::Initial(s) => {
            assert_eq!(s.value, 7.0);
            // a zero step of the initial signal takes the input's step
            assert_eq!(s.dt, nanos(Duration::from_millis(250)));
        }
        _ => panic!("expected the initial signal"),
    }
    assert_eq!(delay.current_time(), nanos(Duration::from_millis(250)));
}

#[test]
fn delay_default_initial_signal_is_zero() {
    let mut delay: Delay<f32> = Delay::new(nanos(Duration::from_secs(1)));
    assert_eq!(delay.initial_signal().value, 0.0);
    assert_eq!(delay.initial_signal().dt, 0);
    assert!(delay.last_output().is_none());
    let out = delay.output(signal(Duration::from_millis(100), 3.0));
    assert_eq!(value(out), 0.0);
    assert!(delay.last_output().is_some());
}

#[test]
fn delay_interpolation_weight_and_pair() {
    let mut delay = two_second_delay();
    // t = 1 s: initial; t = 2.5 s: between the initial entry (2 s) and the
    // first input (3 s)
    delay.output(signal(Duration::from_secs(1), 4.0));
    let out = delay.output(signal(Duration::from_millis(1500), 8.0));
    match out {
        DelayOutput::Interpolated { first, second, elapsed, span } => {
            assert_eq!(first.value, 0.0);
            assert_eq!(second.value, 4.0);
            assert_eq!(elapsed, nanos(Duration::from_millis(500)));
            assert_eq!(span, nanos(Duration::from_secs(1)));
            assert!(elapsed < span);
        }
        _ => panic!("expected an interpolation"),
    }
    assert_eq!(value(out), 2.0);
    assert_eq!(delay.delay(), nanos(Duration::from_secs(2)));
}

#[test]
fn delay_reproduces_input_exactly_delay_later() {
    let mut delay = Delay::new(nanos(Duration::from_millis(300)));
    let mut outputs = Vec::new();
    for i in 0..10 {
        outputs.push(value(delay.output(signal(Duration::from_millis(100), i as f32))));
    }
    // the input that entered at step k leaves at step k + 3
    for k in 0..7 {
        assert_eq!(outputs[k + 3], k as f32);
    }
}

#[test]
fn delay_emits_initial_signal_when_time_reaches_the_delay() {
    let mut delay: Delay<f32> = Delay::new(nanos(Duration::from_secs(2)));
    delay.output(signal(Duration::from_secs(1), 1.0));
    let out = delay.output(signal(Duration::from_secs(1), 1.0));
    match out {
        DelayOutput::Initial(s) => {
            assert_eq!(s.value, 0.0);
            assert_eq!(s.dt, nanos(Duration::from_secs(1)));
        }
        _ => panic!("expected the initial signal at time == delay"),
    }
    assert_eq!(delay.current_time(), nanos(Duration::from_secs(2)));
    let out = delay.output(signal(Duration::from_secs(1), 1.0));
    assert_eq!(value(out), 1.0);
}

#[test]
fn delay_initial_signal_last_setting_wins() {
    let base = || Delay::<f32>::new(nanos(Duration::from_secs(1)));
    let mut twice = base()
        .with_initial_signal(signal(Duration::from_millis(10), 5.0))
        .with_initial_signal(signal(Duration::from_millis(20), 9.0));
    let mut once = base().with_initial_signal(signal(Duration::from_millis(20), 9.0));
    assert_eq!(twice.initial_signal().value, once.initial_signal().value);
    assert_eq!(twice.initial_signal().dt, once.initial_signal().dt);
    for i in 0..8 {
        let x = signal(Duration::from_millis(300), i as f32);
        assert_eq!(value(twice.output(x)), value(once.output(x)));
    }
}

#[test]
fn delay_is_exact_k_sample_delay() {
    // delay of 4 steps of 250 ms: the first 4 outputs are the initial value,
    // then each output is the input fed 4 steps earlier
    let mut delay = Delay::new(nanos(Duration::from_secs(1)))
        .with_initial_signal(signal(Duration::from_millis(250), -1.0));
    let inputs: Vec<f32> = (0..12).map(|i| (i * i) as f32).collect();
    for (m, x) in inputs.iter().enumerate() {
        let out = delay.output(signal(Duration::from_millis(250), *x));
        if m + 1 <= 4 {
            assert_eq!(value(out), -1.0);
        } else {
            match out {
                DelayOutput::Interpolated { first, second, elapsed, span } => {
                    assert_eq!(first.value, inputs[m - 4]);
                    assert_eq!(second.value, inputs[m - 3]);
                    assert_eq!(elapsed, 0);
                    assert_eq!(span, nanos(Duration::from_millis(250)));
                }
                _ => panic!("expected an interpolation"),
            }
        }
    }
}
