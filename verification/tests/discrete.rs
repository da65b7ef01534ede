use aule::discrete::DTf;

/// One step of the difference equation, formed in f64 arithmetic around the
/// library's history bookkeeping.
fn step(tf: &mut DTf<f64>, input: f64) -> f64 {
    tf.push_input(input);
    let coeff = tf.denominator();
    let lead = coeff[0];
    let mut y = 0.0;
    for (b, u) in tf.numerator().iter().zip(tf.last_inputs().iter()) {
        y += b * u;
    }
    for (a, yy) in coeff[1..].iter().zip(tf.last_outputs().iter()) {
        y += -a / lead * yy;
    }
    tf.push_output(y);
    y
}

#[test]
fn dtf_first_order_recursion() {
    // y[k] = u[k] + 0.5 y[k-1]
    let mut tf = DTf::new(&[1.0], &[1.0, -0.5]);
    assert_eq!(tf.last_output(), Some(0.0));
    assert_eq!(step(&mut tf, 1.0), 1.0);
    assert_eq!(step(&mut tf, 0.0), 0.5);
    assert_eq!(step(&mut tf, 0.0), 0.25);
    assert_eq!(tf.last_output(), Some(0.25));
}

#[test]
fn dtf_histories_shift_newest_first() {
    let mut tf = DTf::new(&[1.0, 2.0, 3.0], &[1.0, 0.0, 0.0]);
    tf.push_input(5.0);
    tf.push_input(6.0);
    assert_eq!(tf.last_inputs(), &[6.0, 5.0, 0.0]);
    tf.push_output(7.0);
    assert_eq!(tf.last_outputs(), &[7.0, 0.0]);
}

#[test]
fn dtf_reset_restores_initial_conditions() {
    let mut tf = DTf::new(&[1.0, 1.0], &[1.0, 0.2])
        .with_initial_conditions(vec![3.0, 4.0], vec![9.0]);
    assert_eq!(tf.last_inputs(), &[3.0, 4.0]);
    step(&mut tf, 1.0);
    tf.reset();
    assert_eq!(tf.last_inputs(), &[3.0, 4.0]);
    assert_eq!(tf.last_outputs(), &[9.0]);

    let mut plain = DTf::new(&[1.0], &[1.0, 0.2]);
    step(&mut plain, 2.0);
    plain.reset();
    assert_eq!(plain.last_inputs(), &[0.0]);
    assert_eq!(plain.last_outputs(), &[0.0]);
}

#[test]
fn dtf_without_outputs_keeps_none() {
    let mut tf = DTf::new(&[2.0], &[1.0]);
    assert_eq!(tf.last_output(), None);
    assert_eq!(step(&mut tf, 3.0), 6.0);
    assert_eq!(tf.last_output(), None);
}
