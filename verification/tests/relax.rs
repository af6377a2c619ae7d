use rype::doc::HBox;

fn line(base_line: i64, base_line_k: i64, c_box_sep: i64, c_box_k: i64) -> HBox {
    HBox { c_boxes: vec![], base_line, base_line_k, c_box_sep, c_box_k }
}

#[test]
fn single_instance_feels_only_the_baseline_spring() {
    // baseline 0.4, k_line 0.05; instance at (0.11, 0.23); dt 0.01
    let mut h = line(400_000_000_000, 50_000_000_000, 100_000_000_000, 100_000_000_000);
    h.add_c_box(String::from("circle"), 110_000_000_000, 230_000_000_000);
    h.iterate(10_000_000_000);
    // zero pairwise force: x is unchanged
    assert_eq!(h.c_boxes[0].origin.x, 110_000_000_000);
    // y_new = y - dt * k_line * (y - baseline)
    //       = 0.23 - 0.01 * 0.05 * (0.23 - 0.4) = 0.230085
    assert_eq!(h.c_boxes[0].origin.y, 230_085_000_000);
    // the same spring acts on every further step
    h.iterate(10_000_000_000);
    assert_eq!(h.c_boxes[0].origin.x, 110_000_000_000);
}

#[test]
fn two_instances_move_their_gap_toward_the_target_separation() {
    // x = 0.3 and 0.6, target separation 0.1, k_sep = 0.1, dt = 0.01
    let mut h = line(0, 0, 100_000_000_000, 100_000_000_000);
    h.add_c_box(String::from("circle"), 300_000_000_000, 0);
    h.add_c_box(String::from("circle"), 600_000_000_000, 0);
    let gap_before = (h.c_boxes[1].origin.x - h.c_boxes[0].origin.x).abs();
    h.iterate(10_000_000_000);
    assert_eq!(h.c_boxes[0].origin.x, 300_400_000_000);
    assert_eq!(h.c_boxes[1].origin.x, 599_600_000_000);
    let gap_after = (h.c_boxes[1].origin.x - h.c_boxes[0].origin.x).abs();
    // strictly closer to the target separation 0.1 than before
    assert!((gap_after - 100_000_000_000).abs() < (gap_before - 100_000_000_000).abs());
}

#[test]
fn the_gap_closes_for_every_time_step_above_the_quantum() {
    // the smallest time step that moves these instances at all: the scaled
    // force is one raw unit (1e-12) once dt * 0.04 >= 1e-12, i.e. dt >= 25
    // raw units; below that the truncated product is zero
    for dt in [25, 26, 1_000, 10_000_000_000, 1_000_000_000_000] {
        let mut h = line(0, 0, 100_000_000_000, 100_000_000_000);
        h.add_c_box(String::from("circle"), 300_000_000_000, 0);
        h.add_c_box(String::from("circle"), 600_000_000_000, 0);
        h.iterate(dt);
        let gap = (h.c_boxes[1].origin.x - h.c_boxes[0].origin.x).abs();
        assert!((gap - 100_000_000_000).abs() < 400_000_000_000, "dt {}", dt);
    }
}

#[test]
fn time_steps_below_the_force_quantum_freeze_the_step() {
    // dt = 24 raw units scales the 0.04 force to under one raw unit, which
    // truncates to zero: the step leaves every position unchanged
    let mut h = line(0, 0, 100_000_000_000, 100_000_000_000);
    h.add_c_box(String::from("circle"), 300_000_000_000, 0);
    h.add_c_box(String::from("circle"), 600_000_000_000, 0);
    h.iterate(24);
    assert_eq!(h.c_boxes[0].origin.x, 300_000_000_000);
    assert_eq!(h.c_boxes[1].origin.x, 600_000_000_000);
    // one raw unit more and the instances move by exactly one raw unit
    h.iterate(25);
    assert_eq!(h.c_boxes[0].origin.x, 300_000_000_001);
    assert_eq!(h.c_boxes[1].origin.x, 599_999_999_999);
}

#[test]
fn zero_dt_step_is_a_no_op() {
    let mut h = line(400_000_000_000, 50_000_000_000, 100_000_000_000, 100_000_000_000);
    h.add_c_box(String::from("a"), 110_000_000_000, 230_000_000_000);
    h.add_c_box(String::from("b"), 670_000_000_000, 600_000_000_000);
    h.add_c_box(String::from("c"), 310_000_000_000, 400_000_000_000);
    let before: Vec<(i64, i64)> = h.c_boxes.iter().map(|c| (c.origin.x, c.origin.y)).collect();
    h.iterate(0);
    let after: Vec<(i64, i64)> = h.c_boxes.iter().map(|c| (c.origin.x, c.origin.y)).collect();
    assert_eq!(before, after);
}

#[test]
fn append_order_decides_adjacency_and_the_trajectory() {
    // the same three initial positions, appended in two different orders
    let mut h1 = line(400_000_000_000, 50_000_000_000, 100_000_000_000, 100_000_000_000);
    h1.add_c_box(String::from("g"), 110_000_000_000, 230_000_000_000);
    h1.add_c_box(String::from("g"), 670_000_000_000, 600_000_000_000);
    h1.add_c_box(String::from("g"), 310_000_000_000, 400_000_000_000);
    let mut h2 = line(400_000_000_000, 50_000_000_000, 100_000_000_000, 100_000_000_000);
    h2.add_c_box(String::from("g"), 110_000_000_000, 230_000_000_000);
    h2.add_c_box(String::from("g"), 310_000_000_000, 400_000_000_000);
    h2.add_c_box(String::from("g"), 670_000_000_000, 600_000_000_000);
    for _ in 0..3 {
        h1.iterate(10_000_000_000);
        h2.iterate(10_000_000_000);
    }
    // the instance that started at 0.11 has a different neighbour in each
    // line, so its trajectory differs after equally many equal steps
    assert_ne!(h1.c_boxes[0].origin.x, h2.c_boxes[0].origin.x);
}

#[test]
fn forces_read_the_pre_step_snapshot() {
    // two symmetric instances about the target separation move by equal and
    // opposite amounts: an in-place (order-dependent) update would break
    // the symmetry
    let mut h = line(0, 0, 100_000_000_000, 100_000_000_000);
    h.add_c_box(String::from("g"), 300_000_000_000, 0);
    h.add_c_box(String::from("g"), 600_000_000_000, 0);
    h.iterate(10_000_000_000);
    let d0 = h.c_boxes[0].origin.x - 300_000_000_000;
    let d1 = h.c_boxes[1].origin.x - 600_000_000_000;
    assert_eq!(d0, 400_000_000);
    assert_eq!(d1, -400_000_000);
}

#[test]
fn distant_instances_exert_no_force() {
    // coupling is nearest-neighbour only: the first instance's update
    // depends on the second instance alone, wherever the third one sits
    let mut ha = line(0, 0, 100_000_000_000, 100_000_000_000);
    ha.add_c_box(String::from("g"), 100_000_000_000, 0);
    ha.add_c_box(String::from("g"), 200_000_000_000, 0);
    ha.add_c_box(String::from("g"), 900_000_000_000, 0);
    let mut hb = line(0, 0, 100_000_000_000, 100_000_000_000);
    hb.add_c_box(String::from("g"), 100_000_000_000, 0);
    hb.add_c_box(String::from("g"), 200_000_000_000, 0);
    hb.add_c_box(String::from("g"), 300_000_000_000, 0);
    ha.iterate(10_000_000_000);
    hb.iterate(10_000_000_000);
    // index 0 sees only its successor at 0.2 in both lines
    assert_eq!(ha.c_boxes[0].origin.x, hb.c_boxes[0].origin.x);
    assert_eq!(ha.c_boxes[0].origin.y, hb.c_boxes[0].origin.y);
}
