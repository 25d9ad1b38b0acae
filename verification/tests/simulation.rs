//! Engine behaviour, checked against a plain IEEE-754 reference
//! implementation of the same stencil.

use wavesim::scalar::F32_DEFAULT_DAMPING;
use wavesim::simulation::{decode_state, WavePoint, WaveSimulation};

fn cells_of(sim: &WaveSimulation) -> Vec<WavePoint> {
    let (_, bytes) = sim.current_state();
    decode_state(&bytes).unwrap()
}

fn value_at(sim: &WaveSimulation, x: usize, y: usize) -> f32 {
    let div = sim.divisions();
    f32::from_bits(cells_of(sim)[y * div + x].value)
}

/// One tick of the stencil in plain `f32`, mirroring the engine's
/// documented update rule.
fn reference_advance(
    div: usize,
    damping: f32,
    current: &mut Vec<[f32; 4]>,
    previous: &mut Vec<[f32; 4]>,
) {
    std::mem::swap(current, previous);
    for y in 0..div {
        for x in 0..div {
            let i = y * div + x;
            if previous[i][2] >= 0.0 {
                let value = previous[i][0];
                let vel = previous[i][1];
                let mut target = previous[i][2];
                let mut mid = 0.0f32;
                if x != 0 {
                    mid += previous[y * div + x - 1][0].max(0.0);
                }
                if x != div - 1 {
                    mid += previous[y * div + x + 1][0].max(0.0);
                }
                if y != 0 {
                    mid += previous[(y - 1) * div + x][0].max(0.0);
                }
                if y != div - 1 {
                    mid += previous[(y + 1) * div + x][0].max(0.0);
                }
                mid /= 4.0;
                target *= 1.5;
                let new_vel = target * (mid - value) + vel * damping;
                let new_value = value + new_vel;
                current[i][0] = new_value;
                current[i][1] = new_vel;
            } else {
                current[i][0] = 0.0;
                current[i][1] = 0.0;
            }
        }
    }
}

#[test]
fn fresh_engine_is_at_rest() {
    for div in [1usize, 2, 7, 8, 16] {
        let sim = WaveSimulation::new(div as u32);
        assert_eq!(sim.divisions(), div);
        let cells = cells_of(&sim);
        assert_eq!(cells.len(), div * div);
        for c in &cells {
            assert_eq!(f32::from_bits(c.value), 0.0);
            assert_eq!(f32::from_bits(c.velocity), 0.0);
            assert_eq!(f32::from_bits(c.medium), 1.0);
            assert_eq!(f32::from_bits(c.extra), 1.0);
        }
    }
}

#[test]
fn state_byte_length_is_sixteen_per_cell() {
    for div in [1usize, 3, 8, 32] {
        let mut sim = WaveSimulation::new(div as u32);
        let (d, bytes) = sim.current_state();
        assert_eq!(d as usize, div);
        assert_eq!(bytes.len(), div * div * 16);
        sim.poke(0, 0);
        sim.advance();
        let (_, bytes) = sim.current_state();
        assert_eq!(bytes.len(), div * div * 16);
    }
}

#[test]
fn state_bytes_are_packed_little_endian_floats() {
    let sim = WaveSimulation::new(2);
    let (_, bytes) = sim.current_state();
    let mut expected: Vec<u8> = Vec::new();
    for _ in 0..4 {
        for field in [0.0f32, 0.0, 1.0, 1.0] {
            expected.extend_from_slice(&field.to_le_bytes());
        }
    }
    assert_eq!(bytes, expected);
}

#[test]
fn poke_normalized_at_origin_excites_five_block() {
    let mut sim = WaveSimulation::new(8);
    sim.poke_normalized((0.0f32.to_bits(), 0.0f32.to_bits()));
    for y in 0..8 {
        for x in 0..8 {
            let expected = if x < 5 && y < 5 { 1.0 } else { 0.0 };
            assert_eq!(value_at(&sim, x, y), expected, "cell ({}, {})", x, y);
        }
    }
}

#[test]
fn poke_normalized_at_far_corner_clamps_to_last_cell() {
    let mut sim = WaveSimulation::new(8);
    sim.poke_normalized((1.0f32.to_bits(), 1.0f32.to_bits()));
    for y in 0..8 {
        for x in 0..8 {
            let expected = if x == 7 && y == 7 { 1.0 } else { 0.0 };
            assert_eq!(value_at(&sim, x, y), expected, "cell ({}, {})", x, y);
        }
    }
}

#[test]
fn poke_normalized_clamps_out_of_range_input() {
    let mut sim = WaveSimulation::new(8);
    sim.poke_normalized(((-3.0f32).to_bits(), 2.5f32.to_bits()));
    // clamps to (0.0, 1.0): block anchored at (0, 7)
    for y in 0..8 {
        for x in 0..8 {
            let expected = if x < 5 && y == 7 { 1.0 } else { 0.0 };
            assert_eq!(value_at(&sim, x, y), expected, "cell ({}, {})", x, y);
        }
    }
}

#[test]
fn poke_accumulates_overlapping_excitations() {
    let mut sim = WaveSimulation::new(8);
    sim.poke(0, 0);
    sim.poke(0, 0);
    assert_eq!(value_at(&sim, 0, 0), 2.0);
    sim.poke(4, 4);
    assert_eq!(value_at(&sim, 4, 4), 3.0);
}

#[test]
fn poke_clips_at_grid_bounds() {
    let mut sim = WaveSimulation::new(8);
    sim.poke(6, 6);
    for y in 0..8 {
        for x in 0..8 {
            let expected = if x >= 6 && y >= 6 { 1.0 } else { 0.0 };
            assert_eq!(value_at(&sim, x, y), expected, "cell ({}, {})", x, y);
        }
    }
}

#[test]
fn poke_outside_grid_excites_nothing() {
    let mut sim = WaveSimulation::new(8);
    sim.poke(8, 0);
    sim.poke(0, 100);
    for c in cells_of(&sim) {
        assert_eq!(f32::from_bits(c.value), 0.0);
    }
}

#[test]
fn default_damping_matches_documented_value() {
    assert_eq!(F32_DEFAULT_DAMPING, 0.98f32.to_bits());
    let sim = WaveSimulation::new(4);
    assert_eq!(sim.damping, 0.98f32.to_bits());
}

#[test]
fn advance_matches_ieee_reference() {
    let div = 8usize;
    let mut sim = WaveSimulation::new(div as u32);
    sim.poke(2, 2);
    sim.poke(5, 1);

    let mut current = vec![[0.0f32, 0.0, 1.0, 1.0]; div * div];
    let mut previous = vec![[0.0f32, 0.0, 1.0, 1.0]; div * div];
    for y in 2..7 {
        for x in 2..7 {
            current[y * div + x][0] += 1.0;
        }
    }
    for y in 1..6 {
        for x in 5..8 {
            current[y * div + x][0] += 1.0;
        }
    }

    for tick in 0..12 {
        sim.advance();
        reference_advance(div, 0.98, &mut current, &mut previous);
        let cells = cells_of(&sim);
        for i in 0..div * div {
            assert_eq!(cells[i].value, current[i][0].to_bits(), "tick {} cell {}", tick, i);
            assert_eq!(cells[i].velocity, current[i][1].to_bits(), "tick {} cell {}", tick, i);
            assert_eq!(cells[i].medium, current[i][2].to_bits(), "tick {} cell {}", tick, i);
            assert_eq!(cells[i].extra, current[i][3].to_bits(), "tick {} cell {}", tick, i);
        }
    }
}

#[test]
fn advance_uses_the_mutable_damping_setting() {
    let div = 6usize;
    let mut sim = WaveSimulation::new(div as u32);
    sim.damping = 0.5f32.to_bits();
    sim.poke(1, 1);

    let mut current = vec![[0.0f32, 0.0, 1.0, 1.0]; div * div];
    let mut previous = vec![[0.0f32, 0.0, 1.0, 1.0]; div * div];
    for y in 1..6 {
        for x in 1..6 {
            current[y * div + x][0] += 1.0;
        }
    }

    for _ in 0..6 {
        sim.advance();
        reference_advance(div, 0.5, &mut current, &mut previous);
    }
    let cells = cells_of(&sim);
    for i in 0..div * div {
        assert_eq!(cells[i].value, current[i][0].to_bits());
        assert_eq!(cells[i].velocity, current[i][1].to_bits());
    }
}

#[test]
fn sink_cell_stays_at_rest() {
    let mut sim = WaveSimulation::new(8);
    sim.set_medium(3, 3, (-1.0f32).to_bits());
    sim.poke(1, 1);
    for _ in 0..10 {
        sim.advance();
        let cells = cells_of(&sim);
        let c = cells[3 * 8 + 3];
        assert_eq!(f32::from_bits(c.value), 0.0);
        assert_eq!(f32::from_bits(c.velocity), 0.0);
    }
}

#[test]
fn energy_dissipates_over_a_long_run() {
    let div = 8usize;
    let mut sim = WaveSimulation::new(div as u32);
    sim.poke_normalized((0.4f32.to_bits(), 0.4f32.to_bits()));
    let total = |sim: &WaveSimulation| -> f64 {
        cells_of(sim).iter().map(|c| f32::from_bits(c.value).abs() as f64).sum()
    };
    for _ in 0..3 {
        sim.advance();
    }
    let early = total(&sim);
    assert!(early > 0.0);
    for _ in 0..500 {
        sim.advance();
    }
    let late = total(&sim);
    assert!(late < early, "late {} not below early {}", late, early);
}

#[test]
fn state_round_trips_through_the_byte_layout() {
    let mut sim = WaveSimulation::new(5);
    sim.poke(1, 2);
    sim.advance();
    sim.advance();
    let (_, bytes) = sim.current_state();
    let cells = decode_state(&bytes).unwrap();
    assert_eq!(cells.len(), 25);
    let mut encoded: Vec<u8> = Vec::new();
    for c in &cells {
        encoded.extend_from_slice(&c.value.to_le_bytes());
        encoded.extend_from_slice(&c.velocity.to_le_bytes());
        encoded.extend_from_slice(&c.medium.to_le_bytes());
        encoded.extend_from_slice(&c.extra.to_le_bytes());
    }
    assert_eq!(encoded, bytes);
}

#[test]
fn decode_rejects_a_partial_record() {
    assert!(decode_state(&vec![0u8; 15]).is_none());
    assert!(decode_state(&vec![0u8; 17]).is_none());
    let one = decode_state(&vec![0u8; 16]).unwrap();
    assert_eq!(one.len(), 1);
    assert_eq!(one[0].value, 0);
    let none = decode_state(&Vec::new()).unwrap();
    assert_eq!(none.len(), 0);
}

#[test]
fn set_divisions_discards_all_history() {
    let mut sim = WaveSimulation::new(8);
    sim.poke(0, 0);
    sim.advance();
    sim.damping = 0.9f32.to_bits();
    sim.set_divisions(4);
    assert_eq!(sim.divisions(), 4);
    assert_eq!(sim.damping, 0.9f32.to_bits());
    let cells = cells_of(&sim);
    assert_eq!(cells.len(), 16);
    for c in &cells {
        assert_eq!(f32::from_bits(c.value), 0.0);
        assert_eq!(f32::from_bits(c.velocity), 0.0);
        assert_eq!(f32::from_bits(c.medium), 1.0);
    }
}

#[test]
fn default_cell_is_at_rest_in_transmissive_medium() {
    let c = WavePoint::default();
    assert_eq!(c.value, 0.0f32.to_bits());
    assert_eq!(c.velocity, 0.0f32.to_bits());
    assert_eq!(c.medium, 1.0f32.to_bits());
    assert_eq!(c.extra, 1.0f32.to_bits());
}
