use cloth_sim::simulation::{Neighbor, SimError, SimulationState};
use cloth_sim::topology::{build, ClothMesh, GridConfig, Spring, SpringKind};

fn hand_mesh(springs: Vec<Spring>) -> ClothMesh {
    let mut m = build(GridConfig { rows: 2, cols: 2, size: 2 }).unwrap();
    m.springs = springs;
    m
}

#[test]
fn upload_refuses_small_grids() {
    let mut m = hand_mesh(vec![]);
    m.config.rows = 1;
    let r = SimulationState::upload_topology(&m, vec![0u8; 2]);
    assert_eq!(r.err(), Some(SimError::InvalidConfiguration));
}

#[test]
fn upload_refuses_wrong_lane_count() {
    let m = hand_mesh(vec![]);
    let r = SimulationState::upload_topology(&m, vec![0u8; 3]);
    assert_eq!(r.err(), Some(SimError::VertexCountMismatch));
}

#[test]
fn upload_refuses_out_of_range_springs() {
    let m = hand_mesh(vec![Spring { index_a: 0, index_b: 4, kind: SpringKind::Stretch }]);
    let r = SimulationState::upload_topology(&m, vec![0u8; 4]);
    assert_eq!(r.err(), Some(SimError::SpringOutOfRange));
}

#[test]
fn upload_drops_degenerate_springs() {
    let m = hand_mesh(vec![
        Spring { index_a: 2, index_b: 2, kind: SpringKind::Stretch },
        Spring { index_a: 0, index_b: 1, kind: SpringKind::Shear },
    ]);
    let st = SimulationState::upload_topology(&m, vec![0u8; 4]).unwrap();
    assert_eq!(st.springs(), &vec![Spring { index_a: 0, index_b: 1, kind: SpringKind::Shear }]);
    assert!(st.neighbors(2).is_empty());
    assert_eq!(st.neighbors(1), &vec![Neighbor { index: 0, kind: SpringKind::Shear }]);
}

#[test]
fn neighbors_of_a_built_grid() {
    let m = build(GridConfig { rows: 3, cols: 3, size: 2 }).unwrap();
    let st = SimulationState::upload_topology(&m, vec![(); 9]).unwrap();
    assert_eq!(st.vertex_count(), 9);
    // the centre touches 4 stretch and 4 shear springs, no bend spring
    let centre = st.neighbors(4);
    assert_eq!(centre.len(), 8);
    assert_eq!(centre.iter().filter(|n| n.kind == SpringKind::Stretch).count(), 4);
    assert_eq!(centre.iter().filter(|n| n.kind == SpringKind::Shear).count(), 4);
    // a corner touches 2 stretch, 1 shear and 2 bend springs
    let corner = st.neighbors(0);
    let mut ends: Vec<u32> = corner.iter().map(|n| n.index).collect();
    ends.sort();
    assert_eq!(ends, vec![1, 2, 3, 4, 6]);
    assert_eq!(st.springs().len(), m.springs.len());
}

fn hooke(i: usize, prev: &Vec<f32>, springs: &Vec<Neighbor>) -> f32 {
    let (k, rest, dt) = (1.0f32, 1.0f32, 1.0f32);
    let x = prev[i];
    let mut force = 0.0f32;
    for n in springs {
        let d = x - prev[n.index as usize];
        force += -k * (d.abs() - rest) * d.signum();
    }
    x + force * dt
}

#[test]
fn step_reads_the_pre_step_state() {
    let m = hand_mesh(vec![Spring { index_a: 0, index_b: 1, kind: SpringKind::Stretch }]);
    let mut st = SimulationState::upload_topology(&m, vec![0.0f32, 2.0, 10.0, 20.0]).unwrap();
    st.step(hooke);
    // both ends move by the stretch of the separation before the step
    assert_eq!(st.current(), &vec![1.0f32, 1.0, 10.0, 20.0]);
    // an in-place update would have let lane 1 see lane 0 already moved
    let mut in_place = vec![0.0f32, 2.0];
    for i in 0..2 {
        let nb = vec![Neighbor { index: (1 - i) as u32, kind: SpringKind::Stretch }];
        in_place[i] = hooke(i, &in_place, &nb);
    }
    assert_ne!(&st.current()[0..2], &in_place[..]);
}

#[test]
fn steps_keep_topology() {
    let m = build(GridConfig { rows: 2, cols: 3, size: 1 }).unwrap();
    let mut st = SimulationState::upload_topology(&m, vec![0u64; 6]).unwrap();
    let springs = st.springs().clone();
    st.step(|i, prev: &Vec<u64>, nb: &Vec<Neighbor>| prev[i] + nb.len() as u64);
    st.step(|i, prev: &Vec<u64>, _nb: &Vec<Neighbor>| prev[i] * 10 + i as u64);
    assert_eq!(st.springs(), &springs);
    assert_eq!(st.vertex_count(), 6);
    let degrees: Vec<u64> = (0..6).map(|v| st.neighbors(v).len() as u64).collect();
    let expected: Vec<u64> = degrees.iter().enumerate().map(|(i, d)| d * 10 + i as u64).collect();
    assert_eq!(st.current(), &expected);
}
