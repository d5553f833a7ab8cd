use loaf_lang::datatypes::coords::Coordinate1D;
use loaf_lang::runtime::environment::naive::FixedGrid;
use loaf_lang::runtime::environment::Environment;

#[test]
fn set_state_inserts_into_next_tick() {
    let coord = Coordinate1D::new(0);
    let mut env = FixedGrid::<Coordinate1D, Vec<Coordinate1D>>::new(vec![].into_boxed_slice(), vec![coord]);
    env.set_state(coord, 1);
    assert_eq!(env.get_state(coord), Some(0));
    assert_eq!(env.get_staged(coord), Some(1));
}

#[test]
fn get_state_retrieves_from_current_tick() {
    let coord = Coordinate1D::new(0);
    let mut env = FixedGrid::<Coordinate1D, Vec<Coordinate1D>>::from_hashmap(
        vec![].into_boxed_slice(),
        vec![(coord, 0)],
        vec![coord],
    );
    env.set_state(coord, 1);
    assert_eq!(env.get_state(coord), Some(0));
}

#[test]
fn tick_propogates_changes() {
    let coord1 = Coordinate1D::new(0);
    let coord2 = Coordinate1D::new(1);
    let mut env = FixedGrid::<Coordinate1D, Vec<Coordinate1D>>::from_hashmap(
        vec![].into_boxed_slice(),
        vec![(coord1, 0), (coord2, 0)],
        vec![coord1, coord2],
    );
    env.set_state(coord2, 2);
    env.tick();
    assert_eq!(env.get_state(coord2), Some(2));
}

#[test]
fn tick_preserves_unchanged_coords() {
    let coord1 = Coordinate1D::new(0);
    let coord2 = Coordinate1D::new(1);
    let mut env = FixedGrid::<Coordinate1D, Vec<Coordinate1D>>::from_hashmap(
        vec![].into_boxed_slice(),
        vec![(coord1, 0), (coord2, 0)],
        vec![coord1, coord2],
    );
    env.set_state(coord2, 2);
    env.tick();
    assert_eq!(env.get_state(coord1), Some(0));
}

#[test]
fn setting_state_does_not_change_neighborhood() {
    let coord1 = Coordinate1D::new(0);
    let coord2 = Coordinate1D::new(1);
    let neighborhood = vec![coord2];
    let mut env = FixedGrid::<Coordinate1D, Vec<Coordinate1D>>::new(
        neighborhood.into_boxed_slice(),
        vec![coord1, coord2],
    );
    let a = env.get_neighborhood(coord1);
    env.set_state(coord2, 2);
    let b = env.get_neighborhood(coord1);
    assert_eq!(a, b);
}

#[test]
fn get_neighborhood_retrieves_adjacent_cells() {
    let coord1 = Coordinate1D::new(0);
    let coord2 = Coordinate1D::new(1);
    let coord3 = Coordinate1D::new(-1);
    let neighborhood = vec![coord2, coord3];
    let env = FixedGrid::<Coordinate1D, Vec<Coordinate1D>>::from_hashmap(
        neighborhood.into_boxed_slice(),
        vec![(coord2, 1), (coord3, 2)],
        vec![coord1, coord2],
    );
    assert_eq!(env.get_neighborhood(coord1), Some(vec!(1, 2)))
}

#[test]
fn get_neighborhood_works_on_edges() {
    let coord1 = Coordinate1D::new(0);
    let coord2 = Coordinate1D::new(1);
    let coord3 = Coordinate1D::new(-1);
    let neighborhood = vec![coord2, coord3];
    let env = FixedGrid::<Coordinate1D, Vec<Coordinate1D>>::from_hashmap(
        neighborhood.into_boxed_slice(),
        vec![(coord2, 1), (coord3, 2)],
        vec![coord1, coord2],
    );
    assert_eq!(env.get_neighborhood(coord3), Some(vec!(0)))
}
