use std::collections::HashSet;

use loaf_lang::lang::parse::blocks::neighborhood::{Dimension, NeighborhoodRule};
use loaf_lang::lang::runtime::datatypes::coords::Coordinate;
use loaf_lang::lang::runtime::datatypes::coords::Coordinate::{
    Coordinate1D, Coordinate2D, Coordinate3D,
};
use loaf_lang::lang::runtime::ops::neighborhood::Neighborhood;

const POINT_1D: Coordinate = Coordinate1D { x: 10 };
const POINT_2D: Coordinate = Coordinate2D { x: 10, y: 20 };
const POINT_3D: Coordinate = Coordinate3D { x: 10, y: 20, z: 30 };

/// Compares neighbours without regard to their order.
fn as_set(v: Vec<Coordinate>) -> HashSet<Coordinate> {
    let mut h = HashSet::new();
    for i in v {
        h.insert(i);
    }
    h
}

#[test]
fn neighborhood_directed_edge_positive_1d_x() {
    let neighborhood = Neighborhood::new(vec!(
        NeighborhoodRule::DirectedEdge { dimension: Dimension::X, magnitude: 1}
    ));
    assert_eq!(
        neighborhood.neighbors(POINT_1D).collect(),
        vec!(Coordinate1D {x: 11})
    )
    }

#[test]
fn neighborhood_directed_edge_negative_1d_x() {
    let neighborhood = Neighborhood::new(vec!(
        NeighborhoodRule::DirectedEdge { dimension: Dimension::X, magnitude: -1}
    ));
    assert_eq!(
        neighborhood.neighbors(POINT_1D).collect(),
        vec!(Coordinate1D {x: 9})
    )
    }

#[test]
fn neighborhood_undirected_edge_1d_x() {
    let neighborhood = Neighborhood::new(vec!(
        NeighborhoodRule::UndirectedEdge { dimension: Dimension::X, magnitude: 1}
    ));
    assert_eq!(
        as_set(neighborhood.neighbors(POINT_1D).collect()),
        as_set(vec!(
            Coordinate1D {x: 9},
            Coordinate1D {x: 11}
        ))
    );
    }

#[test]
fn neighborhood_directed_edge_positive_1d_all() {
    let neighborhood = Neighborhood::new(vec!(
        NeighborhoodRule::DirectedEdge { dimension: Dimension::All, magnitude: 1}
    ));
    assert_eq!(
        neighborhood.neighbors(POINT_1D).collect(),
        vec!(Coordinate1D {x: 11})
    )
    }

#[test]
fn neighborhood_directed_edge_negative_1d_all() {
    let neighborhood = Neighborhood::new(vec!(
        NeighborhoodRule::DirectedEdge { dimension: Dimension::All, magnitude: -1}
    ));
    assert_eq!(
        neighborhood.neighbors(POINT_1D).collect(),
        vec!(Coordinate1D {x: 9})
    )
    }

#[test]
fn neighborhood_undirected_edge_1d_all() {
    let neighborhood = Neighborhood::new(vec!(
        NeighborhoodRule::UndirectedEdge { dimension: Dimension::All, magnitude: 1}
    ));
    assert_eq!(
        as_set(neighborhood.neighbors(POINT_1D).collect()),
        as_set(vec!(
            Coordinate1D {x: 9},
            Coordinate1D {x: 11}
        ))
    )
    }

#[test]
fn neighborhood_directed_edge_positive_2d_x() {
    let neighborhood = Neighborhood::new(vec!(
        NeighborhoodRule::DirectedEdge { dimension: Dimension::X, magnitude: 1}
    ));
    assert_eq!(
        neighborhood.neighbors(POINT_2D).collect(),
        vec!(Coordinate2D {x: 11, y: 20})
    )
    }

#[test]
fn neighborhood_directed_edge_negative_2d_x() {
    let neighborhood = Neighborhood::new(vec!(
        NeighborhoodRule::DirectedEdge { dimension: Dimension::X, magnitude: -1}
    ));
    assert_eq!(
        neighborhood.neighbors(POINT_2D).collect(),
        vec!(Coordinate2D {x: 9, y: 20})
    )
    }

#[test]
fn neighborhood_undirected_edge_2d_x() {
    let neighborhood = Neighborhood::new(vec!(
        NeighborhoodRule::UndirectedEdge { dimension: Dimension::X, magnitude: 1}
    ));
    assert_eq!(
        as_set(neighborhood.neighbors(POINT_2D).collect()),
        as_set(vec!(
            Coordinate2D { x: 9, y: 20 },
            Coordinate2D { x: 11, y: 20 })
        )
    );
    }

#[test]
fn neighborhood_directed_edge_positive_2d_y() {
    let neighborhood = Neighborhood::new(vec!(
        NeighborhoodRule::DirectedEdge { dimension: Dimension::Y, magnitude: 1}
    ));
    assert_eq!(
        neighborhood.neighbors(POINT_2D).collect(),
        vec!(Coordinate2D {x: 10, y: 21})
    )
    }

#[test]
fn neighborhood_directed_edge_negative_2d_y() {
    let neighborhood = Neighborhood::new(vec!(
        NeighborhoodRule::DirectedEdge { dimension: Dimension::Y, magnitude: -1}
    ));
    assert_eq!(
        neighborhood.neighbors(POINT_2D).collect(),
        vec!(Coordinate2D {x: 10, y: 19})
    )
    }

#[test]
fn neighborhood_undirected_edge_2d_y() {
    let neighborhood = Neighborhood::new(vec!(
        NeighborhoodRule::UndirectedEdge { dimension: Dimension::Y, magnitude: 1}
    ));
    assert_eq!(
        as_set(neighborhood.neighbors(POINT_2D).collect()),
        as_set(vec!(
            Coordinate2D { x: 10, y: 19 },
            Coordinate2D { x: 10, y: 21 },
        ))
    );
    }

#[test]
fn neighborhood_directed_edge_positive_2d_all() {
    let neighborhood = Neighborhood::new(vec!(
        NeighborhoodRule::DirectedEdge { dimension: Dimension::All, magnitude: 1}
    ));
    assert_eq!(
        as_set(neighborhood.neighbors(POINT_2D).collect()),
        as_set(vec!(
            Coordinate2D { x: 11, y: 20 },
            Coordinate2D { x: 10, y: 21 }
        ))
    )
    }

#[test]
fn neighborhood_directed_edge_negative_2d_all() {
    let neighborhood = Neighborhood::new(vec!(
        NeighborhoodRule::DirectedEdge { dimension: Dimension::All, magnitude: -1}
    ));
    assert_eq!(
        as_set(neighborhood.neighbors(POINT_2D).collect()),
        as_set(vec!(
            Coordinate2D { x: 9, y: 20 },
            Coordinate2D { x: 10, y: 19 }
        ))
    )
    }

#[test]
fn neighborhood_undirected_edge_2d_all() {
    let neighborhood = Neighborhood::new(vec!(
        NeighborhoodRule::UndirectedEdge { dimension: Dimension::All, magnitude: 1}
    ));
    assert_eq!(
        as_set(neighborhood.neighbors(POINT_2D).collect()),
        as_set(vec!(
            Coordinate2D { x: 9, y: 20 },
            Coordinate2D { x: 11, y: 20 },
            Coordinate2D { x: 10, y: 19 },
            Coordinate2D { x: 10, y: 21 },
        ))
    );
    }

#[test]
fn neighborhood_directed_edge_positive_3d_x() {
    let neighborhood = Neighborhood::new(vec!(
        NeighborhoodRule::DirectedEdge { dimension: Dimension::X, magnitude: 1}
    ));
    assert_eq!(
        neighborhood.neighbors(POINT_3D).collect(),
        vec!(Coordinate3D {x: 11, y: 20, z: 30})
    )
    }

#[test]
fn neighborhood_directed_edge_negative_3d_x() {
    let neighborhood = Neighborhood::new(vec!(
        NeighborhoodRule::DirectedEdge { dimension: Dimension::X, magnitude: -1}
    ));
    assert_eq!(
        neighborhood.neighbors(POINT_3D).collect(),
        vec!(Coordinate3D {x: 9, y: 20, z: 30})
    )
    }

#[test]
fn neighborhood_undirected_edge_3d_x() {
    let neighborhood = Neighborhood::new(vec!(
        NeighborhoodRule::UndirectedEdge { dimension: Dimension::X, magnitude: 1}
    ));
    assert_eq!(
        as_set(neighborhood.neighbors(POINT_3D).collect()),
        as_set(vec!(
            Coordinate3D { x: 9, y: 20, z: 30 },
            Coordinate3D { x: 11, y: 20, z: 30 })
        )
    );
    }

#[test]
fn neighborhood_directed_edge_positive_3d_y() {
    let neighborhood = Neighborhood::new(vec!(
        NeighborhoodRule::DirectedEdge { dimension: Dimension::Y, magnitude: 1}
    ));
    assert_eq!(
        neighborhood.neighbors(POINT_3D).collect(),
        vec!(Coordinate3D {x: 10, y: 21, z: 30})
    )
    }

#[test]
fn neighborhood_directed_edge_negative_3d_y() {
    let neighborhood = Neighborhood::new(vec!(
        NeighborhoodRule::DirectedEdge { dimension: Dimension::Y, magnitude: -1}
    ));
    assert_eq!(
        neighborhood.neighbors(POINT_3D).collect(),
        vec!(Coordinate3D {x: 10, y: 19, z: 30})
    )
    }

#[test]
fn neighborhood_undirected_edge_3d_y() {
    let neighborhood = Neighborhood::new(vec!(
        NeighborhoodRule::UndirectedEdge { dimension: Dimension::Y, magnitude: 1}
    ));
    assert_eq!(
        as_set(neighborhood.neighbors(POINT_3D).collect()),
        as_set(vec!(
            Coordinate3D { x: 10, y: 19, z: 30 },
            Coordinate3D { x: 10, y: 21, z: 30 },
        ))
    );
    }

#[test]
fn neighborhood_directed_edge_positive_3d_z() {
    let neighborhood = Neighborhood::new(vec!(
        NeighborhoodRule::DirectedEdge { dimension: Dimension::Z, magnitude: 1}
    ));
    assert_eq!(
        neighborhood.neighbors(POINT_3D).collect(),
        vec!(Coordinate3D {x: 10, y: 20, z: 31})
    )
    }

#[test]
fn neighborhood_directed_edge_negative_3d_z() {
    let neighborhood = Neighborhood::new(vec!(
        NeighborhoodRule::DirectedEdge { dimension: Dimension::Z, magnitude: -1}
    ));
    assert_eq!(
        neighborhood.neighbors(POINT_3D).collect(),
        vec!(Coordinate3D {x: 10, y: 20, z: 29})
    )
    }

#[test]
fn neighborhood_undirected_edge_3d_z() {
    let neighborhood = Neighborhood::new(vec!(
        NeighborhoodRule::UndirectedEdge { dimension: Dimension::Z, magnitude: 1}
    ));
    assert_eq!(
        as_set(neighborhood.neighbors(POINT_3D).collect()),
        as_set(vec!(
            Coordinate3D { x: 10, y: 20, z: 29 },
            Coordinate3D { x: 10, y: 20, z: 31 },
        ))
    );
    }

#[test]
fn neighborhood_directed_edge_positive_3d_all() {
    let neighborhood = Neighborhood::new(vec!(
        NeighborhoodRule::DirectedEdge { dimension: Dimension::All, magnitude: 1}
    ));
    assert_eq!(
        as_set(neighborhood.neighbors(POINT_3D).collect()),
        as_set(vec!(
            Coordinate3D { x: 11, y: 20, z: 30 },
            Coordinate3D { x: 10, y: 21, z: 30 },
            Coordinate3D { x: 10, y: 20, z: 31 }
        ))
    )
    }

#[test]
fn neighborhood_directed_edge_negative_3d_all() {
    let neighborhood = Neighborhood::new(vec!(
        NeighborhoodRule::DirectedEdge { dimension: Dimension::All, magnitude: -1}
    ));
    assert_eq!(
        as_set(neighborhood.neighbors(POINT_3D).collect()),
        as_set(vec!(
            Coordinate3D { x: 9, y: 20, z: 30 },
            Coordinate3D { x: 10, y: 19, z: 30 },
            Coordinate3D { x: 10, y: 20, z: 29 }
        ))
    )
    }

#[test]
fn neighborhood_undirected_edge_3d_all() {
    let neighborhood = Neighborhood::new(vec!(
        NeighborhoodRule::UndirectedEdge { dimension: Dimension::All, magnitude: 1}
    ));
    assert_eq!(
        as_set(neighborhood.neighbors(POINT_3D).collect()),
        as_set(vec!(
            Coordinate3D { x: 9, y: 20, z: 30 },
            Coordinate3D { x: 11, y: 20, z: 30 },
            Coordinate3D { x: 10, y: 21, z: 30 },
            Coordinate3D { x: 10, y: 19, z: 30 },
            Coordinate3D { x: 10, y: 20, z: 29 },
            Coordinate3D { x: 10, y: 20, z: 31 }
        ))
    );
    }
