use std::collections::HashSet;

use loaf_lang::lang::parse::blocks::neighborhood::{Dimension, NeighborhoodRule};
use loaf_lang::lang::runtime::datatypes::coords::Coordinate;
use loaf_lang::lang::runtime::datatypes::coords::Coordinate::{
    Coordinate1D, Coordinate2D, Coordinate3D,
};
use loaf_lang::lang::runtime::ops::neighborhood::Neighborhood;

const COORD_1D: Coordinate = Coordinate1D { x: 10 };
const COORD_2D: Coordinate = Coordinate2D { x: 10, y: 20 };
const COORD_3D: Coordinate = Coordinate3D { x: 10, y: 20, z: 30 };

/// Compares neighbours without regard to their order.
fn to_set(v: Vec<Coordinate>) -> HashSet<Coordinate> {
    let mut h = HashSet::new();
    for i in v {
        h.insert(i);
    }
    h
}

#[test]
fn directed_edge_positive_1d_x() {
    let neighborhood = Neighborhood::new(vec!(
        NeighborhoodRule::DirectedEdge { dimension: Dimension::X, magnitude: 1}
    ));
    assert_eq!(
        neighborhood.neighbors(COORD_1D).collect(),
        vec!(Coordinate1D {x: 11})
    )
    }

#[test]
fn directed_edge_negative_1d_x() {
    let neighborhood = Neighborhood::new(vec!(
        NeighborhoodRule::DirectedEdge { dimension: Dimension::X, magnitude: -1}
    ));
    assert_eq!(
        neighborhood.neighbors(COORD_1D).collect(),
        vec!(Coordinate1D {x: 9})
    )
    }

#[test]
fn undirected_edge_1d_x() {
    let neighborhood = Neighborhood::new(vec!(
        NeighborhoodRule::UndirectedEdge { dimension: Dimension::X, magnitude: 1}
    ));
    assert_eq!(
        to_set(neighborhood.neighbors(COORD_1D).collect()),
        to_set(vec!(
            Coordinate1D {x: 9},
            Coordinate1D {x: 11}
        ))
    );
    }

#[test]
fn directed_edge_positive_1d_all() {
    let neighborhood = Neighborhood::new(vec!(
        NeighborhoodRule::DirectedEdge { dimension: Dimension::All, magnitude: 1}
    ));
    assert_eq!(
        neighborhood.neighbors(COORD_1D).collect(),
        vec!(Coordinate1D {x: 11})
    )
    }

#[test]
fn directed_edge_negative_1d_all() {
    let neighborhood = Neighborhood::new(vec!(
        NeighborhoodRule::DirectedEdge { dimension: Dimension::All, magnitude: -1}
    ));
    assert_eq!(
        neighborhood.neighbors(COORD_1D).collect(),
        vec!(Coordinate1D {x: 9})
    )
    }

#[test]
fn undirected_edge_1d_all() {
    let neighborhood = Neighborhood::new(vec!(
        NeighborhoodRule::UndirectedEdge { dimension: Dimension::All, magnitude: 1}
    ));
    assert_eq!(
        to_set(neighborhood.neighbors(COORD_1D).collect()),
        to_set(vec!(
            Coordinate1D {x: 9},
            Coordinate1D {x: 11}
        ))
    )
    }

#[test]
fn directed_edge_positive_2d_x() {
    let neighborhood = Neighborhood::new(vec!(
        NeighborhoodRule::DirectedEdge { dimension: Dimension::X, magnitude: 1}
    ));
    assert_eq!(
        neighborhood.neighbors(COORD_2D).collect(),
        vec!(Coordinate2D {x: 11, y: 20})
    )
    }

#[test]
fn directed_edge_negative_2d_x() {
    let neighborhood = Neighborhood::new(vec!(
        NeighborhoodRule::DirectedEdge { dimension: Dimension::X, magnitude: -1}
    ));
    assert_eq!(
        neighborhood.neighbors(COORD_2D).collect(),
        vec!(Coordinate2D {x: 9, y: 20})
    )
    }

#[test]
fn undirected_edge_2d_x() {
    let neighborhood = Neighborhood::new(vec!(
        NeighborhoodRule::UndirectedEdge { dimension: Dimension::X, magnitude: 1}
    ));
    assert_eq!(
        to_set(neighborhood.neighbors(COORD_2D).collect()),
        to_set(vec!(
            Coordinate2D { x: 9, y: 20 },
            Coordinate2D { x: 11, y: 20 })
        )
    );
    }

#[test]
fn directed_edge_positive_2d_y() {
    let neighborhood = Neighborhood::new(vec!(
        NeighborhoodRule::DirectedEdge { dimension: Dimension::Y, magnitude: 1}
    ));
    assert_eq!(
        neighborhood.neighbors(COORD_2D).collect(),
        vec!(Coordinate2D {x: 10, y: 21})
    )
    }

#[test]
fn directed_edge_negative_2d_y() {
    let neighborhood = Neighborhood::new(vec!(
        NeighborhoodRule::DirectedEdge { dimension: Dimension::Y, magnitude: -1}
    ));
    assert_eq!(
        neighborhood.neighbors(COORD_2D).collect(),
        vec!(Coordinate2D {x: 10, y: 19})
    )
    }

#[test]
fn undirected_edge_2d_y() {
    let neighborhood = Neighborhood::new(vec!(
        NeighborhoodRule::UndirectedEdge { dimension: Dimension::Y, magnitude: 1}
    ));
    assert_eq!(
        to_set(neighborhood.neighbors(COORD_2D).collect()),
        to_set(vec!(
            Coordinate2D { x: 10, y: 19 },
            Coordinate2D { x: 10, y: 21 },
        ))
    );
    }

#[test]
fn directed_edge_positive_2d_all() {
    let neighborhood = Neighborhood::new(vec!(
        NeighborhoodRule::DirectedEdge { dimension: Dimension::All, magnitude: 1}
    ));
    assert_eq!(
        to_set(neighborhood.neighbors(COORD_2D).collect()),
        to_set(vec!(
            Coordinate2D { x: 11, y: 20 },
            Coordinate2D { x: 10, y: 21 }
        ))
    )
    }

#[test]
fn directed_edge_negative_2d_all() {
    let neighborhood = Neighborhood::new(vec!(
        NeighborhoodRule::DirectedEdge { dimension: Dimension::All, magnitude: -1}
    ));
    assert_eq!(
        to_set(neighborhood.neighbors(COORD_2D).collect()),
        to_set(vec!(
            Coordinate2D { x: 9, y: 20 },
            Coordinate2D { x: 10, y: 19 }
        ))
    )
    }

#[test]
fn undirected_edge_2d_all() {
    let neighborhood = Neighborhood::new(vec!(
        NeighborhoodRule::UndirectedEdge { dimension: Dimension::All, magnitude: 1}
    ));
    assert_eq!(
        to_set(neighborhood.neighbors(COORD_2D).collect()),
        to_set(vec!(
            Coordinate2D { x: 9, y: 20 },
            Coordinate2D { x: 11, y: 20 },
            Coordinate2D { x: 10, y: 19 },
            Coordinate2D { x: 10, y: 21 },
        ))
    );
    }

#[test]
fn directed_edge_positive_3d_x() {
    let neighborhood = Neighborhood::new(vec!(
        NeighborhoodRule::DirectedEdge { dimension: Dimension::X, magnitude: 1}
    ));
    assert_eq!(
        neighborhood.neighbors(COORD_3D).collect(),
        vec!(Coordinate3D {x: 11, y: 20, z: 30})
    )
    }

#[test]
fn directed_edge_negative_3d_x() {
    let neighborhood = Neighborhood::new(vec!(
        NeighborhoodRule::DirectedEdge { dimension: Dimension::X, magnitude: -1}
    ));
    assert_eq!(
        neighborhood.neighbors(COORD_3D).collect(),
        vec!(Coordinate3D {x: 9, y: 20, z: 30})
    )
    }

#[test]
fn undirected_edge_3d_x() {
    let neighborhood = Neighborhood::new(vec!(
        NeighborhoodRule::UndirectedEdge { dimension: Dimension::X, magnitude: 1}
    ));
    assert_eq!(
        to_set(neighborhood.neighbors(COORD_3D).collect()),
        to_set(vec!(
            Coordinate3D { x: 9, y: 20, z: 30 },
            Coordinate3D { x: 11, y: 20, z: 30 })
        )
    );
    }

#[test]
fn directed_edge_positive_3d_y() {
    let neighborhood = Neighborhood::new(vec!(
        NeighborhoodRule::DirectedEdge { dimension: Dimension::Y, magnitude: 1}
    ));
    assert_eq!(
        neighborhood.neighbors(COORD_3D).collect(),
        vec!(Coordinate3D {x: 10, y: 21, z: 30})
    )
    }

#[test]
fn directed_edge_negative_3d_y() {
    let neighborhood = Neighborhood::new(vec!(
        NeighborhoodRule::DirectedEdge { dimension: Dimension::Y, magnitude: -1}
    ));
    assert_eq!(
        neighborhood.neighbors(COORD_3D).collect(),
        vec!(Coordinate3D {x: 10, y: 19, z: 30})
    )
    }

#[test]
fn undirected_edge_3d_y() {
    let neighborhood = Neighborhood::new(vec!(
        NeighborhoodRule::UndirectedEdge { dimension: Dimension::Y, magnitude: 1}
    ));
    assert_eq!(
        to_set(neighborhood.neighbors(COORD_3D).collect()),
        to_set(vec!(
            Coordinate3D { x: 10, y: 19, z: 30 },
            Coordinate3D { x: 10, y: 21, z: 30 },
        ))
    );
    }

#[test]
fn directed_edge_positive_3d_z() {
    let neighborhood = Neighborhood::new(vec!(
        NeighborhoodRule::DirectedEdge { dimension: Dimension::Z, magnitude: 1}
    ));
    assert_eq!(
        neighborhood.neighbors(COORD_3D).collect(),
        vec!(Coordinate3D {x: 10, y: 20, z: 31})
    )
    }

#[test]
fn directed_edge_negative_3d_z() {
    let neighborhood = Neighborhood::new(vec!(
        NeighborhoodRule::DirectedEdge { dimension: Dimension::Z, magnitude: -1}
    ));
    assert_eq!(
        neighborhood.neighbors(COORD_3D).collect(),
        vec!(Coordinate3D {x: 10, y: 20, z: 29})
    )
    }

#[test]
fn undirected_edge_3d_z() {
    let neighborhood = Neighborhood::new(vec!(
        NeighborhoodRule::UndirectedEdge { dimension: Dimension::Z, magnitude: 1}
    ));
    assert_eq!(
        to_set(neighborhood.neighbors(COORD_3D).collect()),
        to_set(vec!(
            Coordinate3D { x: 10, y: 20, z: 29 },
            Coordinate3D { x: 10, y: 20, z: 31 },
        ))
    );
    }

#[test]
fn directed_edge_positive_3d_all() {
    let neighborhood = Neighborhood::new(vec!(
        NeighborhoodRule::DirectedEdge { dimension: Dimension::All, magnitude: 1}
    ));
    assert_eq!(
        to_set(neighborhood.neighbors(COORD_3D).collect()),
        to_set(vec!(
            Coordinate3D { x: 11, y: 20, z: 30 },
            Coordinate3D { x: 10, y: 21, z: 30 },
            Coordinate3D { x: 10, y: 20, z: 31 }
        ))
    )
    }

#[test]
fn directed_edge_negative_3d_all() {
    let neighborhood = Neighborhood::new(vec!(
        NeighborhoodRule::DirectedEdge { dimension: Dimension::All, magnitude: -1}
    ));
    assert_eq!(
        to_set(neighborhood.neighbors(COORD_3D).collect()),
        to_set(vec!(
            Coordinate3D { x: 9, y: 20, z: 30 },
            Coordinate3D { x: 10, y: 19, z: 30 },
            Coordinate3D { x: 10, y: 20, z: 29 }
        ))
    )
    }

#[test]
fn undirected_edge_3d_all() {
    let neighborhood = Neighborhood::new(vec!(
        NeighborhoodRule::UndirectedEdge { dimension: Dimension::All, magnitude: 1}
    ));
    assert_eq!(
        to_set(neighborhood.neighbors(COORD_3D).collect()),
        to_set(vec!(
            Coordinate3D { x: 9, y: 20, z: 30 },
            Coordinate3D { x: 11, y: 20, z: 30 },
            Coordinate3D { x: 10, y: 21, z: 30 },
            Coordinate3D { x: 10, y: 19, z: 30 },
            Coordinate3D { x: 10, y: 20, z: 29 },
            Coordinate3D { x: 10, y: 20, z: 31 }
        ))
    );
    }

#[test]
fn compound() {
    let neighborhood = Neighborhood::new(vec!(
        NeighborhoodRule::Compound(vec!(
                NeighborhoodRule::UndirectedEdge { dimension: Dimension::X, magnitude: 1},
                NeighborhoodRule::UndirectedEdge { dimension: Dimension::Y, magnitude: 1},
        )),
        NeighborhoodRule::Compound(vec!(
                NeighborhoodRule::UndirectedEdge { dimension: Dimension::Y, magnitude: 1},
                NeighborhoodRule::UndirectedEdge { dimension: Dimension::X, magnitude: 1},
        ))
    ));
    assert_eq!(
        to_set(neighborhood.neighbors(Coordinate2D { x: 0, y: 0}).collect()),
        to_set(vec!(
            Coordinate2D { x: 1, y: 1 },
            Coordinate2D { x: -1, y: 1 },
            Coordinate2D { x: -1, y: -1 },
            Coordinate2D { x: 1, y: -1 }
        ))
    );
    }
