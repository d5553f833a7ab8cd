use loaf_lang::lang::parse::blocks::neighborhood::{
    Dimension, EdgeDirection, NeighborhoodBlock, NeighborhoodRule,
};

#[test]
fn moore() {
    let nb: Result<NeighborhoodBlock, _> = NeighborhoodBlock::parse("neighborhood := MOORE");
    assert!(nb.is_ok()); // Converted successfully
    assert_eq!(nb.unwrap(), NeighborhoodBlock::Moore)
}

#[test]
fn von_neumann() {
    let nb: Result<NeighborhoodBlock, _> = NeighborhoodBlock::parse("neighborhood := VON_NEUMANN");
    assert!(nb.is_ok()); // Converted successfully
    assert_eq!(nb.unwrap(), NeighborhoodBlock::VonNeumann)
}

#[test]
fn custom_single_dim_directed_pos() {
    let nb: Result<NeighborhoodBlock, _> = NeighborhoodBlock::parse("neighborhood := { x + 1 }");
    assert!(nb.is_ok()); // Converted successfully
    assert_eq!(nb.unwrap(), NeighborhoodBlock::Custom(vec!(
        NeighborhoodRule::directed(Dimension::X, 1, EdgeDirection::Positive).unwrap()
    )))
}

#[test]
fn custom_single_dim_directed_neg() {
    let nb: Result<NeighborhoodBlock, _> = NeighborhoodBlock::parse("neighborhood := { x - 1 }");
    assert!(nb.is_ok()); // Converted successfully
    assert_eq!(nb.unwrap(), NeighborhoodBlock::Custom(vec!(
        NeighborhoodRule::directed(Dimension::X, 1, EdgeDirection::Negative).unwrap()
    )))
}

#[test]
fn custom_all_dims_directed_pos() {
    let nb: Result<NeighborhoodBlock, _> = NeighborhoodBlock::parse("neighborhood := { * + 1 }");
    assert!(nb.is_ok()); // Converted successfully
    assert_eq!(nb.unwrap(), NeighborhoodBlock::Custom(vec!(
        NeighborhoodRule::directed(Dimension::All, 1, EdgeDirection::Positive).unwrap()
    )))
}

#[test]
fn custom_all_dims_directed_neg() {
    let nb: Result<NeighborhoodBlock, _> = NeighborhoodBlock::parse("neighborhood := { * - 1 }");
    assert!(nb.is_ok()); // Converted successfully
    assert_eq!(nb.unwrap(), NeighborhoodBlock::Custom(vec!(
        NeighborhoodRule::directed(Dimension::All, 1, EdgeDirection::Negative).unwrap()
    )))
}

#[test]
fn custom_single_dim_undirected() {
    let nb: Result<NeighborhoodBlock, _> = NeighborhoodBlock::parse("neighborhood := { x +- 1 }");
    assert!(nb.is_ok()); // Converted successfully
    assert_eq!(nb.unwrap(), NeighborhoodBlock::Custom(vec!(
        NeighborhoodRule::UndirectedEdge {
            dimension: Dimension::X,
            magnitude: 1,
        }
    )))
}

#[test]
fn custom_all_dims_undirected() {
    let nb: Result<NeighborhoodBlock, _> = NeighborhoodBlock::parse("neighborhood := { * +- 1 }");
    assert!(nb.is_ok()); // Converted successfully
    assert_eq!(nb.unwrap(), NeighborhoodBlock::Custom(vec!(
        NeighborhoodRule::UndirectedEdge {
            dimension: Dimension::All,
            magnitude: 1,
        }
    )))
}

#[test]
fn custom_single_dim_circle() {
    let nb: Result<NeighborhoodBlock, _> = NeighborhoodBlock::parse("neighborhood := { x within 1 }");
    assert!(nb.is_ok()); // Converted successfully
    assert_eq!(nb.unwrap(), NeighborhoodBlock::Custom(vec!(
        NeighborhoodRule::UndirectedCircle {
            dimension: Dimension::X,
            magnitude: 1,
        }
    )))
}

#[test]
fn custom_all_dims_circle() {
    let nb: Result<NeighborhoodBlock, _> = NeighborhoodBlock::parse("neighborhood := { * within 1 }");
    assert!(nb.is_ok()); // Converted successfully
    assert_eq!(nb.unwrap(), NeighborhoodBlock::Custom(vec!(
        NeighborhoodRule::UndirectedCircle {
            dimension: Dimension::All,
            magnitude: 1,
        }
    )))
}
