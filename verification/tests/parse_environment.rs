use loaf_lang::lang::parse::blocks::environment::EnvironmentBlock;

#[test]
fn grid_1d_no_dim() {
    let env: Result<EnvironmentBlock, _> = EnvironmentBlock::parse("environment := 1D");
    assert!(env.is_ok()); // Converted successfully
    assert_eq!(env.unwrap(), EnvironmentBlock::Grid1D {x: None});
}

#[test]
fn grid_1d_with_explicit_dim() {
    let env: Result<EnvironmentBlock, _> = EnvironmentBlock::parse("environment := 1D::(x = 1)");
    assert!(env.is_ok()); // Converted successfully
    assert_eq!(env.unwrap(), EnvironmentBlock::Grid1D {x: Some(1)});
}

#[test]
fn grid_1d_with_all_dim() {
    let env: Result<EnvironmentBlock, _> = EnvironmentBlock::parse("environment := 1D::(* = 1)");
    assert!(env.is_ok()); // Converted successfully
    assert_eq!(env.unwrap(), EnvironmentBlock::Grid1D {x: Some(1)});
}

#[test]
fn grid_2d_no_dim() {
    let env: Result<EnvironmentBlock, _> = EnvironmentBlock::parse("environment := 2D");
    assert!(env.is_ok()); // Converted successfully
    assert_eq!(env.unwrap(), EnvironmentBlock::Grid2D {x: None, y: None});
}

#[test]
fn grid_2d_with_explicit_dims() {
    let env: Result<EnvironmentBlock, _> = EnvironmentBlock::parse("environment := 2D::(x = 1, y = 2)");
    assert!(env.is_ok()); // Converted successfully
    assert_eq!(env.unwrap(), EnvironmentBlock::Grid2D {x: Some(1), y: Some(2)});
}

#[test]
fn grid_2d_with_all_dims() {
    let env: Result<EnvironmentBlock, _> = EnvironmentBlock::parse("environment := 2D::(* = 1)");
    assert!(env.is_ok()); // Converted successfully
    assert_eq!(env.unwrap(), EnvironmentBlock::Grid2D {x: Some(1), y: Some(1)});
}

#[test]
fn grid_3d_no_dim() {
    let env: Result<EnvironmentBlock, _> = EnvironmentBlock::parse("environment := 3D");
    assert!(env.is_ok()); // Converted successfully
    assert_eq!(env.unwrap(), EnvironmentBlock::Grid3D {x: None, y: None, z: None});
}

#[test]
fn grid_3d_with_explicit_dims() {
    let env: Result<EnvironmentBlock, _> = EnvironmentBlock::parse("environment := 3D::(x = 1, y = 2, z = 3)");
    assert!(env.is_ok()); // Converted successfully
    assert_eq!(env.unwrap(), EnvironmentBlock::Grid3D {x: Some(1), y: Some(2), z: Some(3)});
}

#[test]
fn grid_3d_with_all_dims() {
    let env: Result<EnvironmentBlock, _> = EnvironmentBlock::parse("environment := 3D::(* = 1)");
    assert!(env.is_ok()); // Converted successfully
    assert_eq!(env.unwrap(), EnvironmentBlock::Grid3D {x: Some(1), y: Some(1), z: Some(1)});
}
