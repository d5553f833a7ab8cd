use loaf_lang::lang::parse::blocks::boundary::BoundaryBlock;

#[test]
fn void_boundary() {
    let bb: Result<BoundaryBlock, _> = BoundaryBlock::parse("boundary := void");
    assert!(bb.is_ok()); // Converted successfully
    let bb = bb.unwrap();
    assert_eq!(bb, BoundaryBlock::Void);
}

#[test]
fn wrap_boundary() {
    let bb: Result<BoundaryBlock, _> = BoundaryBlock::parse("boundary := wrap");
    assert!(bb.is_ok()); // Converted successfully
    let bb = bb.unwrap();
    assert_eq!(bb, BoundaryBlock::Wrap);
}

#[test]
fn infinite_boundary() {
    let bb: Result<BoundaryBlock, _> = BoundaryBlock::parse("boundary := infinite");
    assert!(bb.is_ok()); // Converted successfully
    let bb = bb.unwrap();
    assert_eq!(bb, BoundaryBlock::Infinite);
}

#[test]
fn static_default_boundary() {
    let bb: Result<BoundaryBlock, _> = BoundaryBlock::parse("boundary := static");
    assert!(bb.is_ok()); // Converted successfully
    let bb = bb.unwrap();
    assert_eq!(bb, BoundaryBlock::Static(None));
}

#[test]
fn static_boundary_with_state() {
    let bb: Result<BoundaryBlock, _> = BoundaryBlock::parse("boundary := static::(StateName)");
    assert!(bb.is_ok()); // Converted successfully
    let bb = bb.unwrap();
    assert_eq!(bb, BoundaryBlock::Static(Some("StateName".into())));
}
