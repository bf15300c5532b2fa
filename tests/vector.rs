use data_sink::vector::Vec2D;

#[test]
fn integer_addition() {
    let a = Vec2D { x: 1, y: 2 };
    let b = Vec2D { x: 3, y: 4 };
    let res = a + b;
    assert_eq!(res.x, a.x + b.x);
    assert_eq!(res.y, a.y + b.y);
}

#[test]
fn addition_of_negative_components() {
    let res = Vec2D { x: -5, y: 7 } + Vec2D { x: 2, y: -9 };
    assert_eq!(res, Vec2D { x: -3, y: -2 });
}
