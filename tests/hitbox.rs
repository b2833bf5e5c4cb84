use bsm::hitbox::HitBox;

#[test]
fn test_hitbox() {
    {
        let a = HitBox::new(0, 0, 100, 100);
        let b = HitBox::new(100, 100, 100, 100);

        assert!(HitBox::is_hit(&a, &b));
        assert!(HitBox::is_hit(&b, &a));
    }

    {
        let a = HitBox::new(0, 100, 100, 100);
        let b = HitBox::new(100, 100, 100, 100);

        assert!(HitBox::is_hit(&a, &b));
        assert!(HitBox::is_hit(&b, &a));
    }

    {
        let a = HitBox::new(100, 0, 100, 100);
        let b = HitBox::new(100, 100, 100, 100);

        assert!(HitBox::is_hit(&a, &b));
        assert!(HitBox::is_hit(&b, &a));
    }

    {
        let a = HitBox::new(100, 100, 100, 100);
        let b = HitBox::new(100, 100, 100, 100);

        assert!(HitBox::is_hit(&a, &b));
        assert!(HitBox::is_hit(&b, &a));
    }
}

#[test]
fn test_hitbox_no_collision() {
    {
        let a = HitBox::new(-1, -1, 100, 100);
        let b = HitBox::new(100, 100, 100, 100);

        assert!(!HitBox::is_hit(&a, &b));
        assert!(!HitBox::is_hit(&b, &a));
    }

    {
        let a = HitBox::new(-1, 100, 100, 100);
        let b = HitBox::new(100, 100, 100, 100);

        assert!(!HitBox::is_hit(&a, &b));
        assert!(!HitBox::is_hit(&b, &a));
    }

    {
        let a = HitBox::new(100, -1, 100, 100);
        let b = HitBox::new(100, 100, 100, 100);

        assert!(!HitBox::is_hit(&a, &b));
        assert!(!HitBox::is_hit(&b, &a));
    }
}

#[test]
fn bottom_right_corner() {
    let a = HitBox::new(-5, 7, 10, 20);
    assert_eq!(a.get_rb(), (5, 27));
}

#[test]
fn contained_box_collides() {
    let outer = HitBox::new(0, 0, 100, 100);
    let inner = HitBox::new(10, 10, 5, 5);
    assert!(HitBox::is_hit(&outer, &inner));
    assert!(HitBox::is_hit(&inner, &outer));
}

#[test]
fn distant_boxes_do_not_collide() {
    let a = HitBox::new(0, 0, 10, 10);
    let b = HitBox::new(0, 11, 10, 10);
    assert!(!HitBox::is_hit(&a, &b));
    assert!(!HitBox::is_hit(&b, &a));
}
