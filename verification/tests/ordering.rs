use pagepal::num::Num;

#[test]
fn absent_sub_number_sorts_before_present() {
    assert!(Num(3, None) < Num(3, Some(5)));
    assert!(Num(3, Some(5)) < Num(4, None));
    assert!(Num(3, None) < Num(4, None));
    assert!(Num(3, None).before(&Num(3, Some(5))));
    assert!(Num(3, Some(5)).before(&Num(4, None)));
    assert!(!Num(3, Some(5)).before(&Num(3, None)));
}

#[test]
fn absent_sub_number_sorts_before_zero() {
    assert!(Num(7, None).before(&Num(7, Some(0))));
    assert!(Num(7, Some(0)).before(&Num(7, Some(1))));
    assert!(Num(7, Some(255)).before(&Num(8, None)));
}

#[test]
fn no_key_comes_before_itself() {
    assert!(!Num(3, None).before(&Num(3, None)));
    assert!(!Num(3, Some(5)).before(&Num(3, Some(5))));
    assert_eq!(Num(3, Some(5)), Num(3, Some(5)));
    assert_ne!(Num(3, Some(5)), Num(3, None));
}

#[test]
fn chapter_decides_before_sub_number() {
    assert!(Num(2, Some(200)).before(&Num(3, Some(1))));
    assert!(!Num(3, Some(1)).before(&Num(2, Some(200))));
    assert!(Num(0, None).before(&Num(u16::MAX, None)));
}

#[test]
fn comparison_agrees_with_sorting() {
    let mut keys = vec![Num(4, None), Num(3, Some(5)), Num(3, None), Num(3, Some(1)), Num(0, Some(9))];
    keys.sort();
    assert_eq!(
        keys,
        vec![Num(0, Some(9)), Num(3, None), Num(3, Some(1)), Num(3, Some(5)), Num(4, None)]
    );
    for pair in keys.windows(2) {
        assert!(pair[0].before(&pair[1]));
        assert_eq!(pair[0].partial_cmp(&pair[1]), Some(std::cmp::Ordering::Less));
        assert_eq!(pair[1].partial_cmp(&pair[0]), Some(std::cmp::Ordering::Greater));
    }
    assert_eq!(Num(3, None).partial_cmp(&Num(3, None)), Some(std::cmp::Ordering::Equal));
}

#[test]
fn whole_chapter_has_no_sub_number() {
    assert_eq!(Num::whole(12), Num(12, None));
}

#[test]
fn fraction_gives_sub_number_unless_zero() {
    assert_eq!(Num::from_fraction(3, 0), Num(3, None));
    assert_eq!(Num::from_fraction(3, 100), Num(3, Some(100)));
    assert_eq!(Num::from_fraction(0, 1), Num(0, Some(1)));
    assert_eq!(Num::from_fraction(u16::MAX, u8::MAX), Num(u16::MAX, Some(u8::MAX)));
}
