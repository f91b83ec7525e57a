use task_executor::utils::{race, select2, select3, select4, Sel2, Sel3, Sel4};

#[test]
fn test_select() {
    let task_1 = ();
    let task_2 = ();

    let ret = match select2(Some(task_1), Some(task_2)).expect("one contender is ready") {
        Sel2::A(ret_1) => (1, ret_1),
        Sel2::B(ret_2) => (2, ret_2),
    };
    assert_eq!(ret, (1, ()));

    let ret = match select2(None::<()>, Some(task_2)).expect("one contender is ready") {
        Sel2::A(ret_1) => (1, ret_1),
        Sel2::B(ret_2) => (2, ret_2),
    };
    assert_eq!(ret, (2, ()));
}

#[test]
fn race_takes_first_ready() {
    let r = race(vec![None, Some(5u32), Some(7u32)]).poll();
    assert_eq!(r, Some(5));
}

#[test]
fn race_with_no_ready_contender_is_pending() {
    let r = race(vec![None::<u32>, None, None]).poll();
    assert_eq!(r, None);
    let r = race(Vec::<Option<u32>>::new()).poll();
    assert_eq!(r, None);
}

#[test]
fn race_first_contender_wins_ties() {
    let r = race(vec![Some(1u8), Some(2u8)]).poll();
    assert_eq!(r, Some(1));
}

#[test]
fn select3_orders_contenders() {
    assert!(matches!(select3(Some(1u8), Some(2u16), Some(3u32)), Some(Sel3::A(1))));
    assert!(matches!(select3(None::<u8>, Some(2u16), Some(3u32)), Some(Sel3::B(2))));
    assert!(matches!(select3(None::<u8>, None::<u16>, Some(3u32)), Some(Sel3::C(3))));
    assert!(select3(None::<u8>, None::<u16>, None::<u32>).is_none());
}

#[test]
fn select4_orders_contenders() {
    assert!(matches!(
        select4(Some(1u8), Some(2u16), Some(3u32), Some(4u64)),
        Some(Sel4::A(1))
    ));
    assert!(matches!(
        select4(None::<u8>, None::<u16>, Some(3u32), Some(4u64)),
        Some(Sel4::C(3))
    ));
    assert!(matches!(
        select4(None::<u8>, None::<u16>, None::<u32>, Some(4u64)),
        Some(Sel4::D(4))
    ));
    assert!(select4(None::<u8>, None::<u16>, None::<u32>, None::<u64>).is_none());
}
