use sugar::full_result::FullResult;

type R = FullResult<i32, &'static str, u8>;

#[test]
fn kinds_of_result() {
    let ok: R = FullResult::Okay(3);
    let soft: R = FullResult::SoftErr("soft");
    let hard: R = FullResult::HardErr(7);
    assert!(ok.is_ok() && !ok.is_soft_err() && !ok.is_hard_err());
    assert!(soft.is_soft_err() && !soft.is_ok());
    assert!(hard.is_hard_err() && !hard.is_ok());
}

#[test]
fn taking_the_parts() {
    let ok: R = FullResult::Okay(3);
    assert_eq!(ok.ok(), Some(3));
    let soft: R = FullResult::SoftErr("soft");
    assert_eq!(soft.soft_err(), Some("soft"));
    let hard: R = FullResult::HardErr(7);
    assert_eq!(hard.hard_err(), Some(7));
    let hard: R = FullResult::HardErr(7);
    assert_eq!(hard.ok(), None);
}

#[test]
fn unwrapping() {
    let ok: R = FullResult::Okay(3);
    assert_eq!(ok.unwrap(), 3);
    let soft: R = FullResult::SoftErr("soft");
    assert_eq!(soft.unwrap_or(9), 9);
    let hard: R = FullResult::HardErr(7);
    assert_eq!(hard.unwrap_hard_err(), 7);
    let soft: R = FullResult::SoftErr("soft");
    assert_eq!(soft.unwrap_or_default(), 0);
}

#[test]
fn as_deref_looks_through_the_value() {
    let r: FullResult<String, u8, u8> = FullResult::Okay("hi".to_string());
    assert!(matches!(r.as_deref(), FullResult::Okay("hi")));
    let e: FullResult<String, u8, u8> = FullResult::SoftErr(3);
    assert!(matches!(e.as_deref(), FullResult::SoftErr(&3)));
}

#[test]
fn as_deref_mut_writes_through_the_value() {
    let mut r: FullResult<Box<i32>, u8, u8> = FullResult::Okay(Box::new(1));
    if let FullResult::Okay(v) = r.as_deref_mut() {
        *v = 5;
    }
    assert!(matches!(r, FullResult::Okay(ref b) if **b == 5));
    let mut e: FullResult<Box<i32>, u8, u8> = FullResult::HardErr(2);
    if let FullResult::HardErr(x) = e.as_deref_mut() {
        *x = 7;
    }
    assert!(matches!(e, FullResult::HardErr(7)));
}

#[test]
fn two_maps_are_one_map_with_the_composed_function() {
    let x: FullResult<i32, String, String> = FullResult::Okay(4);
    let y: FullResult<i32, String, String> = FullResult::Okay(4);
    let twice = x.map(|v| v + 1).map(|v| v * 3);
    let once = y.map(|v| (v + 1) * 3);
    assert!(matches!((twice, once), (FullResult::Okay(15), FullResult::Okay(15))));
    let e: FullResult<i32, String, String> = FullResult::SoftErr("no".to_string());
    assert!(matches!(e.map(|v| v + 1).map(|v| v * 3), FullResult::SoftErr(s) if s == "no"));
}

#[test]
fn and_then_chains_associate() {
    let f = |v: i32| -> FullResult<i32, String, String> {
        if v > 0 { FullResult::Okay(v - 1) } else { FullResult::HardErr("negative".to_string()) }
    };
    let g = |v: i32| -> FullResult<i32, String, String> {
        if v % 2 == 0 { FullResult::Okay(v / 2) } else { FullResult::SoftErr("odd".to_string()) }
    };
    for start in [5, 4, 0] {
        let x: FullResult<i32, String, String> = FullResult::Okay(start);
        let y: FullResult<i32, String, String> = FullResult::Okay(start);
        let left = x.and_then(f).and_then(g);
        let right = y.and_then(|v| f(v).and_then(g));
        match (left, right) {
            (FullResult::Okay(a), FullResult::Okay(b)) => assert_eq!(a, b),
            (FullResult::SoftErr(a), FullResult::SoftErr(b)) => assert_eq!(a, b),
            (FullResult::HardErr(a), FullResult::HardErr(b)) => assert_eq!(a, b),
            _ => panic!("the two chains differ for {start}"),
        }
    }
    let one: FullResult<i32, String, String> = FullResult::Okay(7);
    assert!(matches!(one.and_then(FullResult::Okay), FullResult::Okay(7)));
}
