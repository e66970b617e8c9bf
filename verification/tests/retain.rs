use valence::retain::{RetainDecision, RetainFlow};

#[test]
fn test_from() {
    assert!(matches!(RetainDecision::from(true), RetainDecision::Keep));
    assert!(matches!(RetainDecision::from(false), RetainDecision::Remove));
    assert!(matches!(Into::<RetainDecision>::into(true), RetainDecision::Keep));
    assert!(matches!(Into::<RetainDecision>::into(false), RetainDecision::Remove));
}

#[test]
fn test_other() {
    assert!(RetainDecision::Keep.should_keep());
    assert!(RetainDecision::Remove.should_remove());
    assert_ne!(RetainDecision::Keep, RetainDecision::Remove);

    assert!(matches!(RetainDecision::from_output(()), RetainDecision::Keep));
    assert!(matches!(RetainDecision::from_residual(()), RetainDecision::Remove));
}

#[test]
fn test_try() {
    // A retain loop stops at the first `Remove`: the check must have been
    // reached for elements 0 to 5 and never for 6.
    let mut reached_count = 0usize;
    let mut check = |n: i32| -> RetainDecision {
        if n >= 6 {
            panic!("should short circuit after 5");
        }

        reached_count += 1;

        if n < 5 {
            RetainDecision::Keep
        } else {
            RetainDecision::Remove
        }
    };
    let mut exec = || -> RetainDecision {
        let data = vec![0, 1, 2, 3, 4, 5, 6, 7, 8, 9];
        for i in data {
            if let RetainFlow::Break = check(i).branch() {
                return RetainDecision::from_residual(());
            }
        }
        RetainDecision::from_output(())
    };
    assert!(matches!(exec(), RetainDecision::Remove));
    assert_eq!(6, reached_count);
}
