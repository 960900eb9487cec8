use weldwm::ledger::{AcquiredSources, RetirementUnderflow};

#[test]
fn shared_source_stays_acquired_until_its_final_use_retires() {
    let source = 1;
    let mut acquired = AcquiredSources::default();
    acquired.retain(source);
    acquired.retain(source);

    let first_retirement = acquired.plan_retirements(&vec![source]).unwrap();
    assert!(first_retirement.releases.is_empty());
    acquired.commit_retirements(&first_retirement);
    assert!(acquired.contains(source));

    let final_retirement = acquired.plan_retirements(&vec![source]).unwrap();
    assert_eq!(final_retirement.releases, [source]);
    acquired.commit_retirements(&final_retirement);
    assert!(!acquired.contains(source));
}

#[test]
fn one_retirement_batch_releases_a_shared_source_once() {
    let source = 1;
    let mut acquired = AcquiredSources::default();
    acquired.retain(source);
    acquired.retain(source);

    let retirement = acquired.plan_retirements(&vec![source, source]).unwrap();
    assert_eq!(retirement.releases, [source]);
    acquired.commit_retirements(&retirement);
    assert!(!acquired.contains(source));
}

#[test]
fn retirement_underflow_is_rejected_without_mutating_the_ledger() {
    let source = 1;
    let mut acquired = AcquiredSources::default();
    acquired.retain(source);

    assert!(acquired.plan_retirements(&vec![source, source]).is_err());
    assert!(acquired.contains(source));
}

#[test]
fn underflow_reports_both_counts() {
    let mut acquired = AcquiredSources::default();
    acquired.retain(4);
    assert_eq!(
        acquired.plan_retirements(&vec![4, 4]).err(),
        Some(RetirementUnderflow { retiring: 2, acquired: 1 })
    );
    assert_eq!(
        acquired.plan_retirements(&vec![9]).err(),
        Some(RetirementUnderflow { retiring: 1, acquired: 0 })
    );
}

#[test]
fn ledgers_list_and_forget_their_buffers() {
    let mut acquired = AcquiredSources::default();
    acquired.retain(7);
    acquired.retain(3);
    acquired.retain(7);
    let mut images = acquired.images();
    images.sort_unstable();
    assert_eq!(images, [3, 7]);
    acquired.clear();
    assert!(acquired.images().is_empty());
    assert!(!acquired.contains(7));
}
