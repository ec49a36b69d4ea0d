use lol_scrim_exporter::retry::{
    backoff_seconds, classify, decide, follow, Course, Decision, Outcome, MAX_RETRIES,
};

#[test]
fn five_rate_limited_responses_exhaust_the_retries() {
    let outcomes = vec![Outcome::RateLimited; 5];
    assert_eq!(follow(&outcomes), Course { attempts: 5, delivered: false, waited: 31 });
}

#[test]
fn no_sixth_attempt_is_made() {
    let mut outcomes = vec![Outcome::RateLimited; 5];
    outcomes.push(Outcome::Success);
    let course = follow(&outcomes);
    assert_eq!(course.attempts, 5);
    assert!(!course.delivered);
    let many = vec![Outcome::Failed; 40];
    assert_eq!(follow(&many).attempts, MAX_RETRIES);
}

#[test]
fn first_success_is_delivered() {
    assert_eq!(
        follow(&vec![Outcome::Success]),
        Course { attempts: 1, delivered: true, waited: 0 }
    );
    assert_eq!(
        follow(&vec![Outcome::RateLimited, Outcome::Failed, Outcome::Success, Outcome::Failed]),
        Course { attempts: 3, delivered: true, waited: 3 }
    );
    assert_eq!(
        follow(&vec![
            Outcome::Failed,
            Outcome::Failed,
            Outcome::Failed,
            Outcome::Failed,
            Outcome::Success
        ]),
        Course { attempts: 5, delivered: true, waited: 15 }
    );
}

#[test]
fn no_outcome_means_no_attempt() {
    assert_eq!(follow(&Vec::new()), Course { attempts: 0, delivered: false, waited: 0 });
    assert_eq!(
        follow(&vec![Outcome::Failed, Outcome::Failed]),
        Course { attempts: 2, delivered: false, waited: 3 }
    );
}

#[test]
fn backoff_doubles_with_each_attempt() {
    assert_eq!(backoff_seconds(0), 1);
    assert_eq!(backoff_seconds(1), 2);
    assert_eq!(backoff_seconds(2), 4);
    assert_eq!(backoff_seconds(3), 8);
    assert_eq!(backoff_seconds(4), 16);
}

#[test]
fn decide_retries_until_the_last_attempt() {
    assert_eq!(decide(0, Outcome::Success), Decision::Deliver);
    assert_eq!(decide(4, Outcome::Success), Decision::Deliver);
    assert_eq!(decide(0, Outcome::RateLimited), Decision::Retry { seconds: 1, attempt: 1 });
    assert_eq!(decide(2, Outcome::Failed), Decision::Retry { seconds: 4, attempt: 3 });
    assert_eq!(decide(3, Outcome::RateLimited), Decision::Retry { seconds: 8, attempt: 4 });
    assert_eq!(decide(4, Outcome::RateLimited), Decision::GiveUp { seconds: 16 });
    assert_eq!(decide(4, Outcome::Failed), Decision::GiveUp { seconds: 16 });
}

#[test]
fn classify_reads_the_status() {
    assert_eq!(classify(Some(200)), Outcome::Success);
    assert_eq!(classify(Some(204)), Outcome::Success);
    assert_eq!(classify(Some(299)), Outcome::Success);
    assert_eq!(classify(Some(429)), Outcome::RateLimited);
    assert_eq!(classify(Some(199)), Outcome::Failed);
    assert_eq!(classify(Some(300)), Outcome::Failed);
    assert_eq!(classify(Some(404)), Outcome::Failed);
    assert_eq!(classify(Some(500)), Outcome::Failed);
    assert_eq!(classify(None), Outcome::Failed);
}
