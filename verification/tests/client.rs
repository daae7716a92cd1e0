use tendermint_rpc::client::{
    HealthPoll, PageRequest, PageStep, PageWalk, Paging, PollStep, DEFAULT_VALIDATORS_PER_PAGE,
    MAX_PAGES, POLL_INTERVAL_MILLIS,
};
use tendermint_rpc::error::Code;

#[test]
fn healthy_probe_ends_the_wait() {
    let mut poll = HealthPoll::new(1000);
    assert_eq!(5, poll.attempts_remaining());
    assert_eq!(PollStep::Healthy, poll.step(true));
    assert_eq!(5, poll.attempts_remaining());
}

#[test]
fn poll_times_out_after_its_retries() {
    assert_eq!(200, POLL_INTERVAL_MILLIS);
    let mut poll = HealthPoll::new(1000);
    for left in [4, 3, 2, 1, 0] {
        assert_eq!(PollStep::Retry, poll.step(false));
        assert_eq!(left, poll.attempts_remaining());
    }
    match poll.step(false) {
        PollStep::TimedOut(error) => {
            assert_eq!(Code::ClientInternalError, error.code());
            assert_eq!(
                "timed out waiting for healthy response after 1000ms",
                error.message()
            );
        }
        other => panic!("{:?}", other),
    }
    assert_eq!(PollStep::Healthy, poll.step(true));
}

#[test]
fn short_deadline_allows_no_retry() {
    let mut poll = HealthPoll::new(199);
    assert_eq!(0, poll.attempts_remaining());
    assert!(matches!(poll.step(false), PollStep::TimedOut(_)));
    let mut poll = HealthPoll::new(200);
    assert_eq!(PollStep::Retry, poll.step(false));
    assert!(matches!(poll.step(false), PollStep::TimedOut(_)));
}

#[test]
fn paging_names_its_first_request() {
    assert_eq!(
        PageRequest { page_number: None, per_page: None },
        Paging::Default.first_request()
    );
    assert_eq!(
        PageRequest { page_number: Some(3), per_page: Some(10) },
        Paging::Specific { page_number: 3, per_page: 10 }.first_request()
    );
    assert_eq!(
        PageRequest { page_number: Some(1), per_page: Some(30) },
        Paging::All.first_request()
    );
    assert_eq!(30, DEFAULT_VALIDATORS_PER_PAGE);
}

#[test]
fn walk_ends_when_the_total_is_in_hand() {
    let mut walk = PageWalk::new();
    assert_eq!((1, 0), (walk.page(), walk.collected()));
    assert_eq!(
        PageStep::Fetch(PageRequest { page_number: Some(2), per_page: Some(30) }),
        walk.step(30, 70)
    );
    assert_eq!(
        PageStep::Fetch(PageRequest { page_number: Some(3), per_page: Some(30) }),
        walk.step(30, 70)
    );
    assert_eq!(PageStep::Done, walk.step(10, 70));
    assert_eq!((3, 70), (walk.page(), walk.collected()));
}

#[test]
fn walk_of_nothing_is_done_at_once() {
    let mut walk = PageWalk::new();
    assert_eq!(PageStep::Done, walk.step(0, 0));
    let mut walk = PageWalk::new();
    assert!(matches!(walk.step(0, -1), PageStep::Fetch(_)));
}

#[test]
fn walk_gives_up_at_the_cap() {
    let mut walk = PageWalk::new();
    for page in 2..=MAX_PAGES {
        assert_eq!(
            PageStep::Fetch(PageRequest { page_number: Some(page), per_page: Some(30) }),
            walk.step(0, 5)
        );
    }
    match walk.step(0, 5) {
        PageStep::GiveUp(error) => {
            assert_eq!(Code::ClientInternalError, error.code());
            assert_eq!(
                "gave up fetching pages: the reported total was never reached",
                error.message()
            );
        }
        other => panic!("{:?}", other),
    }
    assert_eq!(MAX_PAGES, walk.page());
    assert_eq!(PageStep::Done, walk.step(5, 5));
}

#[test]
fn walk_gives_up_when_the_count_overflows() {
    let mut walk = PageWalk::new();
    assert!(matches!(walk.step(u64::MAX, 1), PageStep::Fetch(_)));
    assert!(matches!(walk.step(1, 1), PageStep::GiveUp(_)));
    assert_eq!(u64::MAX, walk.collected());
}
