use hello_webserver::{JobQueue, TryReceiveError};

#[test]
fn queue_starts_open_and_empty() {
    let queue: JobQueue<u8> = JobQueue::new();
    assert!(queue.is_open());
    assert!(queue.is_empty());
    assert_eq!(queue.len(), 0);
}

#[test]
fn queue_delivers_in_submission_order() {
    let mut queue = JobQueue::new();
    for job in [10, 20, 30, 40] {
        assert_eq!(queue.send(job), Ok(()));
    }
    assert_eq!(queue.len(), 4);
    assert!(!queue.is_empty());
    assert_eq!(queue.try_receive(), Ok(10));
    assert_eq!(queue.try_receive(), Ok(20));
    assert_eq!(queue.send(50), Ok(()));
    assert_eq!(queue.try_receive(), Ok(30));
    assert_eq!(queue.try_receive(), Ok(40));
    assert_eq!(queue.try_receive(), Ok(50));
    assert_eq!(queue.len(), 0);
}

#[test]
fn open_empty_queue_reports_empty() {
    let mut queue: JobQueue<u8> = JobQueue::new();
    assert_eq!(queue.try_receive(), Err(TryReceiveError::Empty));
    assert_eq!(queue.try_receive(), Err(TryReceiveError::Empty));
    assert!(queue.is_open());
    assert_eq!(queue.send(1), Ok(()));
    assert_eq!(queue.try_receive(), Ok(1));
    assert_eq!(queue.try_receive(), Err(TryReceiveError::Empty));
}

#[test]
fn closed_empty_queue_reports_closed() {
    let mut queue: JobQueue<u8> = JobQueue::new();
    queue.close();
    assert!(!queue.is_open());
    assert_eq!(queue.try_receive(), Err(TryReceiveError::Closed));
    assert_eq!(queue.try_receive(), Err(TryReceiveError::Closed));
}

#[test]
fn closed_queue_hands_the_job_back() {
    let mut queue = JobQueue::new();
    assert_eq!(queue.send("first"), Ok(()));
    queue.close();
    assert_eq!(queue.send("second"), Err("second"));
    assert_eq!(queue.send("third"), Err("third"));
    assert_eq!(queue.len(), 1);
}

#[test]
fn closed_queue_still_delivers_what_it_holds() {
    let mut queue = JobQueue::new();
    assert_eq!(queue.send(1), Ok(()));
    assert_eq!(queue.send(2), Ok(()));
    queue.close();
    assert_eq!(queue.try_receive(), Ok(1));
    assert_eq!(queue.try_receive(), Ok(2));
    assert_eq!(queue.try_receive(), Err(TryReceiveError::Closed));
}

#[test]
fn closing_twice_changes_nothing() {
    let mut queue = JobQueue::new();
    assert_eq!(queue.send(7), Ok(()));
    queue.close();
    queue.close();
    assert!(!queue.is_open());
    assert_eq!(queue.len(), 1);
    assert_eq!(queue.try_receive(), Ok(7));
}

#[test]
fn queue_moves_jobs_that_cannot_be_copied() {
    let mut queue: JobQueue<String> = JobQueue::new();
    assert_eq!(queue.send(String::from("a")), Ok(()));
    assert_eq!(queue.send(String::from("b")), Ok(()));
    assert_eq!(queue.try_receive(), Ok(String::from("a")));
    queue.close();
    assert_eq!(queue.send(String::from("c")), Err(String::from("c")));
    assert_eq!(queue.try_receive(), Ok(String::from("b")));
}
