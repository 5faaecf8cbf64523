use web_server::queue::{Dequeued, JobQueue, QueueClosed};

#[test]
fn new_queue_is_open_and_empty() {
    let queue: JobQueue<u32> = JobQueue::new();
    assert!(!queue.is_closed());
    assert_eq!(queue.len(), 0);
}

#[test]
fn dequeue_on_open_empty_queue_says_empty() {
    let mut queue: JobQueue<u32> = JobQueue::new();
    assert!(matches!(queue.dequeue(), Dequeued::Empty));
    assert_eq!(queue.len(), 0);
    assert!(!queue.is_closed());
}

#[test]
fn jobs_leave_in_the_order_they_came() {
    let mut queue: JobQueue<u32> = JobQueue::new();
    assert!(queue.enqueue(10).is_ok());
    assert!(queue.enqueue(20).is_ok());
    assert!(queue.enqueue(30).is_ok());
    assert_eq!(queue.len(), 3);
    assert!(matches!(queue.dequeue(), Dequeued::Job(10)));
    assert!(matches!(queue.dequeue(), Dequeued::Job(20)));
    assert_eq!(queue.len(), 1);
    assert!(matches!(queue.dequeue(), Dequeued::Job(30)));
    assert!(matches!(queue.dequeue(), Dequeued::Empty));
}

#[test]
fn enqueue_on_closed_queue_hands_the_job_back() {
    let mut queue: JobQueue<u32> = JobQueue::new();
    queue.close();
    assert!(queue.is_closed());
    match queue.enqueue(7) {
        Err(QueueClosed(job)) => assert_eq!(job, 7),
        Ok(()) => panic!("a closed queue accepted a job"),
    }
    assert_eq!(queue.len(), 0);
}

#[test]
fn closed_queue_is_drained_before_it_says_closed() {
    let mut queue: JobQueue<u32> = JobQueue::new();
    assert!(queue.enqueue(1).is_ok());
    assert!(queue.enqueue(2).is_ok());
    queue.close();
    assert_eq!(queue.len(), 2);
    assert!(matches!(queue.dequeue(), Dequeued::Job(1)));
    assert!(matches!(queue.dequeue(), Dequeued::Job(2)));
    assert!(matches!(queue.dequeue(), Dequeued::Closed));
    assert!(matches!(queue.dequeue(), Dequeued::Closed));
}

#[test]
fn close_twice_changes_nothing() {
    let mut queue: JobQueue<u32> = JobQueue::new();
    assert!(queue.enqueue(5).is_ok());
    queue.close();
    queue.close();
    assert!(queue.is_closed());
    assert_eq!(queue.len(), 1);
    assert!(matches!(queue.dequeue(), Dequeued::Job(5)));
    assert!(matches!(queue.dequeue(), Dequeued::Closed));
}
