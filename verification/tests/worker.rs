use web_server::queue::JobQueue;
use web_server::worker::{Action, Worker, WorkerState};

#[test]
fn new_worker_waits_and_holds_its_thread() {
    let worker: Worker<&str> = Worker::new(3, "handle");
    assert_eq!(worker.id(), 3);
    assert_eq!(worker.state(), WorkerState::Waiting);
    assert!(worker.has_thread());
}

#[test]
fn worker_takes_the_oldest_job_and_runs() {
    let mut queue: JobQueue<u32> = JobQueue::new();
    assert!(queue.enqueue(11).is_ok());
    assert!(queue.enqueue(22).is_ok());
    let mut worker: Worker<()> = Worker::new(0, ());
    assert!(matches!(worker.poll(&mut queue), Action::Run(11)));
    assert_eq!(worker.state(), WorkerState::Running);
    assert_eq!(queue.len(), 1);
    worker.finish();
    assert_eq!(worker.state(), WorkerState::Waiting);
    assert!(matches!(worker.poll(&mut queue), Action::Run(22)));
    assert_eq!(queue.len(), 0);
}

#[test]
fn worker_waits_on_open_empty_queue() {
    let mut queue: JobQueue<u32> = JobQueue::new();
    let mut worker: Worker<()> = Worker::new(0, ());
    assert!(matches!(worker.poll(&mut queue), Action::Wait));
    assert_eq!(worker.state(), WorkerState::Waiting);
    assert!(!queue.is_closed());
}

#[test]
fn worker_leaves_on_closed_empty_queue() {
    let mut queue: JobQueue<u32> = JobQueue::new();
    queue.close();
    let mut worker: Worker<()> = Worker::new(1, ());
    assert!(matches!(worker.poll(&mut queue), Action::Exit));
    assert_eq!(worker.state(), WorkerState::Terminated);
    assert_eq!(worker.id(), 1);
}

#[test]
fn worker_drains_closed_queue_before_it_leaves() {
    let mut queue: JobQueue<u32> = JobQueue::new();
    assert!(queue.enqueue(4).is_ok());
    queue.close();
    let mut worker: Worker<()> = Worker::new(0, ());
    assert!(matches!(worker.poll(&mut queue), Action::Run(4)));
    worker.finish();
    assert!(matches!(worker.poll(&mut queue), Action::Exit));
    assert_eq!(worker.state(), WorkerState::Terminated);
}

#[test]
fn thread_is_taken_once() {
    let mut worker: Worker<String> = Worker::new(2, String::from("t2"));
    assert_eq!(worker.take_thread(), Some(String::from("t2")));
    assert!(!worker.has_thread());
    assert_eq!(worker.take_thread(), None);
    assert_eq!(worker.take_thread(), None);
    assert_eq!(worker.id(), 2);
    assert_eq!(worker.state(), WorkerState::Waiting);
}
