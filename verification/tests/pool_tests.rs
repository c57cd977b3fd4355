use voicechat::pool::AudioProcessingPriority;
use voicechat::pool::AudioProcessingTask;
use voicechat::pool::AudioTaskQueue;
use voicechat::pool::AudioThreadPoolConfig;
use voicechat::pool::SubmitError;

fn task(id: u128, priority: AudioProcessingPriority, enqueued_at_us: u64) -> AudioProcessingTask {
    AudioProcessingTask { id, channel_id: 9, packets: Vec::new(), priority, enqueued_at_us }
}

#[test]
fn test_queue_full_fails_fast() {
    let mut config = AudioThreadPoolConfig::default();
    config.queue_size = 2;
    let mut queue = AudioTaskQueue::new(config);

    assert!(queue.submit(task(1, AudioProcessingPriority::Normal, 0)).is_ok());
    assert!(queue.submit(task(2, AudioProcessingPriority::Normal, 0)).is_ok());

    let failed_before = queue.get_stats().failed_tasks;
    let r = queue.submit(task(3, AudioProcessingPriority::Normal, 0));
    assert_eq!(r, Err(SubmitError::QueueFull));
    assert_eq!(queue.get_stats().failed_tasks, failed_before + 1);
    assert_eq!(queue.get_stats().queued_tasks, 2);
}

#[test]
fn test_shutdown_rejects() {
    let mut queue = AudioTaskQueue::new(AudioThreadPoolConfig::default());
    queue.begin_shutdown();
    let r = queue.submit(task(1, AudioProcessingPriority::Critical, 0));
    assert_eq!(r, Err(SubmitError::ShutDown));
}

#[test]
fn test_priority_order() {
    let mut queue = AudioTaskQueue::new(AudioThreadPoolConfig::default());
    queue.submit(task(1, AudioProcessingPriority::Low, 0)).unwrap();
    queue.submit(task(2, AudioProcessingPriority::Critical, 0)).unwrap();
    queue.submit(task(3, AudioProcessingPriority::Normal, 0)).unwrap();
    queue.submit(task(4, AudioProcessingPriority::Critical, 0)).unwrap();

    // highest rank first, oldest first within a rank
    assert_eq!(queue.next_task().unwrap().id, 2);
    assert_eq!(queue.next_task().unwrap().id, 4);
    assert_eq!(queue.next_task().unwrap().id, 3);
    assert_eq!(queue.next_task().unwrap().id, 1);
    assert!(queue.next_task().is_none());
}

#[test]
fn test_thread_pool_creation() {
    let config = AudioThreadPoolConfig::default();
    let mut pool = AudioTaskQueue::new(config);
    for _ in 0..config.max_workers {
        pool.worker_started();
    }
    let stats = pool.get_stats();
    assert_eq!(stats.active_workers, config.max_workers);
    assert_eq!(stats.completed_tasks, 0);
}

#[test]
fn test_fifo_when_priorities_disabled() {
    let mut config = AudioThreadPoolConfig::default();
    config.enable_priority_queue = false;
    let mut queue = AudioTaskQueue::new(config);
    queue.submit(task(1, AudioProcessingPriority::Low, 0)).unwrap();
    queue.submit(task(2, AudioProcessingPriority::Critical, 0)).unwrap();
    assert_eq!(queue.next_task().unwrap().id, 1);
    assert_eq!(queue.next_task().unwrap().id, 2);
}

#[test]
fn test_deadline() {
    // a job older than 500 ms is dropped
    assert!(!AudioTaskQueue::past_deadline(1_000_000, 1_400_000));
    assert!(!AudioTaskQueue::past_deadline(1_000_000, 1_500_000));
    assert!(AudioTaskQueue::past_deadline(1_000_000, 1_500_001));
}

#[test]
fn test_completion_stats() {
    let mut queue = AudioTaskQueue::new(AudioThreadPoolConfig::default());
    queue.complete_task(1000);
    assert_eq!(queue.get_stats().completed_tasks, 1);
    assert_eq!(queue.get_stats().average_processing_time_us, 1000);
    queue.complete_task(2000);
    // smoothed: (1000 * 9 + 2000) / 10
    assert_eq!(queue.get_stats().average_processing_time_us, 1100);
}

#[test]
fn test_health_check() {
    let mut config = AudioThreadPoolConfig::default();
    config.queue_size = 10;
    config.max_workers = 4;
    let mut queue = AudioTaskQueue::new(config);

    // no workers yet: unhealthy
    assert!(!queue.health_check().is_healthy);

    queue.worker_started();
    queue.worker_started();
    let health = queue.health_check();
    assert!(health.is_healthy);
    assert_eq!(health.worker_utilization_percent, 50);
    assert_eq!(health.queue_utilization_percent, 0);

    for i in 0..9u128 {
        queue.submit(task(i, AudioProcessingPriority::Normal, 0)).unwrap();
    }
    // queue 90% full: unhealthy
    assert!(!queue.health_check().is_healthy);
}

#[test]
fn test_peak_queue_depth() {
    let mut queue = AudioTaskQueue::new(AudioThreadPoolConfig::default());
    queue.submit(task(1, AudioProcessingPriority::Normal, 0)).unwrap();
    queue.submit(task(2, AudioProcessingPriority::Normal, 0)).unwrap();
    let t = queue.next_task().unwrap();
    assert_eq!(t.id, 1);
    assert_eq!(queue.get_stats().queued_tasks, 1);
    assert_eq!(queue.get_stats().peak_queue_size, 2);
}
