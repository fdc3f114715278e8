use os::task::manager::{ReadyTask, TaskManager, BIG_STRIDE};

fn tcb(pid: usize, stride: usize, priority: usize) -> ReadyTask<&'static str> {
    ReadyTask { pid, stride, priority, task: "task" }
}

#[test]
fn empty_manager_gives_nothing() {
    let mut m: TaskManager<u8> = TaskManager::new();
    assert_eq!(m.fetch(), None);
    assert!(m.next_is_schedulable());
    assert_eq!(m.stride_schedule(), None);
}

#[test]
fn fetch_is_fifo() {
    let mut m = TaskManager::new();
    m.add(tcb(1, 0, 16));
    m.add(tcb(2, 0, 16));
    m.add(tcb(3, 0, 16));
    assert_eq!(m.fetch().unwrap().pid, 1);
    m.add(tcb(4, 0, 16));
    assert_eq!(m.fetch().unwrap().pid, 2);
    assert_eq!(m.fetch().unwrap().pid, 3);
    assert_eq!(m.fetch().unwrap().pid, 4);
    assert_eq!(m.fetch(), None);
}

#[test]
fn stride_picks_smallest_and_advances() {
    let mut m = TaskManager::new();
    m.add(tcb(1, 30, 2));
    m.add(tcb(2, 10, 4));
    m.add(tcb(3, 20, 8));
    let t = m.stride_schedule().unwrap();
    assert_eq!(t, tcb(2, 10 + BIG_STRIDE / 4, 4));
    assert_eq!(m.fetch().unwrap().pid, 1);
    assert_eq!(m.fetch().unwrap().pid, 3);
    assert_eq!(m.fetch(), None);
}

#[test]
fn stride_ties_go_to_the_first() {
    let mut m = TaskManager::new();
    m.add(tcb(1, 5, 2));
    m.add(tcb(2, 5, 2));
    assert_eq!(m.stride_schedule().unwrap().pid, 1);
    assert_eq!(m.stride_schedule().unwrap().pid, 2);
}

#[test]
fn stride_removes_all_entries_of_the_process() {
    let mut m = TaskManager::new();
    m.add(tcb(7, 1, 2));
    m.add(tcb(8, 9, 2));
    m.add(tcb(7, 50, 2));
    let t = m.stride_schedule().unwrap();
    assert_eq!(t.pid, 7);
    assert_eq!(t.stride, 1 + BIG_STRIDE / 2);
    assert_eq!(m.fetch().unwrap().pid, 8);
    assert_eq!(m.fetch(), None);
}

#[test]
fn saturated_strides_are_still_picked() {
    let mut m = TaskManager::new();
    m.add(tcb(1, usize::MAX, BIG_STRIDE + 1));
    m.add(tcb(2, usize::MAX, BIG_STRIDE + 1));
    assert!(m.next_is_schedulable());
    let t = m.stride_schedule().unwrap();
    assert_eq!(t, tcb(1, usize::MAX, BIG_STRIDE + 1));
    assert_eq!(m.fetch().unwrap().pid, 2);
    assert_eq!(m.fetch(), None);
}

#[test]
fn proportional_share() {
    // priorities 2 and 4: the second runs about twice as often
    let mut m = TaskManager::new();
    m.add(tcb(1, 0, 2));
    m.add(tcb(2, 0, 4));
    let mut runs = [0usize; 3];
    for _ in 0..30 {
        let t = m.stride_schedule().unwrap();
        runs[t.pid] += 1;
        m.add(t);
    }
    assert_eq!(runs[1], 10);
    assert_eq!(runs[2], 20);
}

#[test]
fn spread_stays_within_half_big_stride() {
    let mut m = TaskManager::new();
    m.add(tcb(1, 0, 2));
    m.add(tcb(2, 0, 3));
    m.add(tcb(3, 0, 7));
    for _ in 0..100 {
        let t = m.stride_schedule().unwrap();
        m.add(t);
        let mut strides = Vec::new();
        for _ in 0..3 {
            let x = m.fetch().unwrap();
            strides.push(x.stride);
            m.add(x);
        }
        let lo = *strides.iter().min().unwrap();
        let hi = *strides.iter().max().unwrap();
        assert!(hi - lo <= BIG_STRIDE / 2);
    }
}

#[test]
fn unschedulable_pick_is_reported() {
    let mut m = TaskManager::new();
    m.add(tcb(1, 10, 0));
    m.add(tcb(2, 20, 0));
    assert!(!m.next_is_schedulable());
    let mut m = TaskManager::new();
    m.add(tcb(1, usize::MAX - 1, 1));
    assert!(!m.next_is_schedulable());
    let mut m = TaskManager::new();
    m.add(tcb(1, 5, 2));
    m.add(tcb(2, 20, 0));
    assert!(m.next_is_schedulable());
}

#[test]
fn payload_travels_with_the_task() {
    let mut m = TaskManager::new();
    m.add(ReadyTask { pid: 1, stride: 3, priority: 2, task: vec![1u8, 2] });
    m.add(ReadyTask { pid: 2, stride: 1, priority: 2, task: vec![3u8] });
    assert_eq!(m.stride_schedule().unwrap().task, vec![3u8]);
    assert_eq!(m.fetch().unwrap().task, vec![1u8, 2]);
}
