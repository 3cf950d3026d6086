use rr_bench::task_handle::new_task_handles;

#[test]
fn done_only_after_original_hold_released() {
    let (handle, tracker) = new_task_handles();
    assert!(!tracker.is_done());
    handle.release();
    assert!(tracker.is_done());
}

#[test]
fn done_only_after_every_clone_released_in_order() {
    let (handle, tracker) = new_task_handles();
    let mut handles = vec![handle.clone_handle(), handle.clone_handle(), handle.clone_handle()];
    handles.push(handle);
    assert_eq!(handles.len(), 4);
    while let Some(h) = handles.pop() {
        assert!(!tracker.is_done());
        h.release();
    }
    assert!(tracker.is_done());
}

#[test]
fn done_only_after_every_clone_released_reversed() {
    let (handle, tracker) = new_task_handles();
    let c1 = handle.clone_handle();
    let c2 = handle.clone_handle();
    let c3 = handle.clone_handle();
    // Release the original hold first, then the clones in creation order.
    handle.release();
    assert!(!tracker.is_done());
    c1.release();
    assert!(!tracker.is_done());
    c2.release();
    assert!(!tracker.is_done());
    c3.release();
    assert!(tracker.is_done());
}

#[test]
fn clone_of_clone_still_counts() {
    let (handle, tracker) = new_task_handles();
    let c1 = handle.clone_handle();
    let c2 = c1.clone_handle();
    handle.release();
    c1.release();
    assert!(!tracker.is_done());
    c2.release();
    assert!(tracker.is_done());
}
