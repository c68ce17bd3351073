use bach::queue::Queue;

#[test]
fn queue_new() {
    let q: Queue<u32> = Queue::new();
    assert!(q.empty());
}

#[test]
fn queue_from_item() {
    let mut q: Queue<u32> = Queue::from_item(5);
    assert!(!q.empty());
    let elt = q.consume();
    assert!(elt.is_some());
    assert_eq!(elt.unwrap(), 5);
}

#[test]
fn queue_is_null() {
    let q: Queue<u32> = Queue::new();
    assert!(q.empty());
}

#[test]
fn queue_clear() {
    let mut q: Queue<u32> = Queue::new();
    q.push(1);
    q.push(2);
    q.push(3);
    q.clear();
    assert!(q.empty());
}

#[test]
fn queue_find() {
    let mut q: Queue<u32> = Queue::new();
    q.push(5);
    q.push(8);
    q.push(9);
    let n = q.find(&|x: &u32| *x == 8);
    assert_eq!(n.unwrap(), 8);
}

#[test]
fn queue_push() {
    let mut q: Queue<u32> = Queue::new();
    q.push(5);
    assert!(!q.empty());
}

#[test]
fn queue_consume() {
    let mut q: Queue<u32> = Queue::new();
    for i in 0..4 {
        q.push(i);
    }
    for i in 0..4 {
        let n = q.consume();
        assert_eq!(n.unwrap(), i);
    }
    let nbis = q.consume();
    assert!(nbis.is_none());

    let mut q2: Queue<u32> = Queue::new();
    let n2 = q2.consume();
    assert!(n2.is_none());
}

#[test]
fn queue_watch() {
    let mut q: Queue<u32> = Queue::new();
    for i in 0..4 {
        q.push(i);
    }
    let n = q.watch();
    let n2 = q.watch();
    assert_eq!(n.unwrap(), 0);
    assert_eq!(n2.unwrap(), 0);
    q.consume();
    let n = q.watch();
    assert_eq!(n.unwrap(), 1);
    let q2: Queue<u32> = Queue::new();
    let n3 = q2.watch();
    assert!(n3.is_none());
}
