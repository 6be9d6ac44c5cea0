use simpletcp::queue::DequeueBuffer;

#[test]
fn new_queue_is_empty() {
    let q = DequeueBuffer::new();
    assert!(q.is_empty());
}

#[test]
fn peek_gives_the_first_chunk() {
    let mut q = DequeueBuffer::new();
    q.enqueue(&[1, 2, 3]);
    q.enqueue(&[4, 5]);
    assert!(!q.is_empty());
    assert_eq!(q.peek(), &[1, 2, 3]);
}

#[test]
fn advance_moves_inside_the_first_chunk() {
    let mut q = DequeueBuffer::new();
    q.enqueue(&[1, 2, 3]);
    q.enqueue(&[4, 5]);
    q.advance(2);
    assert_eq!(q.peek(), &[3]);
    q.advance(0);
    assert_eq!(q.peek(), &[3]);
    q.advance(1);
    assert_eq!(q.peek(), &[4, 5]);
    q.advance(2);
    assert!(q.is_empty());
}

#[test]
fn chunks_leave_in_the_order_of_arrival() {
    let mut q = DequeueBuffer::new();
    let mut sent: Vec<u8> = Vec::new();
    q.enqueue(&[10, 11, 12, 13]);
    q.enqueue(&[20]);
    let mut step: usize = 3;
    while !q.is_empty() {
        let next = q.peek();
        let n = if step < next.len() { step } else { next.len() };
        sent.extend_from_slice(&next[..n]);
        q.advance(n);
        if sent.len() == 4 {
            q.enqueue(&[30, 31]);
        }
        step = 1;
    }
    assert_eq!(sent, vec![10, 11, 12, 13, 20, 30, 31]);
}

#[test]
fn empty_chunk_adds_nothing() {
    let mut q = DequeueBuffer::new();
    q.enqueue(&[]);
    assert!(q.is_empty());
    q.enqueue(&[1]);
    q.enqueue(&[]);
    q.advance(1);
    assert!(q.is_empty());
}
