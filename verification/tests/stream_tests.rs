use socrates_core::stream::{LineScan, StreamingBuffer};

fn lines_of(buffer: &StreamingBuffer) -> (Vec<String>, usize) {
    let mut out = Vec::new();
    let mut pos = 0;
    loop {
        match buffer.next_line(pos) {
            LineScan::Line { text, next, .. } => {
                out.push(text);
                pos = next;
            }
            LineScan::End { consumed_to } => return (out, consumed_to),
        }
    }
}

#[test]
fn new_buffer_limits() {
    let b = StreamingBuffer::new();
    let s = b.get_stats();
    assert_eq!(s.buffer_size, 0);
    assert_eq!(s.max_buffer_size, 1024 * 1024);
    assert_eq!(s.max_queue_size, 10 * 1024 * 1024);
    assert_eq!(s.queued_chunks, 0);
}

#[test]
fn chunks_are_cut_into_lines() {
    let mut b = StreamingBuffer::with_capacity(1024, 1024);
    b.enqueue_chunk(b"{\"response\":\"Hel\"}\n{\"resp".to_vec()).unwrap();
    b.enqueue_chunk(b"onse\":\"lo\"}\n  \n{\"done\":".to_vec()).unwrap();
    assert_eq!(b.get_stats().queued_chunks, 2);
    b.absorb_queue().unwrap();
    assert_eq!(b.get_stats().queued_chunks, 0);
    assert_eq!(b.get_stats().total_queued_bytes, 0);
    let (lines, consumed) = lines_of(&b);
    assert_eq!(lines, vec!["{\"response\":\"Hel\"}", "{\"response\":\"lo\"}"]);
    b.consume(consumed);
    assert_eq!(b.buffer, b"{\"done\":".to_vec());
    b.enqueue_chunk(b"true}\r\n".to_vec()).unwrap();
    b.absorb_queue().unwrap();
    let (lines, consumed) = lines_of(&b);
    assert_eq!(lines, vec!["{\"done\":true}"]);
    b.consume(consumed);
    assert_eq!(b.get_stats().buffer_size, 0);
}

#[test]
fn queue_overflow_is_refused() {
    let mut b = StreamingBuffer::with_capacity(1024, 8);
    b.enqueue_chunk(vec![b'a'; 5]).unwrap();
    assert_eq!(
        b.enqueue_chunk(vec![b'b'; 4]).unwrap_err(),
        "Stream buffer queue overflow - client consuming too slowly"
    );
    assert_eq!(b.get_stats().total_queued_bytes, 5);
    b.enqueue_chunk(vec![b'c'; 3]).unwrap();
    assert_eq!(b.get_stats().total_queued_bytes, 8);
}

#[test]
fn oversized_message_clears_the_buffer() {
    let mut b = StreamingBuffer::with_capacity(4, 100);
    b.enqueue_chunk(b"ab".to_vec()).unwrap();
    b.enqueue_chunk(b"cdef".to_vec()).unwrap();
    b.enqueue_chunk(b"gh".to_vec()).unwrap();
    assert_eq!(b.absorb_queue().unwrap_err(), "Stream buffer overflow - single message too large");
    assert_eq!(b.get_stats().buffer_size, 0);
    assert_eq!(b.get_stats().queued_chunks, 1);
    b.clear();
    assert_eq!(b.get_stats().queued_chunks, 0);
}

#[test]
fn invalid_text_lines_are_skipped() {
    let mut b = StreamingBuffer::with_capacity(64, 64);
    b.enqueue_chunk(vec![0xff, 0xfe, b'\n', b'o', b'k', b'\n']).unwrap();
    b.absorb_queue().unwrap();
    let (lines, consumed) = lines_of(&b);
    assert_eq!(lines, vec!["ok"]);
    assert_eq!(consumed, 6);
}
