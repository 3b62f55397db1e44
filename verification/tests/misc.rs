use media_server::chunker::SampleChunker;
use media_server::signaling::select_media_port;
use media_server::table::KeyedTable;

#[test]
fn chunker_cuts_whole_chunks() {
    let mut c = SampleChunker::new(960);
    let input: Vec<i16> = (0..2000).map(|i| i as i16).collect();
    let chunks = c.push(&input);
    assert_eq!(chunks.len(), 2);
    assert_eq!(chunks[0], input[0..960].to_vec());
    assert_eq!(chunks[1], input[960..1920].to_vec());
    let more = c.push(&vec![7i16; 900]);
    assert_eq!(more.len(), 1);
    assert_eq!(&more[0][0..80], &input[1920..2000]);
    assert_eq!(&more[0][80..], &vec![7i16; 880][..]);
    let last = c.flush().unwrap();
    assert_eq!(last.len(), 960);
    assert_eq!(&last[0..20], &vec![7i16; 20][..]);
    assert!(last[20..].iter().all(|&s| s == 0));
    assert!(c.flush().is_none());
}

#[test]
fn chunker_reset_and_split_independence() {
    let data: Vec<i16> = (0..3000).map(|i| (i % 100) as i16).collect();
    let mut a = SampleChunker::new(960);
    let mut all_a = a.push(&data[..100]);
    all_a.extend(a.push(&data[100..1500]));
    all_a.extend(a.push(&data[1500..]));
    let mut b = SampleChunker::new(960);
    let all_b = b.push(&data);
    assert_eq!(all_a, all_b);
    assert_eq!(a.flush(), b.flush());
    let mut c = SampleChunker::new(4);
    c.push(&[1, 2, 3]);
    c.reset();
    assert!(c.flush().is_none());
    assert_eq!(c.chunk_size(), 4);
}

#[test]
fn media_port_selection() {
    assert_eq!(select_media_port(&[], 5), None);
    assert_eq!(select_media_port(&[3480, 3478, 3479], 4), Some(3479));
    assert_eq!(select_media_port(&[3480, 3478, 3479], 0), Some(3478));
    assert_eq!(select_media_port(&[3480, 3478, 3479], 2), Some(3480));
    assert_eq!(select_media_port(&[3478], u64::MAX), Some(3478));
}

#[test]
fn keyed_table_basics() {
    let mut t: KeyedTable<&str> = KeyedTable::new();
    assert_eq!(t.insert((1, u64::MAX), "a"), None);
    assert_eq!(t.insert((u64::MAX, 1), "b"), None);
    assert_eq!(t.insert((1, u64::MAX), "c"), Some("a"));
    assert_eq!(t.len(), 2);
    assert_eq!(t.get((1, u64::MAX)), Some(&"c"));
    assert!(t.contains((u64::MAX, 1)));
    assert!(!t.contains((1, 1)));
    let mut keys = t.keys();
    keys.sort();
    assert_eq!(keys, vec![(1, u64::MAX), (u64::MAX, 1)]);
    assert_eq!(t.remove((u64::MAX, 1)), Some("b"));
    assert_eq!(t.len(), 1);
}
