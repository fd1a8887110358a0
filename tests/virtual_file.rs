use visualize::wasm_file::{ReadError, SeekFrom, WasmFile};

fn sample(n: usize) -> Vec<u8> {
    (0..n).map(|i| (i * 7 % 251) as u8).collect()
}

#[test]
fn read_after_seek_returns_the_range() {
    let data = sample(50);
    let mut f = WasmFile::new(data.clone());
    for (s, e) in [(0usize, 50usize), (10, 20), (49, 50), (5, 5)] {
        assert_eq!(f.seek(SeekFrom::Start(s as u64)).ok(), Some(s as u64));
        let mut buf = vec![0u8; e - s];
        let n = f.read(&mut buf);
        assert_eq!(n, e - s);
        assert_eq!(&buf[..], &data[s..e]);
        assert_eq!(f.position(), e as u64);
    }
}

#[test]
fn remote_read_after_seek_returns_fetched_range() {
    let data = sample(300);
    let mut f = WasmFile::new_remote("http://example.org/data.nc".to_string(), 300);
    assert_eq!(f.seek(SeekFrom::Start(100)).ok(), Some(100));
    let mut buf = vec![0u8; 40];
    let (s, e) = f.pending_range(buf.len());
    assert_eq!((s, e), (100, 140));
    let n = f.complete_read(Ok(data[s as usize..e as usize].to_vec()), &mut buf);
    assert_eq!(n.ok(), Some(40));
    assert_eq!(&buf[..], &data[100..140]);
    assert_eq!(f.position(), 140);
}

#[test]
fn repeated_seek_is_idempotent() {
    let data = sample(30);
    let mut f = WasmFile::new(data.clone());
    let first = f.seek(SeekFrom::End(-5)).ok().unwrap();
    let mut a = vec![0u8; 4];
    let mut b = vec![0u8; 4];
    f.read(&mut a);
    f.seek(SeekFrom::Start(first)).ok().unwrap();
    let second = f.seek(SeekFrom::Start(first)).ok().unwrap();
    assert_eq!(first, 25);
    assert_eq!(first, second);
    f.read(&mut b);
    assert_eq!(a, b);
}

#[test]
fn seek_wraps_modulo_size() {
    let mut f = WasmFile::new(sample(10));
    assert_eq!(f.seek(SeekFrom::Start(23)).ok(), Some(3));
    assert_eq!(f.seek(SeekFrom::Current(-4)).ok(), Some(9));
    assert_eq!(f.seek(SeekFrom::End(0)).ok(), Some(0));
    assert_eq!(f.seek(SeekFrom::End(-13)).ok(), Some(7));
    assert_eq!(f.seek(SeekFrom::Current(25)).ok(), Some(2));
}

#[test]
fn seek_on_empty_file_fails() {
    let mut f = WasmFile::new(Vec::new());
    assert!(matches!(f.seek(SeekFrom::Start(0)), Err(ReadError::EmptyFile)));
    assert_eq!(f.position(), 0);
}

#[test]
fn read_past_end_returns_fewer_bytes() {
    let data = sample(20);
    let mut f = WasmFile::new(data.clone());
    f.seek(SeekFrom::Start(15)).ok().unwrap();
    let mut buf = vec![9u8; 10];
    let n = f.read(&mut buf);
    assert_eq!(n, 5);
    assert_eq!(&buf[..5], &data[15..20]);
    assert_eq!(&buf[5..], &[9u8; 5]);
    let n2 = f.read(&mut buf);
    assert_eq!(n2, 0);
    assert_eq!(f.position(), 20);
}

#[test]
fn remote_read_is_clipped_to_one_range_fetch() {
    let mut f = WasmFile::new_remote("http://example.org/big.nc".to_string(), 1000);
    assert_eq!(f.file_size(), 1000);
    f.seek(SeekFrom::Start(900)).ok().unwrap();
    let mut buf = vec![0u8; 2000];
    let (s, e) = f.pending_range(buf.len());
    assert_eq!((s, e), (900, 1000));
    let fetched: Vec<u8> = (0..100).map(|i| i as u8).collect();
    let n = f.complete_read(Ok(fetched.clone()), &mut buf);
    assert_eq!(n.ok(), Some(100));
    assert_eq!(&buf[..100], &fetched[..]);
    assert_eq!(f.position(), 1000);
}

#[test]
fn remote_short_response_is_refused() {
    let mut f = WasmFile::new_remote("u".to_string(), 50);
    let mut buf = vec![1u8; 10];
    let r = f.complete_read(Ok(vec![0u8; 3]), &mut buf);
    assert!(matches!(r, Err(ReadError::ShortResponse)));
    assert_eq!(buf, vec![1u8; 10]);
    assert_eq!(f.position(), 0);
}

#[test]
fn remote_fetch_failure_is_passed_on() {
    let mut f = WasmFile::new_remote("u".to_string(), 50);
    let mut buf = vec![1u8; 10];
    let r = f.complete_read(Err(ReadError::Fetch("Got invalid status".to_string())), &mut buf);
    match r {
        Err(ReadError::Fetch(m)) => assert_eq!(m, "Got invalid status"),
        _ => panic!("expected a fetch error"),
    }
    assert_eq!(f.position(), 0);
    assert!(f.is_remote());
    assert_eq!(f.url(), "u");
}
