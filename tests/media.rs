use frontrow::buffer_cache::BufferCache;
use frontrow::jpeg::{is_complete, is_jpeg_format, read_jpeg_into_buf, read_jpeg_with_buf, ReadJpegError};

fn jpeg(body: u8) -> Vec<u8> {
    vec![0xff, 0xd8, body, 0xd9, body, 0xff, 0xd9]
}

#[test]
fn jpeg_eof_before_marker_is_an_error() {
    let mut buf = vec![0xff, 0xd8, 1, 2];
    assert_eq!(read_jpeg_into_buf(&mut buf, &[]), Err(ReadJpegError::EOF));
    assert_eq!(buf, vec![0xff, 0xd8, 1, 2]);
}

#[test]
fn jpeg_reader_stops_at_marker() {
    let mut input = jpeg(1);
    input.extend(jpeg(2));
    let mut buf = Vec::new();
    let n = read_jpeg_into_buf(&mut buf, &input).unwrap();
    assert_eq!(n, 7);
    assert_eq!(buf, jpeg(1));
    assert!(is_complete(&buf));
}

#[test]
fn jpeg_reader_continues_across_reads() {
    let mut buf = Vec::new();
    assert_eq!(read_jpeg_into_buf(&mut buf, &[0xff, 0xd8, 0xff]), Ok(3));
    assert!(!is_complete(&buf));
    assert_eq!(read_jpeg_into_buf(&mut buf, &[0xd9, 7]), Ok(1));
    assert_eq!(buf, vec![0xff, 0xd8, 0xff, 0xd9]);
}

#[test]
fn hundred_frames_split_in_order() {
    let mut data = Vec::new();
    for i in 0..100u8 {
        data.extend(jpeg(i));
    }
    data.extend(vec![0xff, 0xd8, 9]);
    let mut images = Vec::new();
    let mut input: &[u8] = &data;
    let mut buf = Vec::new();
    while !input.is_empty() {
        let n = read_jpeg_into_buf(&mut buf, input).unwrap();
        input = &input[n..];
        if is_complete(&buf) {
            images.push(std::mem::take(&mut buf));
        }
    }
    assert_eq!(images.len(), 100);
    for (i, img) in images.iter().enumerate() {
        assert_eq!(*img, jpeg(i as u8));
    }
    assert_eq!(buf, vec![0xff, 0xd8, 9]);
    assert_eq!(read_jpeg_into_buf(&mut buf, &[]), Err(ReadJpegError::EOF));
}

#[test]
fn stream_formats() {
    assert!(is_jpeg_format("jpeg"));
    assert!(is_jpeg_format("mjpeg"));
    assert!(!is_jpeg_format("h264"));
}

#[test]
fn buffer_cache_lends_and_reclaims() {
    let mut cache: BufferCache<Vec<u8>> = BufferCache::new(16384);
    assert!(cache.try_get_buffer().is_none());
    let mut w = cache.get_buffer();
    assert!(w.buffer().is_empty());
    w.buffer_mut().extend_from_slice(&[1, 2, 3]);
    cache.recycle(w);
    let w = cache.try_get_buffer().unwrap();
    assert!(w.buffer().is_empty());
    let inner = w.into_inner();
    assert!(inner.is_empty());
    assert!(cache.try_get_buffer().is_none());
}

#[test]
fn read_jpeg_with_buf_takes_first_image() {
    let mut stream = jpeg(4);
    stream.extend(jpeg(5));
    assert_eq!(read_jpeg_with_buf(vec![1, 2, 3], &stream), Ok(jpeg(4)));
    assert_eq!(read_jpeg_with_buf(vec![0xff], &[0xd9, 1, 2]), Err(ReadJpegError::EOF));
    assert_eq!(read_jpeg_with_buf(Vec::new(), &[]), Err(ReadJpegError::EOF));
}
