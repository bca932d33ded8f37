//! Splitting a byte stream into JPEG images at their end-of-image marker.
use vstd::prelude::*;

verus! {

/// Why no image could be read.
#[derive(Debug, PartialEq)]
pub enum ReadJpegError {
    /// Reading the stream failed; the text says how.
    IOError(String),
    /// The stream ended before the end-of-image marker.
    EOF,
}

/// The bytes end with the end-of-image marker `FF D9`.
pub open spec fn ends_with_eoi(b: Seq<u8>) -> bool {
    b.len() >= 2 && b[b.len() - 2] == 0xffu8 && b[b.len() - 1] == 0xd9u8
}

/// The number of bytes of `input` that complete the image begun in `buf`:
/// the least `n >= 1` after which the bytes end with the marker, or all of
/// `input` when no such `n` exists.
pub open spec fn bytes_to_eoi(buf: Seq<u8>, input: Seq<u8>, n: int) -> bool {
    &&& 1 <= n <= input.len()
    &&& forall|k: int| 1 <= k < n ==> !ends_with_eoi(#[trigger] (buf + input.take(k)))
    &&& (ends_with_eoi(buf + input.take(n)) || n == input.len())
}

/// Whether `buf` ends with the end-of-image marker.
pub fn is_complete(buf: &Vec<u8>) -> (r: bool)
    ensures
        r == ends_with_eoi(buf@),
{
    let n = buf.len();
    n >= 2 && buf[n - 2] == 0xff && buf[n - 1] == 0xd9
}

/// Appends bytes of `input` to `buf` up to the end of the image. The result
/// is the number of bytes taken; the image is complete when `buf` then ends
/// with the marker. An empty `input` means that the stream has ended, which
/// is an error: the image it began is cut short.
pub fn read_jpeg_into_buf(buf: &mut Vec<u8>, input: &[u8]) -> (r: Result<usize, ReadJpegError>)
    ensures
        input@.len() == 0 ==> r is Err && r->Err_0 is EOF && final(buf)@ == old(buf)@,
        input@.len() > 0 ==> r is Ok && bytes_to_eoi(old(buf)@, input@, r->Ok_0 as int)
            && final(buf)@ == old(buf)@ + input@.take(r->Ok_0 as int),
{
    if input.len() == 0 {
        return Err(ReadJpegError::EOF);
    }
    let ghost start = buf@;
    let mut i: usize = 0;
    while i < input.len()
        invariant
            i <= input@.len(),
            input@.len() > 0,
            start == old(buf)@,
            buf@ == start + input@.take(i as int),
            forall|k: int| 1 <= k <= i ==> !ends_with_eoi(#[trigger] (start + input@.take(k))),
        decreases input.len() - i,
    {
        buf.push(input[i]);
        i += 1;
        proof {
            assert(buf@ =~= start + input@.take(i as int));
        }
        if is_complete(buf) {
            proof {
                assert(ends_with_eoi(start + input@.take(i as int)));
                assert(forall|k: int| 1 <= k < i ==> !ends_with_eoi(#[trigger] (start + input@.take(k))));
            }
            return Ok(i);
        }
    }
    proof {
        assert(input@.take(i as int) =~= input@.take(input@.len() as int));
    }
    Ok(i)
}

/// Reads the first image of a stream that holds the bytes `stream` and then
/// ends, into `buf` emptied first: the bytes up to and with the first
/// end-of-image marker. A stream that ends before any marker gives `EOF`.
pub fn read_jpeg_with_buf(buf: Vec<u8>, stream: &[u8]) -> (r: Result<Vec<u8>, ReadJpegError>)
    ensures
        match r {
            Ok(v) => 1 <= v@.len() <= stream@.len() && v@ == stream@.take(v@.len() as int)
                && ends_with_eoi(v@) && forall|k: int|
                1 <= k < v@.len() ==> !ends_with_eoi(#[trigger] stream@.take(k)),
            Err(e) => e is EOF && forall|k: int|
                1 <= k <= stream@.len() ==> !ends_with_eoi(#[trigger] stream@.take(k)),
        },
{
    let mut buf = buf;
    buf.clear();
    let ghost empty = buf@;
    proof {
        assert forall|k: int| 0 <= k <= stream@.len() implies #[trigger] (empty + stream@.take(k))
            == stream@.take(k) by {
            assert(empty + stream@.take(k) =~= stream@.take(k));
        }
    }
    match read_jpeg_into_buf(&mut buf, stream) {
        Err(e) => {
            proof {
                assert forall|k: int| 1 <= k <= stream@.len() implies !ends_with_eoi(
                    #[trigger] stream@.take(k),
                ) by {}
            }
            Err(e)
        },
        Ok(n) => {
            proof {
                assert(buf@ == stream@.take(n as int));
                assert forall|k: int| 1 <= k < n implies !ends_with_eoi(#[trigger] stream@.take(k)) by {
                    assert(empty + stream@.take(k) == stream@.take(k));
                }
            }
            if is_complete(&buf) {
                Ok(buf)
            } else {
                proof {
                    assert(n == stream@.len());
                    assert forall|k: int| 1 <= k <= stream@.len() implies !ends_with_eoi(
                        #[trigger] stream@.take(k),
                    ) by {
                        if k < n {
                            assert(empty + stream@.take(k) == stream@.take(k));
                        }
                    }
                }
                Err(ReadJpegError::EOF)
            }
        },
    }
}

/// Whether the server can carry a stream of this format: JPEG images, one
/// after another.
pub fn is_jpeg_format(format: &str) -> (r: bool)
    ensures
        r == (format@ == "jpeg"@ || format@ == "mjpeg"@),
{
    let f = String::from_str(format);
    f == String::from_str("jpeg") || f == String::from_str("mjpeg")
}

} // verus!
