use std::cell::{Cell, RefCell};
use std::io;
use std::rc::Rc;

use protobuf::endian::{little_endian_32, little_endian_64};
use protobuf::error::IoError;
use protobuf::signed::{bits_32, bits_64};
use protobuf::varint::{encode_varint32, encode_varint64};
use protobuf::writer::Write;
use protobuf::zigzag::{encode_zig_zag_32, encode_zig_zag_64};
use protobuf::{CodedOutputStream, ProtobufError, ProtobufResult, WithCodedOutputStream};

/// A writer that takes a number of bytes, and notes what it is handed. Its clones are the same
/// writer, so that one can look on while a stream has another.
#[derive(Clone)]
struct Limited {
    asked: Rc<RefCell<Vec<Vec<u8>>>>,
    taken: Rc<RefCell<Vec<u8>>>,
    space: Rc<Cell<usize>>,
}

impl Limited {
    fn new(space: usize) -> Limited {
        Limited {
            asked: Rc::new(RefCell::new(Vec::new())),
            taken: Rc::new(RefCell::new(Vec::new())),
            space: Rc::new(Cell::new(space)),
        }
    }

    /// How many bytes each call handed over.
    fn calls(&self) -> Vec<usize> {
        self.asked.borrow().iter().map(|buf| buf.len()).collect()
    }

    fn asked(&self, call: usize) -> Vec<u8> {
        self.asked.borrow()[call].clone()
    }

    fn taken(&self) -> Vec<u8> {
        self.taken.borrow().clone()
    }
}

impl Write for Limited {
    fn write_all(&mut self, buf: &[u8]) -> Result<(), io::Error> {
        self.asked.borrow_mut().push(buf.to_vec());
        let count = buf.len().min(self.space.get());
        self.taken.borrow_mut().extend_from_slice(&buf[..count]);
        self.space.set(self.space.get() - count);
        if count < buf.len() {
            Err(io::Error::new(io::ErrorKind::WriteZero, "full"))
        } else {
            Ok(())
        }
    }
}

fn is_full(result: ProtobufResult<()>) -> bool {
    match result {
        Err(ProtobufError::IoError(IoError::Writer(error))) => {
            error.kind() == io::ErrorKind::WriteZero
        }
        _ => false,
    }
}

#[test]
fn writer_is_not_asked_before_the_buffer_is_full() {
    let w = Limited::new(0);
    let mut target = w.clone();
    let mut os = CodedOutputStream::new(&mut target);
    os.write_raw_bytes(&[1; 8000]).unwrap();
    for _ in 0..192 {
        os.write_raw_byte(2).unwrap();
    }
    assert_eq!(0, w.calls().len());
    assert!(is_full(os.write_raw_byte(3)));
    assert_eq!(w.calls(), [8192]);
    assert_eq!(0, w.taken().len());
    assert!(is_full(os.close()));
}

#[test]
fn writer_is_not_asked_for_anything_that_fits() {
    let w = Limited::new(100_000);
    let mut target = w.clone();
    let mut os = CodedOutputStream::new(&mut target);
    os.write_raw_varint32(u32::MAX).unwrap();
    os.write_raw_varint64(u64::MAX).unwrap();
    os.write_string(1, "ab").unwrap();
    os.write_sint32(2, -1).unwrap();
    os.write_bytes(3, &[1; 8100]).unwrap();
    os.write_raw_bytes(&[]).unwrap();
    assert_eq!(0, w.calls().len());
    os.close().unwrap();
    assert_eq!(w.calls(), [5 + 10 + 4 + 2 + 3 + 8100]);
}

#[test]
fn writer_gets_the_buffer_and_then_more() {
    let w = Limited::new(100_000);
    let mut target = w.clone();
    let mut os = CodedOutputStream::new(&mut target);
    os.write_raw_byte(1).unwrap();
    os.write_raw_bytes(&[2; 8191]).unwrap();
    os.write_raw_bytes(&[3; 8191]).unwrap();
    os.write_raw_byte(4).unwrap();
    assert_eq!(w.calls(), [8192]);
    assert_eq!(1, w.taken()[0]);
    assert_eq!(2, w.taken()[8191]);
    os.close().unwrap();
    assert_eq!(w.calls(), [8192, 8192]);
    assert_eq!(3, w.taken()[8192]);
    assert_eq!(4, w.taken()[16383]);
}

#[test]
fn large_writes_go_past_the_buffer() {
    let w = Limited::new(100_000);
    let mut target = w.clone();
    let mut os = CodedOutputStream::new(&mut target);
    os.write_raw_byte(1).unwrap();
    os.write_raw_bytes(&[2; 8192]).unwrap();
    assert_eq!(w.calls(), [1, 8192]);
    assert_eq!(w.asked(0), [1]);
    assert_eq!(w.asked(1), [2; 8192]);
    os.close().unwrap();
}

#[test]
fn flush_hands_all_pending_bytes_over_in_one_call() {
    let w = Limited::new(100_000);
    let mut target = w.clone();
    let mut os = CodedOutputStream::new(&mut target);
    os.write_raw_byte(1).unwrap();
    os.write_raw_bytes(&[2, 3]).unwrap();
    os.flush().unwrap();
    assert_eq!(w.calls(), [3]);
    assert_eq!(w.asked(0), [1, 2, 3]);
    os.flush().unwrap();
    assert_eq!(w.calls(), [3, 0]);
    os.write_raw_byte(4).unwrap();
    os.close().unwrap();
    assert_eq!(w.calls(), [3, 0, 1]);
    assert_eq!(w.asked(2), [4]);
}

#[test]
fn varints_cross_the_end_of_the_buffer() {
    let w = Limited::new(100_000);
    let mut target = w.clone();
    let mut os = CodedOutputStream::new(&mut target);
    os.write_raw_bytes(&[0; 8190]).unwrap();
    os.write_raw_varint32(u32::MAX).unwrap();
    os.write_raw_bytes(&[0; 8180]).unwrap();
    os.write_raw_varint64(u64::MAX).unwrap();
    os.close().unwrap();
    let taken = w.taken();
    assert_eq!(8190 + 5 + 8180 + 10, taken.len());
    assert_eq!(taken[8190..8195], [0xff, 0xff, 0xff, 0xff, 0x0f]);
    assert_eq!(
        taken[16375..],
        [0xff, 0xff, 0xff, 0xff, 0xff, 0xff, 0xff, 0xff, 0xff, 0x01]
    );
}

#[test]
fn refused_bytes_stay_pending() {
    let w = Limited::new(2);
    let mut target = w.clone();
    let mut os = CodedOutputStream::new(&mut target);
    os.write_raw_bytes(&[1, 2, 3]).unwrap();
    assert!(is_full(os.flush()));
    assert!(is_full(os.close()));
    assert_eq!(w.taken(), [1, 2]);
    assert_eq!(w.calls(), [3, 3]);
}

#[test]
fn bytes_that_were_taken_stay_pending_if_an_error_is_reported() {
    /// A writer that takes everything, and reports an error the first time.
    struct Late {
        taken: Vec<u8>,
        calls: usize,
    }

    impl Write for Late {
        fn write_all(&mut self, buf: &[u8]) -> Result<(), io::Error> {
            self.calls += 1;
            self.taken.extend_from_slice(buf);
            if self.calls == 1 {
                Err(io::Error::new(io::ErrorKind::WriteZero, "late"))
            } else {
                Ok(())
            }
        }
    }

    let mut w = Late {
        taken: Vec::new(),
        calls: 0,
    };
    let mut os = CodedOutputStream::new(&mut w);
    os.write_raw_byte(1).unwrap();
    assert!(is_full(os.write_raw_bytes(&[2; 9000])));
    os.close().unwrap();
    assert_eq!(w.taken, [1, 1]);
}

#[test]
fn direct_writes_can_be_refused() {
    let w = Limited::new(3);
    let mut target = w.clone();
    let mut os = CodedOutputStream::new(&mut target);
    os.write_raw_byte(1).unwrap();
    assert!(is_full(os.write_raw_bytes(&[2; 9000])));
    os.close().unwrap();
    assert_eq!(w.calls(), [1, 9000, 0]);
    assert_eq!(w.taken(), [1, 2, 2]);
}

/// What two streams over slices of this length, filled with the same bytes, end in.
fn over_slices<F, G>(length: usize, one: F, other: G) -> bool
where
    F: FnOnce(&mut CodedOutputStream) -> ProtobufResult<()>,
    G: FnOnce(&mut CodedOutputStream) -> ProtobufResult<()>,
{
    let mut first = vec![9u8; length];
    let mut second = vec![9u8; length];
    let written = one(&mut CodedOutputStream::bytes(&mut first)).is_ok();
    assert_eq!(
        written,
        other(&mut CodedOutputStream::bytes(&mut second)).is_ok()
    );
    assert_eq!(first, second);
    written
}

/// What two streams over writers end in that have this space, and buffers with this many bytes.
fn over_writers<F, G>(space: usize, pending: usize, one: F, other: G) -> bool
where
    F: FnOnce(&mut CodedOutputStream<'_, Limited>) -> ProtobufResult<()>,
    G: FnOnce(&mut CodedOutputStream<'_, Limited>) -> ProtobufResult<()>,
{
    let filler = vec![7u8; pending];
    let first = Limited::new(space);
    let second = Limited::new(space);
    let mut target = first.clone();
    let mut os = CodedOutputStream::new(&mut target);
    os.write_raw_bytes(&filler).unwrap();
    let written = one(&mut os).is_ok();
    let mut other_target = second.clone();
    let mut other_os = CodedOutputStream::new(&mut other_target);
    other_os.write_raw_bytes(&filler).unwrap();
    assert_eq!(written, other(&mut other_os).is_ok());
    assert_eq!(first.calls(), second.calls());
    assert_eq!(os.close().is_ok(), other_os.close().is_ok());
    assert_eq!(first.calls(), second.calls());
    assert_eq!(first.taken(), second.taken());
    written
}

#[test]
fn byte_is_written_as_bytes() {
    for length in 0..3 {
        let written = over_slices(
            length,
            |os| os.write_raw_byte(5),
            |os| os.write_raw_bytes(&[5]),
        );
        assert_eq!(length >= 1, written);
    }
    for space in [0, 8192, 10_000] {
        assert!(over_writers(
            space,
            8191,
            |os| os.write_raw_byte(5),
            |os| os.write_raw_bytes(&[5]),
        ));
    }
    // with a full buffer the writer is asked
    for (space, expected) in [(0, false), (8191, false), (8192, true), (8193, true)] {
        let written = over_writers(
            space,
            8191,
            |os| {
                os.write_raw_byte(6)?;
                os.write_raw_byte(5)
            },
            |os| {
                os.write_raw_bytes(&[6])?;
                os.write_raw_bytes(&[5])
            },
        );
        assert_eq!(expected, written);
    }
}

#[test]
fn varints_of_either_width_are_written_alike() {
    for (value, size) in [(0u32, 1), (127, 1), (128, 2), (70_000, 3), (u32::MAX, 5)] {
        for length in 0..12 {
            let written = over_slices(
                length,
                |os| os.write_raw_varint32(value),
                |os| os.write_raw_varint64(value as u64),
            );
            assert_eq!(size <= length, written);
        }
        for pending in 8180..8192 {
            for space in [0, 8190, 100_000] {
                let written = over_writers(
                    space,
                    pending,
                    |os| os.write_raw_varint32(value),
                    |os| os.write_raw_varint64(value as u64),
                );
                assert_eq!(pending + size <= 8192 || pending <= space, written);
            }
        }
    }
}

#[test]
fn slice_takes_what_fits() {
    let mut bytes = [9u8; 3];
    {
        let mut os = CodedOutputStream::bytes(&mut bytes);
        assert_eq!(Some(false), os.at_eof());
        match os.write_uint32(1, 70_000) {
            Err(ProtobufError::IoError(IoError::Other(message))) => {
                assert_eq!("given slice is too small to serialize the message", message)
            }
            _ => panic!("must not fit"),
        }
        // the tag was written
        os.write_raw_bytes(&[5, 6]).unwrap();
        assert_eq!(Some(true), os.at_eof());
        os.check_eof();
        os.write_raw_bytes(&[]).unwrap();
        assert!(os.write_raw_byte(0).is_err());
        os.flush().unwrap();
    }
    assert_eq!(bytes, [8, 5, 6]);
}

#[test]
fn slice_keeps_its_unused_rest() {
    let mut bytes = [9u8; 12];
    {
        let mut os = CodedOutputStream::bytes(&mut bytes);
        os.write_raw_varint64(300).unwrap();
        os.close().unwrap();
    }
    assert_eq!(bytes, [0xac, 0x02, 9, 9, 9, 9, 9, 9, 9, 9, 9, 9]);
}

#[test]
fn only_slices_have_an_end() {
    let mut v: Vec<u8> = Vec::new();
    assert_eq!(None, CodedOutputStream::vec(&mut v).at_eof());
    assert_eq!(None, CodedOutputStream::new(&mut v).at_eof());
}

#[test]
fn with_a_stream_over_a_vector() {
    let mut v = vec![1];
    let result = (&mut v).with_coded_output_stream(|os| {
        os.write_raw_byte(2)?;
        Ok(17)
    });
    assert_eq!(17, result.unwrap());
    assert_eq!(v, [1, 2]);

    let failed: ProtobufResult<()> = (&mut v).with_coded_output_stream(|os| {
        os.write_raw_byte(3)?;
        Err(ProtobufError::MessageNotInitialized("Sample".to_string()))
    });
    assert!(failed.is_err());
    assert_eq!(v, [1, 2, 3]);
}

#[test]
fn with_a_stream_over_a_writer() {
    let mut w = Limited::new(2);
    let result = (&mut w as &mut dyn Write).with_coded_output_stream(|os| {
        os.write_raw_byte(2)?;
        Ok(17)
    });
    assert_eq!(17, result.unwrap());
    assert_eq!(w.taken(), [2]);

    let refused = (&mut w as &mut dyn Write).with_coded_output_stream(|os| {
        os.write_raw_bytes(&[3, 4])
    });
    assert!(is_full(refused));
    assert_eq!(w.taken(), [2, 3]);
}

/// A writer that refuses everything, each time with another error.
struct Refusing {
    calls: i32,
}

impl Write for Refusing {
    fn write_all(&mut self, _buf: &[u8]) -> Result<(), io::Error> {
        self.calls += 1;
        Err(io::Error::from_raw_os_error(self.calls))
    }
}

#[test]
fn with_a_stream_the_error_of_the_flush_comes_before_that_of_closing() {
    let mut w = Refusing { calls: 0 };
    let result = (&mut w as &mut dyn Write).with_coded_output_stream(|os| os.write_raw_byte(3));
    match result {
        Err(ProtobufError::IoError(IoError::Writer(error))) => {
            assert_eq!(Some(1), error.raw_os_error())
        }
        _ => panic!("must be refused"),
    }
    assert_eq!(2, w.calls);
}

#[test]
fn with_a_stream_an_error_of_the_function_comes_first() {
    let mut w = Limited::new(1);
    let result: ProtobufResult<()> = (&mut w as &mut dyn Write).with_coded_output_stream(|os| {
        os.write_raw_bytes(&[3, 4])?;
        Err(ProtobufError::MessageNotInitialized("Sample".to_string()))
    });
    assert!(matches!(
        result,
        Err(ProtobufError::MessageNotInitialized(_))
    ));
    assert_eq!(w.taken(), [3]);
}

#[test]
fn encodings() {
    let mut buf = [0u8; 12];
    assert_eq!(2, encode_varint32(150, &mut buf));
    assert_eq!(buf[..3], [0x96, 0x01, 0]);
    assert_eq!(10, encode_varint64(u64::MAX, &mut buf));
    assert_eq!(1, encode_varint64(0, &mut buf[..1]));
    assert_eq!(buf[..2], [0, 0xff]);
    assert_eq!(little_endian_32(0x01020304), [4, 3, 2, 1]);
    assert_eq!(little_endian_64(0x0102030405060708), [8, 7, 6, 5, 4, 3, 2, 1]);
    assert_eq!(bits_32(-1), u32::MAX);
    assert_eq!(bits_64(-2), u64::MAX - 1);
    assert_eq!(encode_zig_zag_32(-3), 5);
    assert_eq!(encode_zig_zag_32(i32::MAX), u32::MAX - 1);
    assert_eq!(encode_zig_zag_64(i64::MIN), u64::MAX);
}

#[test]
fn varints_read_back() {
    for value in [0u64, 1, 127, 128, 300, 16383, 16384, u32::MAX as u64, u64::MAX] {
        let mut v: Vec<u8> = Vec::new();
        CodedOutputStream::vec(&mut v).write_raw_varint64(value).unwrap();
        v.push(0x55);
        let mut read: u64 = 0;
        let mut length = 0;
        loop {
            let byte = v[length];
            read |= ((byte & 0x7f) as u64) << (7 * length);
            length += 1;
            if byte < 0x80 {
                break;
            }
        }
        assert_eq!(value, read);
        assert_eq!(v.len(), length + 1);
    }
}
