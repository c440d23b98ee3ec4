use std::iter;

use protobuf::wire_format;
use protobuf::writer::Write;
use protobuf::{CodedOutputStream, ProtobufResult};

fn decode_hex(hex: &str) -> Vec<u8> {
    hex.split_whitespace()
        .map(|byte| u8::from_str_radix(byte, 16).unwrap())
        .collect()
}

fn encode_hex(bytes: &[u8]) -> String {
    bytes
        .iter()
        .map(|byte| format!("{:02x}", byte))
        .collect::<Vec<_>>()
        .join(" ")
}

fn test_write<F>(expected: &str, mut gen: F)
where
    F: FnMut(&mut CodedOutputStream) -> ProtobufResult<()>,
{
    let expected_bytes = decode_hex(expected);

    // write to Write
    {
        let mut v = Vec::new();
        {
            let mut os = CodedOutputStream::new(&mut v);
            gen(&mut os).unwrap();
            os.flush().unwrap();
        }
        assert_eq!(encode_hex(&expected_bytes), encode_hex(&v));
    }

    // write to &[u8]
    {
        let mut r = Vec::with_capacity(expected_bytes.len());
        r.resize(expected_bytes.len(), 0);
        {
            let mut os = CodedOutputStream::bytes(&mut r);
            gen(&mut os).unwrap();
            assert_eq!(Some(true), os.at_eof());
            os.check_eof();
        }
        assert_eq!(encode_hex(&expected_bytes), encode_hex(&r));
    }

    // write to Vec<u8>
    {
        let mut r = Vec::new();
        r.extend(&[11, 22, 33, 44, 55, 66, 77]);
        {
            let mut os = CodedOutputStream::vec(&mut r);
            gen(&mut os).unwrap();
            os.flush().unwrap();
        }

        r.drain(..7);
        assert_eq!(encode_hex(&expected_bytes), encode_hex(&r));
    }
}

#[test]
fn test_output_stream_write_raw_byte() {
    test_write("a1", |os| os.write_raw_byte(0xa1));
}

#[test]
fn test_output_stream_write_tag() {
    test_write("08", |os| os.write_tag(1, wire_format::WireTypeVarint));
}

#[test]
fn test_output_stream_write_raw_bytes() {
    test_write("00 ab", |os| os.write_raw_bytes(&[0x00, 0xab]));

    let repeats = 2048;

    let expected = iter::repeat("01 02 03 04")
        .take(repeats)
        .collect::<Vec<_>>()
        .join(" ");
    test_write(&expected, |os| {
        for _ in 0..repeats {
            os.write_raw_bytes(&[0x01, 0x02, 0x03, 0x04])?;
        }

        Ok(())
    });
}

#[test]
fn test_output_stream_write_raw_varint32() {
    test_write("96 01", |os| os.write_raw_varint32(150));
    test_write("ff ff ff ff 0f", |os| os.write_raw_varint32(0xffffffff));
}

#[test]
fn test_output_stream_write_raw_varint64() {
    test_write("96 01", |os| os.write_raw_varint64(150));
    test_write("ff ff ff ff ff ff ff ff ff 01", |os| {
        os.write_raw_varint64(0xffffffffffffffff)
    });
}

#[test]
fn test_output_stream_write_int32_no_tag() {
    test_write("ff ff ff ff ff ff ff ff ff 01", |os| {
        os.write_int32_no_tag(-1)
    });
}

#[test]
fn test_output_stream_write_int64_no_tag() {
    test_write("ff ff ff ff ff ff ff ff ff 01", |os| {
        os.write_int64_no_tag(-1)
    });
}

#[test]
fn test_output_stream_write_raw_little_endian32() {
    test_write("f1 e2 d3 c4", |os| os.write_raw_little_endian32(0xc4d3e2f1));
}

#[test]
fn test_output_stream_write_float_no_tag() {
    test_write("95 73 13 61", |os| {
        os.write_raw_little_endian32(17e19f32.to_bits())
    });
}

#[test]
fn test_output_stream_write_double_no_tag() {
    test_write("40 d5 ab 68 b3 07 3d 46", |os| {
        os.write_raw_little_endian64(23e29f64.to_bits())
    });
}

#[test]
fn test_output_stream_write_raw_little_endian64() {
    test_write("f1 e2 d3 c4 b5 a6 07 f8", |os| {
        os.write_raw_little_endian64(0xf807a6b5c4d3e2f1)
    });
}

#[test]
fn test_output_stream_io_write() {
    let expected = [0x11, 0x22, 0x33, 0x44, 0x55, 0x66, 0x77];

    // write to Write
    {
        let mut v = Vec::new();
        {
            let mut os = CodedOutputStream::new(&mut v as &mut dyn Write);
            assert_eq!(7, os.write(&expected).expect("io::Write::write"));
            os.flush().expect("io::Write::flush");
        }
        assert_eq!(expected, *v);
    }

    // write to &[u8]
    {
        let mut v = Vec::with_capacity(expected.len());
        v.resize(expected.len(), 0);
        {
            let mut os = CodedOutputStream::bytes(&mut v);
            assert_eq!(7, os.write(&expected).expect("io::Write::write"));
            os.flush().expect("io::Write::flush");
            assert_eq!(Some(true), os.at_eof());
            os.check_eof();
        }
        assert_eq!(expected, *v);
    }

    // write to Vec<u8>
    {
        let mut v = Vec::new();
        {
            let mut os = CodedOutputStream::vec(&mut v);
            assert_eq!(7, os.write(&expected).expect("io::Write::write"));
            os.flush().expect("io::Write::flush");
        }
        assert_eq!(expected, *v);
    }
}
