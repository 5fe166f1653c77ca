use ubip_buffer::{BipBuffer, CommitError, PrepareError};

#[test]
fn singleton_reader_writer() {
    let expected = [10, 20, 30, 40];
    let mut buffer = expected;
    let mut bip_buffer = BipBuffer::new(&mut buffer);
    let (_, _) = bip_buffer.take_reader_writer().unwrap();
    assert!(bip_buffer.take_reader_writer().is_none());
}

#[test]
fn single_produce_consume() {
    let expected = [10, 20, 30, 40];
    let mut buffer = expected;
    let mut bip_buffer = BipBuffer::new(&mut buffer);
    let (mut reader, mut writer) = bip_buffer.take_reader_writer().unwrap();

    for x in &expected {
        assert_eq!(reader.values(&bip_buffer).len(), 0);

        let prepared = writer.prepare(&mut bip_buffer, 1).unwrap();
        prepared[0] = *x;
        assert_eq!(reader.values(&bip_buffer).len(), 0);
        assert!(writer.commit(&mut bip_buffer, 1).is_ok());

        let buf = reader.values(&bip_buffer);
        assert_eq!(buf.len(), 1);
        assert_eq!(buf[0], *x);

        reader.consume(&mut bip_buffer, 1).unwrap();
        let buf = reader.values(&bip_buffer);
        assert_eq!(buf.len(), 0);
    }
}

#[test]
fn cannot_prepare_more_than_once() {
    let expected = [10, 20, 30, 40];
    let mut buffer = expected;
    let mut bip_buffer = BipBuffer::new(&mut buffer);
    let (mut _reader, mut writer) = bip_buffer.take_reader_writer().unwrap();

    writer.prepare(&mut bip_buffer, expected.len()).unwrap();

    assert_eq!(
        match writer.prepare(&mut bip_buffer, 1) {
            Err(PrepareError::UncommitedData { amount }) => amount,
            _ => 255,
        },
        expected.len()
    );
}

#[test]
fn prepare_wraps() {
    let expected = [10, 20, 30, 40];
    let mut buffer = expected;
    let mut bip_buffer = BipBuffer::new(&mut buffer);
    let (mut reader, mut writer) = bip_buffer.take_reader_writer().unwrap();

    assert!(writer.prepare(&mut bip_buffer, expected.len()).is_ok());
    assert!(writer.commit(&mut bip_buffer, expected.len()).is_ok());
    assert_eq!(reader.values(&bip_buffer).len(), expected.len());
    assert_eq!(
        writer.prepare(&mut bip_buffer, 1).err().unwrap(),
        PrepareError::NoRoom { max_available: 0 }
    );

    // Need to consume 2 to leave room for one non-written value
    reader.consume(&mut bip_buffer, 2).unwrap();
    let buf = writer.prepare(&mut bip_buffer, 1).unwrap();
    assert_eq!(buf[0], expected[0]);
    writer.commit(&mut bip_buffer, 1).unwrap();
    assert_eq!(reader.values(&bip_buffer).len(), expected.len() - 2);

    reader.consume(&mut bip_buffer, expected.len() - 2).unwrap();
    assert_eq!(reader.values(&bip_buffer).len(), 1);
    writer.prepare(&mut bip_buffer, expected.len() - 1).unwrap();
    writer.commit(&mut bip_buffer, expected.len() - 1).unwrap();
    assert_eq!(reader.values(&bip_buffer).len(), expected.len());
}

#[test]
fn insert_watermark() {
    let expected = [10, 20, 30, 40, 50];
    let mut buffer = expected;
    let mut bip_buffer = BipBuffer::new(&mut buffer);
    let (mut reader, mut writer) = bip_buffer.take_reader_writer().unwrap();

    assert!(writer.prepare(&mut bip_buffer, 4).is_ok());
    writer.commit(&mut bip_buffer, 4).unwrap();
    reader.consume(&mut bip_buffer, 4).unwrap();
    assert!(writer.prepare(&mut bip_buffer, 2).is_ok());
    writer.commit(&mut bip_buffer, 2).unwrap();
    assert_eq!(reader.values(&bip_buffer).len(), 2);
    assert_eq!(*reader.values(&bip_buffer), expected[0..2]);
}

#[test]
fn single_produce_multi_consume() {
    let expected = [10, 20, 30, 40];
    let mut buffer = expected;
    let mut bip_buffer = BipBuffer::new(&mut buffer);
    let (mut reader, mut writer) = bip_buffer.take_reader_writer().unwrap();

    assert_eq!(reader.values(&bip_buffer).len(), 0);

    assert!(writer.prepare(&mut bip_buffer, expected.len()).is_ok());
    writer.commit(&mut bip_buffer, expected.len()).unwrap();
    let buf = reader.values(&bip_buffer);
    assert_eq!(buf.len(), expected.len());
    assert_eq!(*buf, expected);

    reader.consume(&mut bip_buffer, 1).unwrap();
    let buf = reader.values(&bip_buffer);
    assert_eq!(buf.len(), expected.len() - 1);
    assert_eq!(*buf, expected[1..]);

    reader.consume(&mut bip_buffer, 1).unwrap();
    let buf = reader.values(&bip_buffer);
    assert_eq!(buf.len(), expected.len() - 2);
    assert_eq!(*buf, expected[2..]);

    reader.consume(&mut bip_buffer, 1).unwrap();
    let buf = reader.values(&bip_buffer);
    assert_eq!(buf.len(), expected.len() - 3);
    assert_eq!(*buf, expected[3..]);

    reader.consume(&mut bip_buffer, 1).unwrap();
    let buf = reader.values(&bip_buffer);
    assert_eq!(buf.len(), 0);
}

#[test]
fn prepare_max() {
    let expected = [10, 20, 30, 40, 50];
    let mut buffer = expected;
    let mut bip_buffer = BipBuffer::new(&mut buffer);
    let (mut reader, mut writer) = bip_buffer.take_reader_writer().unwrap();

    let expect_all = writer.prepare_max(&mut bip_buffer).unwrap().len();
    assert_eq!(expect_all, expected.len());
    writer.commit(&mut bip_buffer, expect_all).unwrap();
    reader.consume(&mut bip_buffer, expect_all).unwrap();

    let expect_before_read = writer.prepare_max(&mut bip_buffer).unwrap().len();
    assert_eq!(expect_before_read, writer.capacity(&bip_buffer) - 1);
    writer.commit(&mut bip_buffer, expect_before_read).unwrap();
    reader.consume(&mut bip_buffer, expect_before_read).unwrap();

    let prepared = writer.prepare_trailing(&mut bip_buffer).unwrap().len();
    writer.commit(&mut bip_buffer, prepared).unwrap();
    reader.consume(&mut bip_buffer, prepared).unwrap();

    // Prepare 4 elements to move write to index_of(40), then consume 4 elements
    // this moves read to index_of(40) as well, then prepare max which should set watermark to index_of(40)
    // and give [0..3]
    writer.prepare(&mut bip_buffer, 4).unwrap();
    writer.commit(&mut bip_buffer, 4).unwrap();
    reader.consume(&mut bip_buffer, 4).unwrap();

    let prepared = writer.prepare_max(&mut bip_buffer).unwrap();
    let prepared_len = prepared.len();
    assert_eq!(prepared.len(), 3);
    assert_eq!(prepared[0], 10);
    writer.commit(&mut bip_buffer, prepared_len).unwrap();

    let read = reader.values(&bip_buffer);
    assert_eq!(read.len(), 3);
    assert_eq!(read[0], 10);
    reader.consume(&mut bip_buffer, 3).unwrap();

    let rest = writer.prepare_trailing(&mut bip_buffer).unwrap().len();
    writer.commit(&mut bip_buffer, rest).unwrap();
    let rest = writer.prepare(&mut bip_buffer, 1).unwrap();
    let rest_len = rest.len();
    assert_eq!(rest[0], 10);
    writer.commit(&mut bip_buffer, rest_len).unwrap();

    assert_eq!(reader.values(&bip_buffer)[0], 40);
    assert_eq!(reader.values(&bip_buffer).len(), 2);

    let rest = writer.prepare_max(&mut bip_buffer).unwrap();
    assert_eq!(rest.len(), 1);
    assert_eq!(rest[0], 20);
    writer.commit(&mut bip_buffer, 1).unwrap();
}
