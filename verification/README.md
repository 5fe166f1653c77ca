# ubip_buffer

A single-producer single-consumer bip buffer over borrowed storage, verified with Verus.

The buffer is circular and split into a readable and a writable part. The writer
prepares a contiguous region, fills it and commits (a prefix of) it; the reader
takes the committed data in the order in which it was committed and consumes it,
which frees its space again.

Layout:

- `src/state.rs`: the model of a buffer (`BipState`), its well-formedness and one
  spec function per operation.
- `src/buffer.rs`: `BipBuffer` with its `BipBufferReader` and `BipBufferWriter`
  handles; every method's contract is stated over the model.
- `src/laws.rs`: proof functions for the properties that span operations, such as
  data that is written and committed being read back in order.
- `src/error.rs`: `CommitError` and `PrepareError`.

The handles hold no pointer to the buffer; their methods take it as an argument:

```rust
let mut storage = [0; 10];
let mut buffer = ubip_buffer::BipBuffer::new(&mut storage);
let (mut reader, mut writer) = buffer.take_reader_writer().unwrap();
writer.prepare(&mut buffer, 3).unwrap().copy_from_slice(&[1, 2, 3]);
writer.commit(&mut buffer, 3).unwrap();
assert_eq!(reader.values(&buffer), [1, 2, 3]);
reader.consume(&mut buffer, 1).unwrap();
assert_eq!(reader.values(&buffer), [2, 3]);
```
