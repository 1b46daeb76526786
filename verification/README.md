# tcio

Utilities for raw bytes and asynchronous IO, verified with Verus.

- `src/` is the verified library:
  - `bytes`: `Bytes` (shared, cheaply cloned and sliced bytes), `BytesMut` (a growable buffer
    that splits and reclaims capacity), `ByteStr`, the `Buf`, `BufMut` and `BytesExt` traits
    with their adaptors `Chain` and `Take`, cursors, integer decoding and address ranges;
  - `num` and `atoi`: parsing ASCII digits into integers;
  - `slice`: a cursor with byte search;
  - `fmt`: the escaped text of bytes;
  - `either`: the `Either` and `EitherMap` types;
  - `io`, `io_task` and `sync`: the decisions of the buffered reader cursor, of the IO task, and
    of the `Recall` cell.
- `app/` drives them: IO over tokio streams, the IO task future and its handles, the `Recall`
  cell, `Display` of bytes and future adaptors.
- `tests/` runs the library on concrete values.
