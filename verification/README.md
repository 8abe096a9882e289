# unishare

A small networked file system. The library in `src/` holds the logic, each
part with its contract proved by Verus:

- `transport`: the wire frames (length, id, payload), the buffer that cuts a
  byte stream into frames, message ids, and the routing of replies to the
  requests that await them;
- `storage`: inode keys, directory records, inode allocation, the search of a
  directory by name, and how writes grow files;
- `store`: the store as a whole, its invariant, and the laws that creating a
  file keeps the invariant and that a created file is found by lookup;
- `server` and `client`: how requests are dispatched and answered, and how
  replies become the answers of the FUSE file system;
- `common`: the metadata and the messages shared by both sides;
- `bytes`: big-endian integers and decimal text.

`app/` holds the programs around it: the server and the FUSE client, the
TCP connection, the sled database and the data files.
