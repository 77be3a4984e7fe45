# cyfs_meta

The metadata engine of a content-addressed file system, verified with Verus.

A tree of directories and files is kept as three tables: inodes, directory
entries and object statistics. Directories may lie over immutable directory
objects, files are written through buffers under a lease, and what is finished
becomes a named object. The library holds these tables, every rule by which a
request changes them, the caches in front of them, the transactions around
them, what a client of the service and a mounted file system decide, and the
bookkeeping of write buffers. Each function states what it returns and changes
over a mathematical view of the tables, and Verus proves it.

Nothing in the library reads a clock, a disk or a network. The time comes in as
an argument. Where a request needs an answer from the object store or the
buffer service it stops with a question; the caller answers it and repeats the
request. What alternates calls and decisions is a task that takes a reply and
says which call is next.

## Layout

| where | what |
| --- | --- |
| `src/records.rs`, `requests.rs`, `errors.rs` | the data and the requests |
| `src/tables.rs`, `tree.rs`, `stats.rs`, `leases.rs`, `columns.rs` | the tables, their rows on disk, and the basic changes |
| `src/ops.rs`, `moves.rs`, `writer.rs`, `listing.rs`, `ensure.rs`, `finalize.rs` | requests on paths and names |
| `src/paths.rs`, `resolve.rs`, `path_cache.rs`, `list_cache.rs` | path resolution and the caches |
| `src/service.rs`, `handlers.rs`, `rpc.rs` | the service: transactions and the network protocol |
| `src/client.rs`, `client_paths.rs` | what a client does between its calls |
| `src/buffer*.rs` | write buffers, from allocation to the named object |
| `src/daemon*.rs`, `inode_table.rs`, `xattrs.rs`, `errno.rs` | the mounted file system |
| `src/*_laws.rs` | what holds across functions |
| `src/text.rs`, `table.rs`, `names.rs`, `json.rs`, `outside.rs`, `committed.rs` | what the others are built from |
| `tests/` | the library run on concrete values |
| `app/` | the database, the protocol, the buffers on disk and the mount, around the library |

Three functions of the library are not proved but believed: the one that decodes
UTF-8 (`String::from_utf8`), the one that asks whether a text is JSON
(`serde_json::from_str`) and the one that puts a text between quotation marks
(`{:?}`).
