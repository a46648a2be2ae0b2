# juicehost

The file storage and delivery service of Juicebox: uploads to local disk or S3-compatible storage,
HTTP range requests, ETags, upload tickets, per-file capabilities.

`src/` is the library, verified with Verus. It holds the decisions of the service, but for those on
kinds of files, proxies and bans, which `juiceutils` makes. What touches the disk, the network or
the clock is described by state machines, which say what is to be done next and take the outcome as
an event.

| Module | Contents |
|--------|----------|
| `text`, `secrets` | text primitives, comparison of secrets |
| `config` | settings read from an environment |
| `storage::names` | IDs, file names, extensions |
| `storage::local`, `local_write`, `local_ops` | the local disk: index, uploads, concatenations, deletions, renames, ranges |
| `storage::local_disk`, `rename_disk` | a model of the disk: uploads, concatenations and renames are read back |
| `storage::s3`, `s3_write` | an object store: keys, lookups, uploads, concatenations, renames |
| `storage::s3_objects`, `s3_race` | a model of the object store: uploads, concatenations and renames are read back, and of two writers of an ID one succeeds |
| `storage::capability`, `tables`, `content` | capabilities, in-memory tables, MIME types |
| `ticket` | upload tickets |
| `handlers` | authentication, ranges, serving, uploads, management requests |
| `server`, `state`, `ban`, `startup` | routes, shared settings, bans, startup |

`app/` is the program around it: `main`, axum, tokio, the object store client and the calls into
`juiceutils`, which comes as a Git submodule.

The functions marked `external_body`, the `assume_specification` items and the functions without a
body are trusted: each says in its comment what it claims of the function it calls.

`tests/` runs the library against an in-memory disk and an in-memory object store.
