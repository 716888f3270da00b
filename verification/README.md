# kingfisher

The rules of a scanner for secrets, written in Rust and verified with Verus.

- `src/` is the library. Its functions carry contracts, and Verus proves them, but for those on calls
  into other crates and the standard library (see below).
  - `cli` - what the command line asks for.
  - `filesystem` - how a walk over the file system is set up, and what of each entry is passed on.
  - `failure` - errors with the causes behind them.
  - `gitlab` - which repositories a GitLab query names.
  - `liquid_filters` - the filters for templates of HTTP requests.
  - `scanner` - the stages of a scan (`runner`), what precedes them (`setup`), and how findings get
    to the datastore (`channel`, `writer`).
  - `validation::gcp` - how service-account credentials of Google Cloud are put to the test.
  - `digest`, `encoding`, `order`, `text` - digests, encodings, the order of strings, and small
    operations on texts.
- `app/` is the ordinary Rust around the library: it reads files, talks to servers and runs threads,
  and does what the library tells it to.
- `tests/` runs the library.

Work that waits on the outside world is driven step by step. The library holds the state: it takes up
what has happened and says what is to be done next. `gitlab::Enumeration`, `scanner::runner::Scan` and
`scanner::writer::DatastoreWriter` work in this way, and public proof functions whose names begin with
`law_` state what holds of whole runs.

Calls into other crates stand behind small functions marked `#[verifier::external_body]`, or have their
contracts in `assume_specification` items. What these contracts claim is not proved, and the comment
above each of them says what that is. Some of these calls can still panic for reasons that no argument
shows: where the system gives no randomness, where its clock stands before 1970, or where the clock
lies outside the dates that the crate in question can hold. Their comments say so too.
