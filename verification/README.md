# tantivy-eml-dump

Recovers the e-mail in a Bichon data directory (v0.3.7 and earlier) into mbox files. The
messages are read out of the Tantivy index; where the databases `meta.db` and `mailbox.db` are
at hand, each message keeps its account and mailbox in an `X-Bichon-Metadata` header. The
messages of an account go to `{email}.mbox`, with `_` in place of characters that file names
cannot hold, or to `account_{id}.mbox` where only the id is known.

- `src/` holds the rules, verified with Verus: account records and their versions (`account`),
  mailboxes (`mailbox`), the choice of the account (`selection`) and of the mode (`startup`),
  the header (`metadata`, on `json` and `encoding`), file names, separator lines and records
  (`mbox`, `date`), what is fixed about an export (`plan`), the count of the accounts (`scan`),
  the course of an export (`export`), the walk over accounts (`walk`), and what it all leaves in
  the output directory, whatever fails (`directory`, `recovery`).
- `app/` is the command-line program around it: arguments, databases, index, files.
- `tests/` runs the library.

Trusted without proof are `String::push`, `str::trim`, `str::to_lowercase`, the encoding and
decoding of `base64`, the JSON text of optional strings by `serde_json`, and the date format of
`chrono`. Each is stated where it is declared.
