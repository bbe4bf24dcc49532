# mcpg-plugin-backend-ftp

FTP / FTPS file-integration backend (`kind: ftp`), with a Verus-verified core.
A binding lists a directory, reads a file or writes a file, over FTP with
explicit AUTH-TLS unless that is switched off, as an MCP tool or as MCP resources.
A second entity (`ftp_dir_poll`) watches a directory by polling it.

## Layout

- `src/` is the verified library. It holds every decision: which specs are
  acceptable, which path a call acts on, what is asked of the server and in which
  order, what is answered, what is audited, and when a watched directory counts as
  changed. Each public function has a contract; what spans several functions is
  stated by the proof functions named `law_..`.
- `app/` is the plugin around it: configuration, connections, timeouts, and the
  host's metrics and audit log.
- `tests/` runs the library on concrete values.

## What is relied upon

`src/outside.rs` holds the calls into other crates, each with the contract that is
believed of it: the `LIST` parsers of `suppaftp`, base64, the reading of a
request's JSON, and `std::str::from_utf8`. Nothing else in `src/` is taken on trust.

## What is proved

- A caller cannot climb out of the base directory (`law_calls_stay_under_base`).
- Where TLS is required, the password is sent after the upgrade
  (`law_tls_comes_before_login`).
- Only a `put` on the tool surface writes, and reads and writes keep to the cap
  (`law_only_put_writes_and_within_cap`, `law_capped_read_is_whole_or_refused`).
- A URI made from a path gives the path back, and the other way round
  (`law_filled_uri_gives_path_back`, `law_recovered_path_fills_uri_again`).
- A listed resource is read by its URI, and a failed call never looks like one that
  went well (`law_listed_resource_is_read_by_its_uri`,
  `law_answer_tells_success_from_failure`).
- What a read reports stands for the very bytes of the file, and can be written
  back (`decode_content`, `law_reported_content_can_be_put_back`).
- The fingerprint of a directory moves exactly when names or sizes do
  (`law_fingerprint_moves_with_names_and_printed_sizes`,
  `law_fingerprint_moves_with_names_and_sizes`).
