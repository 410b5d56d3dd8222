# mylib

Batch renaming of the files in a Baidu Netdisk directory, with the renaming
rules, the stored credentials and the dialogues proved correct in Verus.

- `src/text.rs`: Unicode trimming, splitting on a separator, byte searches in
  UTF-8 text, and the lemmas on UTF-8 encodings that the other modules use.
- `src/file_rename.rs`: directory listings, episode names built from a tagged
  example name, extension changes, the rename requests, the listing URL and
  the laws of the renaming rules.
- `src/file_mgmt_operation.rs`: the file management API's answer and outcome.
- `src/init.rs`: the user file of tokens, the authorization URLs, and the
  start-up dialogue as a state machine.
- `src/session.rs`: the main menu dialogue as a state machine.
- `app/`: the command-line program that runs both dialogues against the
  terminal, the user file and the Baidu APIs.
- `tests/`: tests of the library on concrete values.
