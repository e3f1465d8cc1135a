# pr_attribution

Attributes GitHub pull requests to terminal sessions, and lets the user correct the
attribution by hand.

Every session has a record file, named by the session's uuid in hexadecimal. A line of
it holds the URL of a pull request, which may be followed by a tab and a title. The
shared model holds what the files of the directory record; the "Assign PRs" modal adds
and removes the URLs of one session.

- `src/` is the library, verified with Verus:
  - `text`: lines, fields and trimming;
  - `record`: reading a record file, and how adding and removing a URL change it;
  - `session_key`: uuids in hexadecimal;
  - `attribution`: the model;
  - `modal`: the modal as a state machine. Each operation returns the effects that the
    application has to carry out;
  - `record_laws`, `laws`: what holds of these together.
- `tests/` runs the library on concrete values.
- `app/` does the input and output: the directory, its watcher, and the view.
