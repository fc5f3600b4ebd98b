# sibling

Get the next/previous sibling directory: the directories that share one parent,
traversed by `first`, `last`, `next`, `previous`, `random`, and `keep`.

The library (`src/`) is verified with Verus:

- `dirs`: the target directories (`Dirs`), a directory among them (`Dir`), and
  the traversing (`Nextable`), with the position before the first directory
  for the unknown current one;
- `factory`: building `Dirs` of a listed base directory, or of a list of
  directories, from what the caller read of the file system;
- `printer` and `command`: what the command prints in each format, its exit
  status, and the decisions on its arguments;
- `minisib`: the arguments of the minimal form of the command;
- `nexter`, `error`, `text`, `path`: the kinds of traversing, the errors and
  their messages, and the text and path utilities;
- `laws`: the properties that relate the operations.

The command (`app/`) parses the arguments, reads the file system, and prints.
