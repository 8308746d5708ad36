# rmwrs

Moves files to a waste folder and writes a `.trashinfo` record for each
(FreeDesktop.org Trash specification). `src/` is the verified library:
percent-encoding of paths, the `.trashinfo` text, where records and moved
files go, and how the configuration and its `WASTE` lines are read.
`app/` is the program around it: the command line, the environment, the
clock and the file system.
