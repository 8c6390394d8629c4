# salsa_reader

A terminal reader for the `.txt` files of a directory: a file list on the
left, the selected file on the right, and an auto-scroll that moves through
the text at an adjustable speed.

The decisions of the reader are a library verified with Verus (`src/`):

- `config` — the auto-scroll delay and how F5/F6 change it;
- `order` — lexicographic order of texts;
- `files` — which directory entries are listed, under which title, in which order;
- `cycle` — stepping through themes and fonts;
- `screen` — the width of the file list and where the auto-scroll moves the cursor;
- `events` — which inputs the reader handles and what its commands do;
- `text` — decoding a file and reflowing its lines into paragraphs.

`app/main.rs` is the terminal program around it: it reads the directory and
the files, draws the widgets, runs the event loop and the timer, and hands the
library plain values.
