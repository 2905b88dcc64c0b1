# myknowledge

A local-first knowledge base: notes, grouped into contexts and labelled with
tags, kept as plain files. This crate is the verified core; `app/` is the `mk`
command-line program around it.

## Layout

- `src/text.rs` – whitespace trimming, lower-casing, substring search, the
  space-to-hyphen rewrite.
- `src/tag.rs`, `src/context.rs`, `src/note.rs` – the domain types and their
  constructors and updates; splitting a typed tag line.
- `src/search.rs` – the first element of a sequence that satisfies a predicate.
- `src/context_repo.rs` – where contexts are stored, and saving and looking
  them up in the stored list, with the laws that tie saving to looking up.
- `src/note_file.rs` – the note file format (YAML front matter between `---`
  markers, then Markdown) and the law that a written file reads back.
- `src/note_repo.rs` – where note files are stored and named, and the note
  queries (by context, tags, content, global search).
- `src/display.rs` – tag lists, previews and backup entries as text.
- `src/system.rs` – the clock, fresh identifiers and paths.
- `app/` – argument parsing, prompts, printing, reading and writing the files,
  and the serialisable copies of the domain types.
