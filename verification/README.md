# wordtohtml

A command-line tool that converts a Microsoft Word `.docx` document into clean,
minimal HTML, and the verified library that does the conversion.

The library under `src/` is written in Verus: each public function states what
it returns in its contract, and the properties that hold across functions are
stated and proved as proof functions (`law_*`).

| Module | What it holds |
| --- | --- |
| `text` | character-sequence utilities: trimming, searching, replacing, number parsing |
| `symbols` | the `w:sym` glyph tables of Symbol, Wingdings 1–3 and Webdings |
| `escape` | escaping text for HTML content and attributes |
| `styles` | recognising headings, preformatted and code styles, monospace fonts |
| `layout` | merging adjacent formatting, line wrapping, the single-line form, the document around the fragment |
| `xml` | the XML events the converter reads, read with quick-xml |
| `assoc` | association lists and the maps they stand for |
| `tables` | `document.xml.rels` (hyperlink targets) and `numbering.xml` (list kinds) |
| `convert` | the single pass over `document.xml` that produces the HTML |
| `invariants` | what every step of that pass keeps |
| `cli` | the command-line options |

`app/main.rs` is the program around it: it reads the archive (zip), hands the
parts to the library, and writes the result to a file or the clipboard.

```sh
wordtohtml [-o|--output] [-w|--wrap <columns>] <path-to-docx>
```
