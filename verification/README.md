# invoice_tool

A reimbursement helper: it reads the fields of Chinese e-invoices (kind,
issue date, number, amount, buyer, item) from the text `pdftotext` extracts
from their PDF files, groups invoices onto reimbursement covers by owner and
buyer, plans how invoice pages are merged two to an A4 page, and checks the
item-name mapping that assigns expense categories.

Layout:

- `src/` — the library, written in Verus. Every function there carries a
  contract that Verus proves. The regular expressions, Unicode
  normalization and GBK decoding come from the `regex`,
  `unicode-normalization` and `encoding_rs` crates through the small trusted
  wrappers in `src/bindings.rs`, whose contracts name what those crates
  compute.
- `app/` — ordinary Rust around the library: reading folders, running
  `pdftotext`, `pdftocairo` and the Python scripts, rendering pages with
  `image` and `printpdf`, reading PDFs with `lopdf`, and the JSON files of
  the configuration.
- `tests/` — tests of the library on concrete values.
