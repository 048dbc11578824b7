# tinct

Image/color → Material You theming engine: seed extraction, scheme and
palette assembly, terminal color harmonization, palette transforms, output
formats and a matugen-compatible template renderer.

The library under `src/` is written in Verus; every function there carries a
contract. The verified functions are proved against theirs; the small
wrappers around the outside crates (image, material-colors, serde_json,
toml) and a few std calls are marked `external_body`, and their contracts
are trusted, not proved. The command line under `app/` is ordinary
Rust: argument parsing, file and process I/O, and the floating-point color
arithmetic (HCT tone solving, HLS transforms, colorfulness), which it runs on
the plans and tables the library computes.

| module | what it holds |
|---|---|
| `text` | string helpers over character sequences (find, split, trim, case) |
| `color` | `#RRGGBB` formatting and parsing, lenient RGB parsing, nearest xterm-256 index |
| `palette` | the ordered role → hex palette, `get` / `set` |
| `compat` | role tables of the tone solver: palettes, backgrounds, contrast curves, tone pairs, starting-tone rules |
| `scheme` | scheme variants and their CLI names, palette assembly in emission order |
| `extract` | downscale size, quantizer input, seed choice (material-colors' Celebi + Score), image decoding |
| `terminal` | the per-entry plan for deriving terminal colors, the base scheme file |
| `transform` | transform names, step order, per-key operation plan, remap palette catalogs, the colors.json reader |
| `scss` | the `$key: #hex;` palette file: lines, entries, rewriting |
| `output` | SCSS, flat JSON and matugen colors.json writers |
| `render` | template expressions, nested template data, the colors.json and config readers, cmus theme |
| `request` | command-line decisions that need no I/O |

Laws the library proves are public `lemma_*` proof functions next to the
functions they speak of.
