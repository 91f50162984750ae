# riptar

Deterministic avatar pictures, verified with Verus.

- `src/` is the library, verified by Verus throughout; contracts state what
  it computes: the seeded generator, the pixel-art flower (grid, variants, stem,
  recentring, swaying frames, drawing), the colour palettes with their night
  and HDR adjustments (binary32 arithmetic carried out exactly over
  integers), the noise-avatar SVG, the avatar and dither URL rules,
  Floyd–Steinberg dithering and the HLG PNG writer. Calls into `image`,
  `resvg`, `url`, `flate2` and `crc32fast` sit behind small trusted wrappers
  in `codec.rs` and `avatar.rs`; `laws.rs` states properties of the library
  as a whole.
- `app/` is the Cloudflare Worker around it: routing, fetching images,
  HTTP responses, and the floating-point HLG tone mapping.
- `tests/` runs the library with the real outside crates linked.
