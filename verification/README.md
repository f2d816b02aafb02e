# tato

A small retro game engine's core, verified with Verus.

- `video`: tiles, clusters, palettes and colors, tile and color banks, tilemaps, sprites,
  the video chip that places them on screen, and the renderer that turns it all into
  pixels row by row.
- `math`: integer vectors and rectangles and scalar helpers.
- `pad`: the game pad's buttons and directions.
- `arena`: a fixed-size arena with typed handles, buffers and formatted text in it.
- `collision`: finding the first colliding tile along a row or a column of a tilemap.
- `pipeline`: the asset pipeline's own logic: generated source lines, sub-palette sharing,
  tile groups, canonical tiles, tile transforms and matching, the bank builder that
  deduplicates the tiles of images into tilemaps and animation strips, the metadata file
  and the build-step decisions.
- `decimal`: decimal spelling of numbers.

`app/` holds what the library leaves out: floating-point math, the pipeline's file
system and cargo plumbing (timestamps, writing and formatting files, registering
modules), writing a bank's files from the library's lines with images read by a loader
the caller supplies, and standard trait impls.
