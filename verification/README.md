# hypixel_stats

The verified core of a Discord bot that draws Hypixel Bed Wars statistics
cards.

`src/` is the library, proved with Verus:

- `markup`: the colour markup of card texts (`<green>..</green>`,
  `<#RRGGBB>..`, `<#AARRGGBB>..`): parsing into a tree, colours of tags, and
  flattening into coloured segments.
- `runs`: splitting coloured text into runs drawn with one typeface at one
  scale, given which characters each typeface lacks.
- `color`, `palette`: colours, the sixteen named chat colours and the
  shadow drawn under text of each colour.
- `numfmt`: thousands separators, two-decimal numbers, coloured stats and
  stat table rows.
- `layout`: alignments, shape kinds and the rows of a table.
- `bedwars`: the Bed Wars counters of a player.
- `render_service`: the expiring cache in front of the player render API.

`app/` holds what cannot be verified: drawing with skia (layout is done in
floating point), typefaces loaded from disk, serde types for the Hypixel API,
float formatting, and the process-wide render service.
